//! The texts with which the packager explains a refusal.
use vstd::prelude::*;
use crate::binary::{BinaryError, BinaryKind};
use crate::packager::{extension_str, extension_text};
use crate::request::{PackageError, PackageFault, Target, TargetPlatform, TextField};
use crate::text::{decimal, push_decimal};

verus! {

/// How messages name a request field.
pub open spec fn field_label(field: TextField) -> Seq<char> {
    match field {
        TextField::PluginName => "plugin name"@,
        TextField::BundleIdentifier => "bundle identifier"@,
        TextField::Version => "version"@,
        TextField::AuFactoryFunction => "AU factory function"@,
        TextField::AuComponentType => "AU component type"@,
        TextField::AuComponentSubtype => "AU component subtype"@,
        TextField::AuManufacturer => "AU manufacturer"@,
    }
}

fn label(field: TextField) -> (s: &'static str)
    ensures
        s@ == field_label(field),
{
    match field {
        TextField::PluginName => "plugin name",
        TextField::BundleIdentifier => "bundle identifier",
        TextField::Version => "version",
        TextField::AuFactoryFunction => "AU factory function",
        TextField::AuComponentType => "AU component type",
        TextField::AuComponentSubtype => "AU component subtype",
        TextField::AuManufacturer => "AU manufacturer",
    }
}

/// How messages name a platform: the variant's name, as `{:?}` prints it.
pub open spec fn platform_name(platform: TargetPlatform) -> Seq<char> {
    match platform {
        TargetPlatform::Macos => "Macos"@,
        TargetPlatform::Windows => "Windows"@,
        TargetPlatform::Linux => "Linux"@,
    }
}

fn platform_str(platform: TargetPlatform) -> (s: &'static str)
    ensures
        s@ == platform_name(platform),
{
    match platform {
        TargetPlatform::Macos => "Macos",
        TargetPlatform::Windows => "Windows",
        TargetPlatform::Linux => "Linux",
    }
}

/// How messages name the kind of binary that was checked.
pub open spec fn kind_text(kind: BinaryKind) -> Seq<char> {
    match kind {
        BinaryKind::DynamicModule => "plugin module"@,
        BinaryKind::Executable => "standalone executable"@,
    }
}

fn kind_str(kind: BinaryKind) -> (s: &'static str)
    ensures
        s@ == kind_text(kind),
{
    match kind {
        BinaryKind::DynamicModule => "plugin module",
        BinaryKind::Executable => "standalone executable",
    }
}

/// Why a binary's header does not fit the target architecture `arch`.
pub open spec fn binary_error_text(error: BinaryError, arch: Seq<char>) -> Seq<char> {
    match error {
        BinaryError::UnsupportedLinuxArchitecture => "unsupported Linux plugin architecture '"@ + arch + "'"@,
        BinaryError::ElfHeaderTruncated => "ELF header is truncated"@,
        BinaryError::NotElf => "expected an ELF shared object"@,
        BinaryError::ElfInvalidClass => "ELF file has an invalid class"@,
        BinaryError::ElfClassMismatch => "ELF class does not match target architecture '"@ + arch + "'"@,
        BinaryError::ElfInvalidByteOrder => "ELF file has an invalid byte order"@,
        BinaryError::ElfByteOrderMismatch => "ELF byte order does not match target architecture '"@ + arch + "'"@,
        BinaryError::ElfMachineMismatch => "ELF architecture does not match target architecture '"@ + arch + "'"@,
        BinaryError::ElfProgramHeaderTableInvalid => "ELF program header table is invalid"@,
        BinaryError::ElfProgramHeaderOffsetOverflow => "ELF program header table offset overflows"@,
        BinaryError::ElfProgramHeaderTableTruncated => "ELF program header table is truncated"@,
        BinaryError::ElfNotSharedObject => "ELF file is not a shared object (ET_DYN)"@,
        BinaryError::ElfPieModule => "ELF module is a PIE executable (PT_INTERP), not a shared object"@,
        BinaryError::ElfDynWithoutInterpreter => "ELF ET_DYN file has no PT_INTERP marker for a PIE executable"@,
        BinaryError::ElfNotExecutable => "ELF file is neither ET_EXEC nor a PIE executable"@,
        BinaryError::PeDosHeaderTruncated => "PE DOS header is truncated"@,
        BinaryError::NotPe => "expected a Windows PE/COFF module"@,
        BinaryError::PeHeaderTruncated => "PE header is truncated"@,
        BinaryError::PeSignatureMissing => "PE signature is missing"@,
        BinaryError::UnsupportedWindowsArchitecture => "unsupported Windows plugin architecture '"@ + arch + "'"@,
        BinaryError::PeMachineMismatch => "PE architecture does not match target architecture '"@ + arch + "'"@,
        BinaryError::PeNotDll => "PE module is not marked as a DLL"@,
        BinaryError::PeStandaloneIsDll => "PE standalone binary is marked as a DLL"@,
        BinaryError::PeNotExecutableImage => "PE standalone binary is not marked as an executable image"@,
        BinaryError::MachOHeaderTruncated => "Mach-O header is truncated"@,
        BinaryError::NotMachO => "expected a Mach-O binary"@,
        BinaryError::UnsupportedMacosArchitecture => "unsupported macOS plugin architecture '"@ + arch + "'"@,
        BinaryError::MachOArchitectureMismatch => "Mach-O architecture does not match target architecture '"@ + arch + "'"@,
        BinaryError::MachONotDylibOrBundle => "Mach-O file is not a dynamic library or bundle"@,
        BinaryError::MachONotExecutable => "Mach-O file is not an MH_EXECUTE executable"@,
        BinaryError::FatInvalidSliceCount => "Mach-O universal binary has an invalid slice count"@,
        BinaryError::FatTableTruncated => "Mach-O universal architecture table is truncated"@,
        BinaryError::FatSliceHeaderTruncated => "Mach-O universal slice header is truncated"@,
        BinaryError::FatSliceInvalidHeader => "Mach-O universal slice has an invalid header"@,
        BinaryError::FatMissingArchitecture => "Mach-O universal binary does not contain target architecture '"@ + arch + "'"@,
    }
}

/// The explanation of a header refusal.
pub fn binary_error(error: BinaryError, arch: &str) -> (s: String)
    ensures
        s@ == binary_error_text(error, arch@),
{
    match error {
        BinaryError::UnsupportedLinuxArchitecture => {
            let mut s = String::new();
            s.append("unsupported Linux plugin architecture '");
            s.append(arch);
            s.append("'");
            s
        },
        BinaryError::ElfHeaderTruncated => {
            let mut s = String::new();
            s.append("ELF header is truncated");
            s
        },
        BinaryError::NotElf => {
            let mut s = String::new();
            s.append("expected an ELF shared object");
            s
        },
        BinaryError::ElfInvalidClass => {
            let mut s = String::new();
            s.append("ELF file has an invalid class");
            s
        },
        BinaryError::ElfClassMismatch => {
            let mut s = String::new();
            s.append("ELF class does not match target architecture '");
            s.append(arch);
            s.append("'");
            s
        },
        BinaryError::ElfInvalidByteOrder => {
            let mut s = String::new();
            s.append("ELF file has an invalid byte order");
            s
        },
        BinaryError::ElfByteOrderMismatch => {
            let mut s = String::new();
            s.append("ELF byte order does not match target architecture '");
            s.append(arch);
            s.append("'");
            s
        },
        BinaryError::ElfMachineMismatch => {
            let mut s = String::new();
            s.append("ELF architecture does not match target architecture '");
            s.append(arch);
            s.append("'");
            s
        },
        BinaryError::ElfProgramHeaderTableInvalid => {
            let mut s = String::new();
            s.append("ELF program header table is invalid");
            s
        },
        BinaryError::ElfProgramHeaderOffsetOverflow => {
            let mut s = String::new();
            s.append("ELF program header table offset overflows");
            s
        },
        BinaryError::ElfProgramHeaderTableTruncated => {
            let mut s = String::new();
            s.append("ELF program header table is truncated");
            s
        },
        BinaryError::ElfNotSharedObject => {
            let mut s = String::new();
            s.append("ELF file is not a shared object (ET_DYN)");
            s
        },
        BinaryError::ElfPieModule => {
            let mut s = String::new();
            s.append("ELF module is a PIE executable (PT_INTERP), not a shared object");
            s
        },
        BinaryError::ElfDynWithoutInterpreter => {
            let mut s = String::new();
            s.append("ELF ET_DYN file has no PT_INTERP marker for a PIE executable");
            s
        },
        BinaryError::ElfNotExecutable => {
            let mut s = String::new();
            s.append("ELF file is neither ET_EXEC nor a PIE executable");
            s
        },
        BinaryError::PeDosHeaderTruncated => {
            let mut s = String::new();
            s.append("PE DOS header is truncated");
            s
        },
        BinaryError::NotPe => {
            let mut s = String::new();
            s.append("expected a Windows PE/COFF module");
            s
        },
        BinaryError::PeHeaderTruncated => {
            let mut s = String::new();
            s.append("PE header is truncated");
            s
        },
        BinaryError::PeSignatureMissing => {
            let mut s = String::new();
            s.append("PE signature is missing");
            s
        },
        BinaryError::UnsupportedWindowsArchitecture => {
            let mut s = String::new();
            s.append("unsupported Windows plugin architecture '");
            s.append(arch);
            s.append("'");
            s
        },
        BinaryError::PeMachineMismatch => {
            let mut s = String::new();
            s.append("PE architecture does not match target architecture '");
            s.append(arch);
            s.append("'");
            s
        },
        BinaryError::PeNotDll => {
            let mut s = String::new();
            s.append("PE module is not marked as a DLL");
            s
        },
        BinaryError::PeStandaloneIsDll => {
            let mut s = String::new();
            s.append("PE standalone binary is marked as a DLL");
            s
        },
        BinaryError::PeNotExecutableImage => {
            let mut s = String::new();
            s.append("PE standalone binary is not marked as an executable image");
            s
        },
        BinaryError::MachOHeaderTruncated => {
            let mut s = String::new();
            s.append("Mach-O header is truncated");
            s
        },
        BinaryError::NotMachO => {
            let mut s = String::new();
            s.append("expected a Mach-O binary");
            s
        },
        BinaryError::UnsupportedMacosArchitecture => {
            let mut s = String::new();
            s.append("unsupported macOS plugin architecture '");
            s.append(arch);
            s.append("'");
            s
        },
        BinaryError::MachOArchitectureMismatch => {
            let mut s = String::new();
            s.append("Mach-O architecture does not match target architecture '");
            s.append(arch);
            s.append("'");
            s
        },
        BinaryError::MachONotDylibOrBundle => {
            let mut s = String::new();
            s.append("Mach-O file is not a dynamic library or bundle");
            s
        },
        BinaryError::MachONotExecutable => {
            let mut s = String::new();
            s.append("Mach-O file is not an MH_EXECUTE executable");
            s
        },
        BinaryError::FatInvalidSliceCount => {
            let mut s = String::new();
            s.append("Mach-O universal binary has an invalid slice count");
            s
        },
        BinaryError::FatTableTruncated => {
            let mut s = String::new();
            s.append("Mach-O universal architecture table is truncated");
            s
        },
        BinaryError::FatSliceHeaderTruncated => {
            let mut s = String::new();
            s.append("Mach-O universal slice header is truncated");
            s
        },
        BinaryError::FatSliceInvalidHeader => {
            let mut s = String::new();
            s.append("Mach-O universal slice has an invalid header");
            s
        },
        BinaryError::FatMissingArchitecture => {
            let mut s = String::new();
            s.append("Mach-O universal binary does not contain target architecture '");
            s.append(arch);
            s.append("'");
            s
        },
    }
}

/// The explanation of a refusal, naming the binary, the target and the
/// output path where they are involved.
pub open spec fn describe_spec(
    error: PackageFault,
    binary: Seq<char>,
    platform: TargetPlatform,
    arch: Seq<char>,
    output: Seq<char>,
) -> Seq<char> {
    match error {
        PackageFault::TextEmptyOrPadded(field) => field_label(field) + " must be non-empty and have no leading or trailing whitespace"@,
        PackageFault::TextTooLong(field, max) => field_label(field) + " is longer than "@ + decimal(max as nat) + " bytes"@,
        PackageFault::TextHasControlCharacters(field) => field_label(field) + " must not contain control characters"@,
        PackageFault::BundleIdTooFewComponents => "bundle identifier must contain at least two dot-separated components"@,
        PackageFault::BundleIdInvalidComponent => "bundle identifier components must start and end with an ASCII letter or digit and contain only letters, digits, and '-'"@,
        PackageFault::VersionComponentCount => "version must contain one to three numeric components"@,
        PackageFault::VersionNotNumeric => "version must contain only dot-separated decimal integers"@,
        PackageFault::VersionComponentTooLarge(part) => "version component '"@ + part + "' is too large"@,
        PackageFault::AuVersionOutOfRange => "AU version components must fit 16.8.8 bits (major <= 65535, minor/patch <= 255)"@,
        PackageFault::FourccInvalid(field) => field_label(field) + " must be exactly four printable ASCII characters"@,
        PackageFault::FactoryNotIdentifier => "AU factory function must be a valid C identifier"@,
        PackageFault::AuRequiresMacos => "AudioUnit packaging is only supported on macOS"@,
        PackageFault::AuMetadataMissing => "AudioUnit metadata is required for AU format"@,
        PackageFault::CodesignRequiresMacosTarget => "--codesign is only supported for macOS bundles"@,
        PackageFault::CodesignRequiresMacosHost => "macOS bundles can only be codesigned on macOS"@,
        PackageFault::BinaryMissing => "input binary does not exist: "@ + binary,
        PackageFault::BinaryNotRegularFile => "input binary is not a regular file: "@ + binary,
        PackageFault::BinaryExtensionMissing => "input binary must have a UTF-8 file extension"@,
        PackageFault::BinaryWrongExtension(ext) => "input binary for "@ + platform_name(platform) + " must have a ."@ + extension_text(ext) + " extension, got "@ + binary,
        PackageFault::BinaryUnreadable => "failed to open input binary"@,
        PackageFault::InvalidBinary(kind, cause) => "invalid "@ + kind_text(kind) + " "@ + binary + ": "@ + binary_error_text(cause, arch),
        PackageFault::OutputUnnamed => "output path must name an artifact"@,
        PackageFault::OutputStemInvalid => "output path must have a valid UTF-8 plugin name"@,
        PackageFault::OutputParentNotDirectory => "output parent is not a directory: "@ + output,
        PackageFault::OutputParentUninspectable => "failed to inspect output parent"@,
        PackageFault::OutputIsSymlink => "output path must not be a symbolic link: "@ + output,
        PackageFault::OutputBundleNotDirectory => "bundle output already exists and is not a directory: "@ + output,
        PackageFault::OutputFileNotRegular => "plugin output already exists and is not a regular file: "@ + output,
        PackageFault::OutputUninspectable => "failed to inspect output path"@,
        PackageFault::BinaryNotCanonicalizable => "failed to canonicalize input binary"@,
        PackageFault::OutputSameAsInput => "input binary and output path must be different"@,
        PackageFault::Vst3NoArchitectureDirectoryOnMacos => "macOS VST3 bundles do not use architecture directories"@,
        PackageFault::Vst3UnsupportedArchitecture => "unsupported VST3 architecture '"@ + arch + "' for "@ + platform_name(platform),
    }
}

/// Explains why a request was refused.
pub fn describe(error: &PackageError, binary: &str, target: &Target, output: &str) -> (s: String)
    ensures
        s@ == describe_spec(error@, binary@, target.platform, target.architecture@, output@),
{
    let arch = target.architecture.as_str();
    match error {
        PackageError::TextEmptyOrPadded(field) => {
            let field = *field;
            let mut s = String::new();
            s.append(label(field));
            s.append(" must be non-empty and have no leading or trailing whitespace");
            s
        },
        PackageError::TextTooLong(field, max) => {
            let field = *field;
            let max = *max;
            let mut s = String::new();
            s.append(label(field));
            s.append(" is longer than ");
            push_decimal(&mut s, max as u64);
            s.append(" bytes");
            s
        },
        PackageError::TextHasControlCharacters(field) => {
            let field = *field;
            let mut s = String::new();
            s.append(label(field));
            s.append(" must not contain control characters");
            s
        },
        PackageError::BundleIdTooFewComponents => {
            let mut s = String::new();
            s.append("bundle identifier must contain at least two dot-separated components");
            s
        },
        PackageError::BundleIdInvalidComponent => {
            let mut s = String::new();
            s.append("bundle identifier components must start and end with an ASCII letter or digit and contain only letters, digits, and '-'");
            s
        },
        PackageError::VersionComponentCount => {
            let mut s = String::new();
            s.append("version must contain one to three numeric components");
            s
        },
        PackageError::VersionNotNumeric => {
            let mut s = String::new();
            s.append("version must contain only dot-separated decimal integers");
            s
        },
        PackageError::VersionComponentTooLarge(part) => {
            let mut s = String::new();
            s.append("version component '");
            s.append(part.as_str());
            s.append("' is too large");
            s
        },
        PackageError::AuVersionOutOfRange => {
            let mut s = String::new();
            s.append("AU version components must fit 16.8.8 bits (major <= 65535, minor/patch <= 255)");
            s
        },
        PackageError::FourccInvalid(field) => {
            let field = *field;
            let mut s = String::new();
            s.append(label(field));
            s.append(" must be exactly four printable ASCII characters");
            s
        },
        PackageError::FactoryNotIdentifier => {
            let mut s = String::new();
            s.append("AU factory function must be a valid C identifier");
            s
        },
        PackageError::AuRequiresMacos => {
            let mut s = String::new();
            s.append("AudioUnit packaging is only supported on macOS");
            s
        },
        PackageError::AuMetadataMissing => {
            let mut s = String::new();
            s.append("AudioUnit metadata is required for AU format");
            s
        },
        PackageError::CodesignRequiresMacosTarget => {
            let mut s = String::new();
            s.append("--codesign is only supported for macOS bundles");
            s
        },
        PackageError::CodesignRequiresMacosHost => {
            let mut s = String::new();
            s.append("macOS bundles can only be codesigned on macOS");
            s
        },
        PackageError::BinaryMissing => {
            let mut s = String::new();
            s.append("input binary does not exist: ");
            s.append(binary);
            s
        },
        PackageError::BinaryNotRegularFile => {
            let mut s = String::new();
            s.append("input binary is not a regular file: ");
            s.append(binary);
            s
        },
        PackageError::BinaryExtensionMissing => {
            let mut s = String::new();
            s.append("input binary must have a UTF-8 file extension");
            s
        },
        PackageError::BinaryWrongExtension(ext) => {
            let ext = *ext;
            let mut s = String::new();
            s.append("input binary for ");
            s.append(platform_str(target.platform));
            s.append(" must have a .");
            s.append(extension_str(ext));
            s.append(" extension, got ");
            s.append(binary);
            s
        },
        PackageError::BinaryUnreadable => {
            let mut s = String::new();
            s.append("failed to open input binary");
            s
        },
        PackageError::InvalidBinary(kind, cause) => {
            let kind = *kind;
            let cause = *cause;
            let mut s = String::new();
            s.append("invalid ");
            s.append(kind_str(kind));
            s.append(" ");
            s.append(binary);
            s.append(": ");
            let c = binary_error(cause, arch);
            s.append(c.as_str());
            s
        },
        PackageError::OutputUnnamed => {
            let mut s = String::new();
            s.append("output path must name an artifact");
            s
        },
        PackageError::OutputStemInvalid => {
            let mut s = String::new();
            s.append("output path must have a valid UTF-8 plugin name");
            s
        },
        PackageError::OutputParentNotDirectory => {
            let mut s = String::new();
            s.append("output parent is not a directory: ");
            s.append(output);
            s
        },
        PackageError::OutputParentUninspectable => {
            let mut s = String::new();
            s.append("failed to inspect output parent");
            s
        },
        PackageError::OutputIsSymlink => {
            let mut s = String::new();
            s.append("output path must not be a symbolic link: ");
            s.append(output);
            s
        },
        PackageError::OutputBundleNotDirectory => {
            let mut s = String::new();
            s.append("bundle output already exists and is not a directory: ");
            s.append(output);
            s
        },
        PackageError::OutputFileNotRegular => {
            let mut s = String::new();
            s.append("plugin output already exists and is not a regular file: ");
            s.append(output);
            s
        },
        PackageError::OutputUninspectable => {
            let mut s = String::new();
            s.append("failed to inspect output path");
            s
        },
        PackageError::BinaryNotCanonicalizable => {
            let mut s = String::new();
            s.append("failed to canonicalize input binary");
            s
        },
        PackageError::OutputSameAsInput => {
            let mut s = String::new();
            s.append("input binary and output path must be different");
            s
        },
        PackageError::Vst3NoArchitectureDirectoryOnMacos => {
            let mut s = String::new();
            s.append("macOS VST3 bundles do not use architecture directories");
            s
        },
        PackageError::Vst3UnsupportedArchitecture => {
            let mut s = String::new();
            s.append("unsupported VST3 architecture '");
            s.append(arch);
            s.append("' for ");
            s.append(platform_str(target.platform));
            s
        },
    }
}

} // verus!
