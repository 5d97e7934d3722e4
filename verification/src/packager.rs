//! Validation of a packaging request and the layout of the artifact it makes.
//!
//! The file system is read by the caller: what it found is handed in as
//! [`BinaryFacts`] and [`OutputFacts`], and the artifact comes back as a
//! [`PackagePlan`], a list of steps that the caller carries out in a staging
//! directory before it publishes the result.
use vstd::prelude::*;
use crate::binary::{binary_header_spec, validate_binary_header, BinaryKind};
use crate::paths::{
    file_name, file_name_range, path_ext, path_extension, path_file_stem, path_stem,
    path_with_extension, set_extension, set_extension_gives_the_extension, with_extension,
};
use crate::plist::{
    au_plist, au_plist_text, bundle_plist, bundle_plist_text, standalone_plist,
    standalone_plist_text,
};
use crate::request::{
    au_version_fits, au_version_value, bundle_id_fault, factory_fault, fourcc_ok, parse_version,
    required_text_fault, validate_bundle_id, validate_display_name, validate_factory_name,
    validate_fourcc, version_spec, version_to_au_integer, au_metadata_view, AuMetadata,
    AuMetadataView, ModuleExtension, PackageError, PackageFault, PackageFormat, PackageRequest,
    RequestView, Target, TargetPlatform, TextField,
};
use crate::text::{eq_ignore_ascii_case, is_blank, str_eq, str_eq_ignore_ascii_case, trim};

verus! {

/// Whether an artifact is a directory tree or a single file.
#[derive(Copy, Clone, Debug, PartialEq, Eq, Structural)]
pub enum OutputKind {
    Bundle,
    File,
}

/// CLAP plug-ins and standalone programs are single files on Windows and
/// Linux; everything else is a bundle directory.
pub open spec fn output_kind_of(format: PackageFormat, platform: TargetPlatform) -> OutputKind {
    match (format, platform) {
        (PackageFormat::Clap, TargetPlatform::Windows) => OutputKind::File,
        (PackageFormat::Clap, TargetPlatform::Linux) => OutputKind::File,
        (PackageFormat::Standalone, TargetPlatform::Windows) => OutputKind::File,
        (PackageFormat::Standalone, TargetPlatform::Linux) => OutputKind::File,
        _ => OutputKind::Bundle,
    }
}

pub fn output_kind(format: PackageFormat, platform: TargetPlatform) -> (k: OutputKind)
    ensures
        k == output_kind_of(format, platform),
{
    match (format, platform) {
        (PackageFormat::Clap, TargetPlatform::Windows) | (PackageFormat::Clap, TargetPlatform::Linux)
        | (PackageFormat::Standalone, TargetPlatform::Windows) | (
            PackageFormat::Standalone,
            TargetPlatform::Linux,
        ) => OutputKind::File,
        _ => OutputKind::Bundle,
    }
}

/// Standalone artifacts wrap an executable; the others a loadable module.
pub open spec fn binary_kind_of(format: PackageFormat) -> BinaryKind {
    if format == PackageFormat::Standalone {
        BinaryKind::Executable
    } else {
        BinaryKind::DynamicModule
    }
}

pub fn binary_kind(format: PackageFormat) -> (k: BinaryKind)
    ensures
        k == binary_kind_of(format),
{
    if format == PackageFormat::Standalone {
        BinaryKind::Executable
    } else {
        BinaryKind::DynamicModule
    }
}

/// The extension the input binary must carry, if the platform names one.
pub open spec fn required_extension(kind: BinaryKind, platform: TargetPlatform) -> Option<
    ModuleExtension,
> {
    match (kind, platform) {
        (BinaryKind::DynamicModule, TargetPlatform::Macos) => Some(ModuleExtension::Dylib),
        (BinaryKind::DynamicModule, TargetPlatform::Windows) => Some(ModuleExtension::Dll),
        (BinaryKind::DynamicModule, TargetPlatform::Linux) => Some(ModuleExtension::So),
        (BinaryKind::Executable, TargetPlatform::Windows) => Some(ModuleExtension::Exe),
        (BinaryKind::Executable, _) => None,
    }
}

/// The spelling of a required extension.
pub open spec fn extension_text(e: ModuleExtension) -> Seq<char> {
    match e {
        ModuleExtension::Dylib => "dylib"@,
        ModuleExtension::Dll => "dll"@,
        ModuleExtension::So => "so"@,
        ModuleExtension::Exe => "exe"@,
    }
}

pub fn extension_str(e: ModuleExtension) -> (s: &'static str)
    ensures
        s@ == extension_text(e),
{
    match e {
        ModuleExtension::Dylib => "dylib",
        ModuleExtension::Dll => "dll",
        ModuleExtension::So => "so",
        ModuleExtension::Exe => "exe",
    }
}

fn required_extension_of(kind: BinaryKind, platform: TargetPlatform) -> (r: Option<ModuleExtension>)
    ensures
        r == required_extension(kind, platform),
{
    match (kind, platform) {
        (BinaryKind::DynamicModule, TargetPlatform::Macos) => Some(ModuleExtension::Dylib),
        (BinaryKind::DynamicModule, TargetPlatform::Windows) => Some(ModuleExtension::Dll),
        (BinaryKind::DynamicModule, TargetPlatform::Linux) => Some(ModuleExtension::So),
        (BinaryKind::Executable, TargetPlatform::Windows) => Some(ModuleExtension::Exe),
        (BinaryKind::Executable, _) => None,
    }
}

/// The extension given to the artifact path; empty means none.
pub open spec fn artifact_extension(format: PackageFormat, platform: TargetPlatform) -> Seq<char> {
    match (format, platform) {
        (PackageFormat::Au, _) => "component"@,
        (PackageFormat::Vst3, _) => "vst3"@,
        (PackageFormat::Clap, _) => "clap"@,
        (PackageFormat::Standalone, TargetPlatform::Macos) => "app"@,
        (PackageFormat::Standalone, TargetPlatform::Windows) => "exe"@,
        (PackageFormat::Standalone, TargetPlatform::Linux) => ""@,
    }
}

fn artifact_extension_str(format: PackageFormat, platform: TargetPlatform) -> (s: &'static str)
    ensures
        s@ == artifact_extension(format, platform),
{
    match (format, platform) {
        (PackageFormat::Au, _) => "component",
        (PackageFormat::Vst3, _) => "vst3",
        (PackageFormat::Clap, _) => "clap",
        (PackageFormat::Standalone, TargetPlatform::Macos) => "app",
        (PackageFormat::Standalone, TargetPlatform::Windows) => "exe",
        (PackageFormat::Standalone, TargetPlatform::Linux) => "",
    }
}

/// The VST3 `Contents/<dir>` that holds the module on Windows and Linux.
pub open spec fn vst3_directory(platform: TargetPlatform, arch: Seq<char>) -> Result<
    Seq<char>,
    PackageFault,
> {
    match platform {
        TargetPlatform::Macos => Err(PackageFault::Vst3NoArchitectureDirectoryOnMacos),
        TargetPlatform::Windows => if arch == "x86"@ {
            Ok("x86-win"@)
        } else if arch == "x86_64"@ {
            Ok("x86_64-win"@)
        } else if arch == "aarch64"@ {
            Ok("arm_64-win"@)
        } else {
            Err(PackageFault::Vst3UnsupportedArchitecture)
        },
        TargetPlatform::Linux => if arch == "x86"@ {
            Ok("i386-linux"@)
        } else if arch == "x86_64"@ {
            Ok("x86_64-linux"@)
        } else if arch == "aarch64"@ {
            Ok("aarch64-linux"@)
        } else if arch == "riscv64"@ {
            Ok("riscv64-linux"@)
        } else {
            Err(PackageFault::Vst3UnsupportedArchitecture)
        },
    }
}

/// The architecture directory of a VST3 bundle for a target.
pub fn vst3_architecture_directory(target: &Target) -> (r: Result<&'static str, PackageError>)
    ensures
        match r {
            Ok(d) => vst3_directory(target.platform, target.architecture@) == Ok::<
                Seq<char>,
                PackageFault,
            >(d@),
            Err(e) => vst3_directory(target.platform, target.architecture@) == Err::<
                Seq<char>,
                PackageFault,
            >(e@),
        },
{
    let arch = target.architecture.as_str();
    match target.platform {
        TargetPlatform::Macos => Err(PackageError::Vst3NoArchitectureDirectoryOnMacos),
        TargetPlatform::Windows => {
            if str_eq(arch, "x86") {
                Ok("x86-win")
            } else if str_eq(arch, "x86_64") {
                Ok("x86_64-win")
            } else if str_eq(arch, "aarch64") {
                Ok("arm_64-win")
            } else {
                Err(PackageError::Vst3UnsupportedArchitecture)
            }
        },
        TargetPlatform::Linux => {
            if str_eq(arch, "x86") {
                Ok("i386-linux")
            } else if str_eq(arch, "x86_64") {
                Ok("x86_64-linux")
            } else if str_eq(arch, "aarch64") {
                Ok("aarch64-linux")
            } else if str_eq(arch, "riscv64") {
                Ok("riscv64-linux")
            } else {
                Err(PackageError::Vst3UnsupportedArchitecture)
            }
        },
    }
}

// ------------------------------------------------------------ the request

/// The first problem with an AU request's metadata, in the order checked.
pub open spec fn au_fault(au: Option<AuMetadataView>, platform: TargetPlatform, version: Seq<u32>) -> Option<
    PackageFault,
> {
    if platform != TargetPlatform::Macos {
        Some(PackageFault::AuRequiresMacos)
    } else {
        match au {
            None => Some(PackageFault::AuMetadataMissing),
            Some(a) => if !fourcc_ok(vstd::utf8::encode_utf8(a.component_type)) {
                Some(PackageFault::FourccInvalid(TextField::AuComponentType))
            } else if !fourcc_ok(vstd::utf8::encode_utf8(a.component_subtype)) {
                Some(PackageFault::FourccInvalid(TextField::AuComponentSubtype))
            } else if !fourcc_ok(vstd::utf8::encode_utf8(a.manufacturer)) {
                Some(PackageFault::FourccInvalid(TextField::AuManufacturer))
            } else if factory_fault(a.factory) is Some {
                factory_fault(a.factory)
            } else if !au_version_fits(version) {
                Some(PackageFault::AuVersionOutOfRange)
            } else {
                None
            },
        }
    }
}

/// The first problem with the request's own fields and the platforms
/// involved, in the order checked; `host` is the platform packaging runs on.
pub open spec fn request_fault(req: RequestView, target: Target, host: TargetPlatform) -> Option<
    PackageFault,
> {
    if required_text_fault(TextField::PluginName, req.name, 255) is Some {
        required_text_fault(TextField::PluginName, req.name, 255)
    } else if bundle_id_fault(req.bundle_id) is Some {
        bundle_id_fault(req.bundle_id)
    } else {
        match version_spec(req.version) {
            Err(e) => Some(e),
            Ok(v) => if req.format == PackageFormat::Au && au_fault(req.au, target.platform, v) is Some {
                au_fault(req.au, target.platform, v)
            } else if req.codesign && target.platform != TargetPlatform::Macos {
                Some(PackageFault::CodesignRequiresMacosTarget)
            } else if req.codesign && host != TargetPlatform::Macos {
                Some(PackageFault::CodesignRequiresMacosHost)
            } else {
                None
            },
        }
    }
}

/// What the file system said of the input binary.
#[derive(Clone, Debug)]
pub struct BinaryFacts {
    /// Its metadata could be read.
    pub exists: bool,
    /// It is a regular file.
    pub is_file: bool,
    /// Its bytes, if it could be opened and read.
    pub contents: Option<Vec<u8>>,
}

/// The first problem with the input binary, in the order checked.
pub open spec fn binary_fault(
    binary: Seq<char>,
    target: Target,
    kind: BinaryKind,
    facts: BinaryFacts,
) -> Option<PackageFault> {
    if !facts.exists {
        Some(PackageFault::BinaryMissing)
    } else if !facts.is_file {
        Some(PackageFault::BinaryNotRegularFile)
    } else if required_extension(kind, target.platform) is Some && path_extension(binary) is None {
        Some(PackageFault::BinaryExtensionMissing)
    } else if required_extension(kind, target.platform) is Some && !eq_ignore_ascii_case(
        path_extension(binary)->0,
        extension_text(required_extension(kind, target.platform)->0),
    ) {
        Some(PackageFault::BinaryWrongExtension(required_extension(kind, target.platform)->0))
    } else {
        match facts.contents {
            None => Some(PackageFault::BinaryUnreadable),
            Some(bytes) => match binary_header_spec(
                target.platform,
                bytes@,
                target.architecture@,
                kind,
            ) {
                Err(e) => Some(PackageFault::InvalidBinary(kind, e)),
                Ok(()) => None,
            },
        }
    }
}

/// Checks the input binary: it exists, is a regular file, has the extension
/// the platform uses, and has a header of the right format, architecture
/// and kind.
pub fn validate_binary(binary: &str, target: &Target, kind: BinaryKind, facts: &BinaryFacts) -> (r:
    Result<(), PackageError>)
    ensures
        match r {
            Ok(()) => binary_fault(binary@, *target, kind, *facts) is None,
            Err(e) => binary_fault(binary@, *target, kind, *facts) == Some(e@),
        },
{
    if !facts.exists {
        return Err(PackageError::BinaryMissing);
    }
    if !facts.is_file {
        return Err(PackageError::BinaryNotRegularFile);
    }
    match required_extension_of(kind, target.platform) {
        None => {},
        Some(expected) => match path_ext(binary) {
            None => {
                return Err(PackageError::BinaryExtensionMissing);
            },
            Some(actual) => {
                if !str_eq_ignore_ascii_case(actual.as_str(), extension_str(expected)) {
                    return Err(PackageError::BinaryWrongExtension(expected));
                }
            },
        },
    }
    match &facts.contents {
        None => Err(PackageError::BinaryUnreadable),
        Some(bytes) => match validate_binary_header(
            target.platform,
            bytes.as_slice(),
            target.architecture.as_str(),
            kind,
        ) {
            Err(e) => Err(PackageError::InvalidBinary(kind, e)),
            Ok(()) => Ok(()),
        },
    }
}

// ------------------------------------------------------------- the output

/// A usable artifact stem: not blank, and not `.` or `..`.
pub open spec fn stem_ok(stem: Seq<char>) -> bool {
    trim(stem).len() > 0 && stem != "."@ && stem != ".."@
}

/// The artifact path (the requested path with the format's extension) and
/// its stem, which names the module inside a bundle.
pub open spec fn artifact_spec(out: Seq<char>, format: PackageFormat, platform: TargetPlatform) -> Result<
    (Seq<char>, Seq<char>),
    PackageFault,
> {
    if out.len() == 0 || file_name(out) is None {
        Err(PackageFault::OutputUnnamed)
    } else {
        let output = with_extension(out, artifact_extension(format, platform));
        match path_file_stem(output) {
            Some(stem) => if stem_ok(stem) {
                Ok((output, stem))
            } else {
                Err(PackageFault::OutputStemInvalid)
            },
            None => Err(PackageFault::OutputStemInvalid),
        }
    }
}

pub open spec fn artifact_result_view(r: Result<(String, String), PackageError>) -> Result<
    (Seq<char>, Seq<char>),
    PackageFault,
> {
    match r {
        Ok((a, b)) => Ok((a@, b@)),
        Err(e) => Err(e@),
    }
}

/// The artifact path for a requested output path, and its stem.
pub fn output_artifact(out: &str, format: PackageFormat, platform: TargetPlatform) -> (r: Result<
    (String, String),
    PackageError,
>)
    ensures
        artifact_result_view(r) == artifact_spec(out@, format, platform),
{
    match file_name_range(out) {
        None => {
            return Err(PackageError::OutputUnnamed);
        },
        Some(_) => {},
    }
    let output = path_with_extension(out, artifact_extension_str(format, platform));
    match path_stem(output.as_str()) {
        None => Err(PackageError::OutputStemInvalid),
        Some(stem) => {
            if is_blank(stem.as_str()) || str_eq(stem.as_str(), ".") || str_eq(stem.as_str(), "..") {
                Err(PackageError::OutputStemInvalid)
            } else {
                Ok((output, stem))
            }
        },
    }
}

/// The nearest existing ancestor of the artifact's parent directory.
#[derive(Copy, Clone, Debug, PartialEq, Eq, Structural)]
pub enum AncestorState {
    Directory,
    NotDirectory,
    Uninspectable,
}

/// What is already at the artifact path, symbolic links not followed.
#[derive(Copy, Clone, Debug, PartialEq, Eq, Structural)]
pub enum ExistingOutput {
    Absent,
    Symlink,
    Directory,
    RegularFile,
    Other,
    Uninspectable,
}

/// What the file system said of the artifact path.
#[derive(Copy, Clone, Debug, PartialEq, Eq, Structural)]
pub struct OutputFacts {
    pub ancestor: AncestorState,
    pub existing: ExistingOutput,
    /// The input binary's canonical path could be found.
    pub binary_canonical: bool,
    /// The artifact path, canonicalized (or its parent, with its name), is
    /// the input binary.
    pub aliases_binary: bool,
}

/// The first problem with the artifact path, in the order checked.
pub open spec fn output_fault(facts: OutputFacts, kind: OutputKind) -> Option<PackageFault> {
    match facts.ancestor {
        AncestorState::NotDirectory => Some(PackageFault::OutputParentNotDirectory),
        AncestorState::Uninspectable => Some(PackageFault::OutputParentUninspectable),
        AncestorState::Directory => match facts.existing {
            ExistingOutput::Uninspectable => Some(PackageFault::OutputUninspectable),
            ExistingOutput::Symlink => Some(PackageFault::OutputIsSymlink),
            ExistingOutput::RegularFile if kind == OutputKind::Bundle => Some(
                PackageFault::OutputBundleNotDirectory,
            ),
            ExistingOutput::Other if kind == OutputKind::Bundle => Some(
                PackageFault::OutputBundleNotDirectory,
            ),
            ExistingOutput::Directory if kind == OutputKind::File => Some(
                PackageFault::OutputFileNotRegular,
            ),
            ExistingOutput::Other if kind == OutputKind::File => Some(
                PackageFault::OutputFileNotRegular,
            ),
            _ => if !facts.binary_canonical {
                Some(PackageFault::BinaryNotCanonicalizable)
            } else if facts.aliases_binary {
                Some(PackageFault::OutputSameAsInput)
            } else {
                None
            },
        },
    }
}

/// An artifact path is accepted exactly when its nearest existing ancestor
/// is a directory, the input binary has a canonical path that the artifact
/// does not alias, and the path is free or already holds an artifact of the
/// same kind: a regular file for a single-file artifact, which is then
/// replaced, or a directory for a bundle.
pub proof fn output_accepted_exactly_when_free_or_same_kind(facts: OutputFacts, kind: OutputKind)
    ensures
        output_fault(facts, kind) is None <==> {
            &&& facts.ancestor == AncestorState::Directory
            &&& facts.binary_canonical
            &&& !facts.aliases_binary
            &&& (facts.existing == ExistingOutput::Absent || (facts.existing == ExistingOutput::RegularFile
                && kind == OutputKind::File) || (facts.existing == ExistingOutput::Directory && kind
                == OutputKind::Bundle))
        },
{
}

/// Checks the artifact path: its nearest existing ancestor is a directory,
/// it is not a symbolic link, what is there already has the artifact's kind,
/// and it is not the input binary.
pub fn validate_output_path(facts: OutputFacts, kind: OutputKind) -> (r: Result<(), PackageError>)
    ensures
        match r {
            Ok(()) => output_fault(facts, kind) is None,
            Err(e) => output_fault(facts, kind) == Some(e@),
        },
{
    match facts.ancestor {
        AncestorState::NotDirectory => {
            return Err(PackageError::OutputParentNotDirectory);
        },
        AncestorState::Uninspectable => {
            return Err(PackageError::OutputParentUninspectable);
        },
        AncestorState::Directory => {},
    }
    match facts.existing {
        ExistingOutput::Uninspectable => {
            return Err(PackageError::OutputUninspectable);
        },
        ExistingOutput::Symlink => {
            return Err(PackageError::OutputIsSymlink);
        },
        ExistingOutput::RegularFile => {
            if kind == OutputKind::Bundle {
                return Err(PackageError::OutputBundleNotDirectory);
            }
        },
        ExistingOutput::Directory => {
            if kind == OutputKind::File {
                return Err(PackageError::OutputFileNotRegular);
            }
        },
        ExistingOutput::Other => {
            if kind == OutputKind::Bundle {
                return Err(PackageError::OutputBundleNotDirectory);
            } else {
                return Err(PackageError::OutputFileNotRegular);
            }
        },
        ExistingOutput::Absent => {},
    }
    if !facts.binary_canonical {
        return Err(PackageError::BinaryNotCanonicalizable);
    }
    if facts.aliases_binary {
        return Err(PackageError::OutputSameAsInput);
    }
    Ok(())
}

// --------------------------------------------------------------- the plan

/// One step of building the artifact inside its staging path. Paths are
/// relative to the staging path, with `/` between components; the empty
/// path is the staging path itself.
#[derive(Clone, Debug)]
pub enum BuildStep {
    /// Create a directory and its missing parents.
    CreateDir(String),
    /// Copy the input binary to a path.
    CopyBinary(String),
    /// Write text to a file.
    WriteFile(String, String),
}

/// A build step over char views.
pub enum Step {
    CreateDir(Seq<char>),
    CopyBinary(Seq<char>),
    WriteFile(Seq<char>, Seq<char>),
}

impl View for BuildStep {
    type V = Step;

    open spec fn view(&self) -> Step {
        match self {
            BuildStep::CreateDir(p) => Step::CreateDir(p@),
            BuildStep::CopyBinary(p) => Step::CopyBinary(p@),
            BuildStep::WriteFile(p, t) => Step::WriteFile(p@, t@),
        }
    }
}

pub open spec fn steps_view(steps: Seq<BuildStep>) -> Seq<Step> {
    steps.map_values(|s: BuildStep| s@)
}

/// Where the module of a macOS bundle lives.
pub const MACOS_DIR: &'static str = "Contents/MacOS";

/// A macOS bundle's resource directory.
pub const RESOURCES_DIR: &'static str = "Contents/Resources";

/// The prefix of the module path in a macOS bundle.
pub const MACOS_MODULE_PREFIX: &'static str = "Contents/MacOS/";

/// A macOS bundle's property list.
pub const INFO_PLIST: &'static str = "Contents/Info.plist";

/// A macOS bundle's package type and creator code.
pub const PKG_INFO: &'static str = "Contents/PkgInfo";

/// The `PkgInfo` of a plug-in bundle.
pub const BUNDLE_PKG_INFO: &'static str = "BNDL????";

/// The `PkgInfo` of an application bundle.
pub const APP_PKG_INFO: &'static str = "APPL????";

/// The prefix of a VST3 architecture directory.
pub const CONTENTS_PREFIX: &'static str = "Contents/";

/// The steps of a macOS bundle: its directories, the module named after the
/// stem, the property list and the `PkgInfo`.
pub open spec fn macos_bundle_steps(stem: Seq<char>, plist: Seq<char>, pkg_info: Seq<char>) -> Seq<
    Step,
> {
    seq![
        Step::CreateDir(MACOS_DIR@),
        Step::CreateDir(RESOURCES_DIR@),
        Step::CopyBinary(MACOS_MODULE_PREFIX@ + stem),
        Step::WriteFile(INFO_PLIST@, plist),
        Step::WriteFile(PKG_INFO@, pkg_info),
    ]
}

/// The steps of a VST3 bundle on Windows and Linux: the architecture
/// directory, and the module in it.
pub open spec fn vst3_module_steps(dir: Seq<char>, module: Seq<char>) -> Seq<Step> {
    seq![
        Step::CreateDir(CONTENTS_PREFIX@ + dir),
        Step::CopyBinary(CONTENTS_PREFIX@ + dir + "/"@ + module),
    ]
}

/// The steps of a single-file artifact: the binary is the artifact.
pub open spec fn single_file_steps() -> Seq<Step> {
    seq![Step::CopyBinary(""@)]
}

fn macos_bundle(stem: &str, plist: String, pkg_info: &'static str) -> (v: Vec<BuildStep>)
    ensures
        steps_view(v@) == macos_bundle_steps(stem@, plist@, pkg_info@),
{
    let mut module = String::new();
    module.append(MACOS_MODULE_PREFIX);
    module.append(stem);
    let mut v: Vec<BuildStep> = Vec::new();
    v.push(BuildStep::CreateDir(MACOS_DIR.to_owned()));
    v.push(BuildStep::CreateDir(RESOURCES_DIR.to_owned()));
    v.push(BuildStep::CopyBinary(module));
    v.push(BuildStep::WriteFile(INFO_PLIST.to_owned(), plist));
    v.push(BuildStep::WriteFile(PKG_INFO.to_owned(), pkg_info.to_owned()));
    assert(steps_view(v@) =~= macos_bundle_steps(stem@, plist@, pkg_info@));
    v
}

fn single_file() -> (v: Vec<BuildStep>)
    ensures
        steps_view(v@) == single_file_steps(),
{
    let mut v: Vec<BuildStep> = Vec::new();
    v.push(BuildStep::CopyBinary("".to_owned()));
    assert(steps_view(v@) =~= single_file_steps());
    v
}

/// A request that passed every check, with what the checks found.
#[derive(Clone, Debug)]
pub struct ValidatedRequest {
    /// The artifact path.
    pub output: String,
    /// The artifact's stem, which names the module inside a bundle.
    pub module_stem: String,
    /// The parsed version, missing components 0.
    pub version: [u32; 3],
}

/// What validating a request finds: the artifact path, its stem and the
/// version, or the first problem.
pub open spec fn validated_spec(
    req: RequestView,
    target: Target,
    host: TargetPlatform,
    binary: BinaryFacts,
    output: OutputFacts,
) -> Result<(Seq<char>, Seq<char>, Seq<u32>), PackageFault> {
    if request_fault(req, target, host) is Some {
        Err(request_fault(req, target, host)->0)
    } else if binary_fault(req.binary, target, binary_kind_of(req.format), binary) is Some {
        Err(binary_fault(req.binary, target, binary_kind_of(req.format), binary)->0)
    } else {
        match artifact_spec(req.out, req.format, target.platform) {
            Err(e) => Err(e),
            Ok((path, stem)) => if output_fault(output, output_kind_of(req.format, target.platform))
                is Some {
                Err(output_fault(output, output_kind_of(req.format, target.platform))->0)
            } else if req.format == PackageFormat::Vst3 && target.platform != TargetPlatform::Macos
                && vst3_directory(target.platform, target.architecture@) is Err {
                Err(PackageFault::Vst3UnsupportedArchitecture)
            } else {
                match version_spec(req.version) {
                    Ok(v) => Ok((path, stem, v)),
                    Err(e) => Err(e),
                }
            },
        }
    }
}

pub open spec fn validated_view(r: Result<ValidatedRequest, PackageError>) -> Result<
    (Seq<char>, Seq<char>, Seq<u32>),
    PackageFault,
> {
    match r {
        Ok(v) => Ok((v.output@, v.module_stem@, v.version@)),
        Err(e) => Err(e@),
    }
}

fn check_au(au: &Option<AuMetadata>, platform: TargetPlatform, version: [u32; 3]) -> (r: Result<
    (),
    PackageError,
>)
    ensures
        match r {
            Ok(()) => au_fault(au_metadata_view(*au), platform, version@) is None,
            Err(e) => au_fault(au_metadata_view(*au), platform, version@) == Some(e@),
        },
{
    if platform != TargetPlatform::Macos {
        return Err(PackageError::AuRequiresMacos);
    }
    match au {
        None => Err(PackageError::AuMetadataMissing),
        Some(a) => {
            validate_fourcc(TextField::AuComponentType, a.component_type.as_str())?;
            validate_fourcc(TextField::AuComponentSubtype, a.component_subtype.as_str())?;
            validate_fourcc(TextField::AuManufacturer, a.manufacturer.as_str())?;
            validate_factory_name(a.factory.as_str())?;
            version_to_au_integer(version)?;
            Ok(())
        },
    }
}

/// Checks a request against its target, the input binary and the artifact
/// path, in the order: name, bundle identifier, version, AU metadata,
/// code signing, input binary, artifact name, artifact path, VST3
/// architecture.
pub fn validate_request(
    request: &PackageRequest,
    target: &Target,
    host: TargetPlatform,
    binary: &BinaryFacts,
    output: OutputFacts,
) -> (r: Result<ValidatedRequest, PackageError>)
    ensures
        validated_view(r) == validated_spec(request@, *target, host, *binary, output),
{
    validate_display_name(request.name.as_str())?;
    validate_bundle_id(request.bundle_id.as_str())?;
    let version = parse_version(request.version.as_str())?;
    if request.format == PackageFormat::Au {
        check_au(&request.au, target.platform, version)?;
    }
    if request.codesign {
        if target.platform != TargetPlatform::Macos {
            return Err(PackageError::CodesignRequiresMacosTarget);
        }
        if host != TargetPlatform::Macos {
            return Err(PackageError::CodesignRequiresMacosHost);
        }
    }
    let kind = binary_kind(request.format);
    validate_binary(request.binary.as_str(), target, kind, binary)?;
    let (path, stem) = output_artifact(request.out.as_str(), request.format, target.platform)?;
    let out_kind = output_kind(request.format, target.platform);
    validate_output_path(output, out_kind)?;
    if request.format == PackageFormat::Vst3 && target.platform != TargetPlatform::Macos {
        vst3_architecture_directory(target)?;
    }
    Ok(ValidatedRequest { output: path, module_stem: stem, version })
}

/// The VST3 architecture directory of a target; empty where it has none.
pub open spec fn vst3_dir_of(target: Target) -> Seq<char> {
    match vst3_directory(target.platform, target.architecture@) {
        Ok(d) => d,
        Err(_) => Seq::empty(),
    }
}

/// The steps that lay out the artifact of a validated request.
pub open spec fn plan_steps(req: RequestView, target: Target, stem: Seq<char>, version: Seq<u32>) -> Seq<
    Step,
> {
    match req.format {
        PackageFormat::Au => macos_bundle_steps(
            stem,
            au_plist_text(
                stem,
                req.bundle_id,
                req.name,
                req.version,
                req.au->0,
                au_version_value(version[0], version[1], version[2]) as nat,
            ),
            BUNDLE_PKG_INFO@,
        ),
        PackageFormat::Vst3 => match target.platform {
            TargetPlatform::Macos => macos_bundle_steps(
                stem,
                bundle_plist_text(stem, req.bundle_id, req.name, req.version),
                BUNDLE_PKG_INFO@,
            ),
            TargetPlatform::Windows => vst3_module_steps(vst3_dir_of(target), stem + ".vst3"@),
            TargetPlatform::Linux => vst3_module_steps(vst3_dir_of(target), stem + ".so"@),
        },
        PackageFormat::Clap => if target.platform == TargetPlatform::Macos {
            macos_bundle_steps(
                stem,
                bundle_plist_text(stem, req.bundle_id, req.name, req.version),
                BUNDLE_PKG_INFO@,
            )
        } else {
            single_file_steps()
        },
        PackageFormat::Standalone => if target.platform == TargetPlatform::Macos {
            macos_bundle_steps(
                stem,
                standalone_plist_text(stem, req.bundle_id, req.name, req.version),
                APP_PKG_INFO@,
            )
        } else {
            single_file_steps()
        },
    }
}

/// The AU bundle of a validated request.
pub fn build_au(validated: &ValidatedRequest, request: &PackageRequest) -> (r: Result<
    Vec<BuildStep>,
    PackageError,
>)
    requires
        request.au is Some,
    ensures
        r is Ok <==> au_version_fits(validated.version@),
        r matches Err(e) ==> e@ == PackageFault::AuVersionOutOfRange,
        r matches Ok(v) ==> steps_view(v@) == macos_bundle_steps(
            validated.module_stem@,
            au_plist_text(
                validated.module_stem@,
                request.bundle_id@,
                request.name@,
                request.version@,
                request.au->0@,
                au_version_value(validated.version@[0], validated.version@[1], validated.version@[2])
                    as nat,
            ),
            BUNDLE_PKG_INFO@,
        ),
{
    let au = match &request.au {
        Some(a) => a,
        None => {
            return Err(PackageError::AuMetadataMissing);
        },
    };
    let plist = au_plist(
        validated.module_stem.as_str(),
        request.bundle_id.as_str(),
        request.name.as_str(),
        request.version.as_str(),
        validated.version,
        au,
    )?;
    Ok(macos_bundle(validated.module_stem.as_str(), plist, BUNDLE_PKG_INFO))
}

/// The VST3 bundle of a validated request: a macOS bundle, or the module in
/// its architecture directory elsewhere.
pub fn build_vst3(validated: &ValidatedRequest, request: &PackageRequest, target: &Target) -> (r:
    Result<Vec<BuildStep>, PackageError>)
    ensures
        match r {
            Ok(v) => (target.platform == TargetPlatform::Macos || vst3_directory(
                target.platform,
                target.architecture@,
            ) is Ok) && steps_view(v@) == plan_steps(
                RequestView { format: PackageFormat::Vst3, ..request@ },
                *target,
                validated.module_stem@,
                validated.version@,
            ),
            Err(e) => target.platform != TargetPlatform::Macos && vst3_directory(
                target.platform,
                target.architecture@,
            ) == Err::<Seq<char>, PackageFault>(e@),
        },
{
    let stem = validated.module_stem.as_str();
    match target.platform {
        TargetPlatform::Macos => {
            let plist = bundle_plist(
                stem,
                request.bundle_id.as_str(),
                request.name.as_str(),
                request.version.as_str(),
            );
            Ok(macos_bundle(stem, plist, BUNDLE_PKG_INFO))
        },
        _ => {
            let dir = vst3_architecture_directory(target)?;
            let mut dir_path = String::new();
            dir_path.append(CONTENTS_PREFIX);
            dir_path.append(dir);
            let mut module = String::new();
            module.append(CONTENTS_PREFIX);
            module.append(dir);
            module.append("/");
            module.append(stem);
            if target.platform == TargetPlatform::Windows {
                module.append(".vst3");
            } else {
                module.append(".so");
            }
            let ghost suffix = if target.platform == TargetPlatform::Windows {
                ".vst3"@
            } else {
                ".so"@
            };
            assert(vst3_dir_of(*target) == dir@);
            assert(module@ =~= CONTENTS_PREFIX@ + dir@ + "/"@ + (stem@ + suffix));
            let mut v: Vec<BuildStep> = Vec::new();
            v.push(BuildStep::CreateDir(dir_path));
            v.push(BuildStep::CopyBinary(module));
            assert(steps_view(v@) =~= plan_steps(
                RequestView { format: PackageFormat::Vst3, ..request@ },
                *target,
                validated.module_stem@,
                validated.version@,
            ));
            Ok(v)
        },
    }
}

/// The CLAP artifact of a validated request: a bundle on macOS, the module
/// itself elsewhere.
pub fn build_clap(validated: &ValidatedRequest, request: &PackageRequest, target: &Target) -> (v:
    Vec<BuildStep>)
    ensures
        steps_view(v@) == plan_steps(
            RequestView { format: PackageFormat::Clap, ..request@ },
            *target,
            validated.module_stem@,
            validated.version@,
        ),
{
    if target.platform == TargetPlatform::Macos {
        let stem = validated.module_stem.as_str();
        let plist = bundle_plist(
            stem,
            request.bundle_id.as_str(),
            request.name.as_str(),
            request.version.as_str(),
        );
        macos_bundle(stem, plist, BUNDLE_PKG_INFO)
    } else {
        single_file()
    }
}

/// The standalone artifact of a validated request: an application bundle on
/// macOS, the executable itself elsewhere.
pub fn build_standalone(validated: &ValidatedRequest, request: &PackageRequest, target: &Target) -> (v:
    Vec<BuildStep>)
    ensures
        steps_view(v@) == plan_steps(
            RequestView { format: PackageFormat::Standalone, ..request@ },
            *target,
            validated.module_stem@,
            validated.version@,
        ),
{
    if target.platform == TargetPlatform::Macos {
        let stem = validated.module_stem.as_str();
        let plist = standalone_plist(
            stem,
            request.bundle_id.as_str(),
            request.name.as_str(),
            request.version.as_str(),
        );
        macos_bundle(stem, plist, APP_PKG_INFO)
    } else {
        single_file()
    }
}

/// What packaging produces: the artifact path, its kind, the steps that lay
/// it out in a staging path, and whether the staged bundle is code-signed
/// before it is published.
#[derive(Clone, Debug)]
pub struct PackagePlan {
    pub output: String,
    pub kind: OutputKind,
    pub steps: Vec<BuildStep>,
    pub codesign: bool,
}

/// A plan over char views.
pub struct PlanView {
    pub output: Seq<char>,
    pub kind: OutputKind,
    pub steps: Seq<Step>,
    pub codesign: bool,
}

impl View for PackagePlan {
    type V = PlanView;

    open spec fn view(&self) -> PlanView {
        PlanView {
            output: self.output@,
            kind: self.kind,
            steps: steps_view(self.steps@),
            codesign: self.codesign,
        }
    }
}

/// What packaging a request for a target gives, run on `host`.
pub open spec fn package_spec(
    req: RequestView,
    target: Target,
    host: TargetPlatform,
    binary: BinaryFacts,
    output: OutputFacts,
) -> Result<PlanView, PackageFault> {
    match validated_spec(req, target, host, binary, output) {
        Err(e) => Err(e),
        Ok((path, stem, version)) => Ok(
            PlanView {
                output: path,
                kind: output_kind_of(req.format, target.platform),
                steps: plan_steps(req, target, stem, version),
                codesign: req.codesign,
            },
        ),
    }
}

pub open spec fn plan_result_view(r: Result<PackagePlan, PackageError>) -> Result<
    PlanView,
    PackageFault,
> {
    match r {
        Ok(p) => Ok(p@),
        Err(e) => Err(e@),
    }
}

/// Validates a request for an explicit target and lays out its artifact.
pub fn package_for_target(
    request: &PackageRequest,
    target: &Target,
    host: TargetPlatform,
    binary: &BinaryFacts,
    output: OutputFacts,
) -> (r: Result<PackagePlan, PackageError>)
    ensures
        plan_result_view(r) == package_spec(request@, *target, host, *binary, output),
{
    let validated = validate_request(request, target, host, binary, output)?;
    let steps = match request.format {
        PackageFormat::Au => build_au(&validated, request)?,
        PackageFormat::Vst3 => build_vst3(&validated, request, target)?,
        PackageFormat::Clap => build_clap(&validated, request, target),
        PackageFormat::Standalone => build_standalone(&validated, request, target),
    };
    let kind = output_kind(request.format, target.platform);
    let plan = PackagePlan { output: validated.output, kind, steps, codesign: request.codesign };
    assert(plan@.steps == plan_steps(request@, *target, validated.module_stem@, validated.version@));
    Ok(plan)
}

/// Validates a request and lays out its artifact for the platform that
/// packaging runs on.
pub fn package(request: &PackageRequest, host: &Target, binary: &BinaryFacts, output: OutputFacts) -> (r:
    Result<PackagePlan, PackageError>)
    ensures
        plan_result_view(r) == package_spec(request@, *host, host.platform, *binary, output),
{
    package_for_target(request, host, host.platform, binary, output)
}

/// Every artifact the packager names carries its format's extension, where
/// the format has one: `.component`, `.vst3`, `.clap`, `.app` or `.exe`.
pub proof fn artifacts_carry_their_format_extension(
    out: Seq<char>,
    format: PackageFormat,
    platform: TargetPlatform,
)
    ensures
        artifact_extension(format, platform).len() > 0 ==> (artifact_spec(out, format, platform)
            matches Ok((output, _)) ==> path_extension(output) == Some(
            artifact_extension(format, platform),
        )),
{
    reveal_strlit("component");
    reveal_strlit("vst3");
    reveal_strlit("clap");
    reveal_strlit("app");
    reveal_strlit("exe");
    reveal_strlit("");
    let ext = artifact_extension(format, platform);
    if let Ok((output, _)) = artifact_spec(out, format, platform) {
        if ext.len() > 0 {
            let t = match path_extension(out) {
                None => out,
                Some(old) => out.take(out.len() - old.len()),
            };
            assert(output == set_extension(t, ext));
            assert(file_name(t) is Some) by {
                if file_name(t) is None {
                    assert(set_extension(t, ext) == t);
                    assert(path_file_stem(output) is None);
                }
            }
            assert forall|i: int| 0 <= i < ext.len() implies ext[i] != '.' && ext[i] != '/' by {}
            set_extension_gives_the_extension(t, ext);
        }
    }
}

} // verus!
