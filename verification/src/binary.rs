//! Header checks for the native module formats: ELF, PE/COFF and Mach-O,
//! and the smallest module images that pass them.
use vstd::prelude::*;
use crate::text::str_eq;
use crate::paths::{path_with_extension, with_extension};
use crate::request::TargetPlatform;

verus! {

/// Whether a binary is loaded as a plug-in or run as a program.
#[derive(Copy, Clone, Debug, PartialEq, Eq, Structural)]
pub enum BinaryKind {
    DynamicModule,
    Executable,
}

/// Why a binary does not fit the target.
#[derive(Copy, Clone, Debug, PartialEq, Eq, Structural)]
pub enum BinaryError {
    UnsupportedLinuxArchitecture,
    ElfHeaderTruncated,
    NotElf,
    ElfInvalidClass,
    ElfClassMismatch,
    ElfInvalidByteOrder,
    ElfByteOrderMismatch,
    ElfMachineMismatch,
    ElfProgramHeaderTableInvalid,
    ElfProgramHeaderOffsetOverflow,
    ElfProgramHeaderTableTruncated,
    ElfNotSharedObject,
    ElfPieModule,
    ElfDynWithoutInterpreter,
    ElfNotExecutable,
    PeDosHeaderTruncated,
    NotPe,
    PeHeaderTruncated,
    PeSignatureMissing,
    UnsupportedWindowsArchitecture,
    PeMachineMismatch,
    PeNotDll,
    PeStandaloneIsDll,
    PeNotExecutableImage,
    MachOHeaderTruncated,
    NotMachO,
    UnsupportedMacosArchitecture,
    MachOArchitectureMismatch,
    MachONotDylibOrBundle,
    MachONotExecutable,
    FatInvalidSliceCount,
    FatTableTruncated,
    FatSliceHeaderTruncated,
    FatSliceInvalidHeader,
    FatMissingArchitecture,
}

/// Byte order of a multi-byte field.
#[derive(Copy, Clone, Debug, PartialEq, Eq, Structural)]
pub enum Endian {
    Little,
    Big,
}

/// The unsigned integer stored in `width` bytes of `b` starting at `at`.
pub open spec fn uint_at(b: Seq<u8>, at: int, width: nat, endian: Endian) -> nat
    decreases width,
{
    if width == 0 {
        0
    } else {
        match endian {
            Endian::Little => b[at] as nat + 256 * uint_at(b, at + 1, (width - 1) as nat, endian),
            Endian::Big => uint_at(b, at, (width - 1) as nat, endian) * 256 + b[at + width
                - 1] as nat,
        }
    }
}

/// Reads a `u16` at `at`, or `None` when fewer than two bytes remain.
pub fn read_u16(bytes: &[u8], at: usize, endian: Endian) -> (r: Option<u16>)
    ensures
        r is Some <==> at + 2 <= bytes@.len(),
        r matches Some(v) ==> v == uint_at(bytes@, at as int, 2, endian),
{
    if at > bytes.len() || bytes.len() - at < 2 {
        return None;
    }
    let b0 = bytes[at] as u16;
    let b1 = bytes[at + 1] as u16;
    proof {
        reveal_with_fuel(uint_at, 3);
    }
    match endian {
        Endian::Little => Some(b0 + 256 * b1),
        Endian::Big => Some(b0 * 256 + b1),
    }
}

/// Reads a `u32` at `at`, or `None` when fewer than four bytes remain.
pub fn read_u32(bytes: &[u8], at: usize, endian: Endian) -> (r: Option<u32>)
    ensures
        r is Some <==> at + 4 <= bytes@.len(),
        r matches Some(v) ==> v == uint_at(bytes@, at as int, 4, endian),
{
    if at > bytes.len() || bytes.len() - at < 4 {
        return None;
    }
    let b0 = bytes[at] as u32;
    let b1 = bytes[at + 1] as u32;
    let b2 = bytes[at + 2] as u32;
    let b3 = bytes[at + 3] as u32;
    proof {
        reveal_with_fuel(uint_at, 5);
    }
    match endian {
        Endian::Little => Some(b0 + 256 * (b1 + 256 * (b2 + 256 * b3))),
        Endian::Big => Some(((b0 * 256 + b1) * 256 + b2) * 256 + b3),
    }
}

/// Reads a `u64` at `at`, or `None` when fewer than eight bytes remain.
pub fn read_u64(bytes: &[u8], at: usize, endian: Endian) -> (r: Option<u64>)
    ensures
        r is Some <==> at + 8 <= bytes@.len(),
        r matches Some(v) ==> v == uint_at(bytes@, at as int, 8, endian),
{
    if at > bytes.len() || bytes.len() - at < 8 {
        return None;
    }
    let lo = read_u32(bytes, at, endian).unwrap() as u64;
    let hi = read_u32(bytes, at + 4, endian).unwrap() as u64;
    proof {
        lemma_uint_split(bytes@, at as int, endian);
    }
    match endian {
        Endian::Little => Some(lo + 0x1_0000_0000 * hi),
        Endian::Big => Some(lo * 0x1_0000_0000 + hi),
    }
}

/// Eight bytes are two four-byte halves.
proof fn lemma_uint_split(b: Seq<u8>, at: int, endian: Endian)
    ensures
        endian == Endian::Little ==> uint_at(b, at, 8, endian) == uint_at(b, at, 4, endian)
            + 0x1_0000_0000 * uint_at(b, at + 4, 4, endian),
        endian == Endian::Big ==> uint_at(b, at, 8, endian) == uint_at(b, at, 4, endian)
            * 0x1_0000_0000 + uint_at(b, at + 4, 4, endian),
{
    reveal_with_fuel(uint_at, 9);
}

/// Whether the four bytes at `at` are `x0 x1 x2 x3`.
pub open spec fn bytes4_at(b: Seq<u8>, at: int, x0: u8, x1: u8, x2: u8, x3: u8) -> bool {
    at + 4 <= b.len() && b[at] == x0 && b[at + 1] == x1 && b[at + 2] == x2 && b[at + 3] == x3
}

fn has_bytes4(bytes: &[u8], at: usize, x0: u8, x1: u8, x2: u8, x3: u8) -> (r: bool)
    ensures
        r == bytes4_at(bytes@, at as int, x0, x1, x2, x3),
{
    if at > bytes.len() || bytes.len() - at < 4 {
        return false;
    }
    bytes[at] == x0 && bytes[at + 1] == x1 && bytes[at + 2] == x2 && bytes[at + 3] == x3
}

// ---------------------------------------------------------------- ELF

/// ELF class, machine and data encoding expected for a Linux architecture.
pub open spec fn elf_arch(arch: Seq<char>) -> Option<(u8, u16, u8)> {
    if arch == "x86"@ {
        Some((1, 3, 1))
    } else if arch == "x86_64"@ {
        Some((2, 62, 1))
    } else if arch == "arm"@ {
        Some((1, 40, 1))
    } else if arch == "aarch64"@ {
        Some((2, 183, 1))
    } else if arch == "riscv64"@ {
        Some((2, 243, 1))
    } else {
        None
    }
}

fn elf_arch_of(architecture: &str) -> (r: Option<(u8, u16, u8)>)
    ensures
        r == elf_arch(architecture@),
{
    if str_eq(architecture, "x86") {
        Some((1, 3, 1))
    } else if str_eq(architecture, "x86_64") {
        Some((2, 62, 1))
    } else if str_eq(architecture, "arm") {
        Some((1, 40, 1))
    } else if str_eq(architecture, "aarch64") {
        Some((2, 183, 1))
    } else if str_eq(architecture, "riscv64") {
        Some((2, 243, 1))
    } else {
        None
    }
}

/// Scans program header entries `k..count`, accumulating whether one of them
/// is `PT_INTERP`.
pub open spec fn elf_ph_scan(
    b: Seq<u8>,
    offset: nat,
    entry_size: nat,
    count: nat,
    k: nat,
    found: bool,
) -> Result<bool, BinaryError>
    decreases count - k,
{
    if k >= count {
        Ok(found)
    } else if k * entry_size > u64::MAX || offset + k * entry_size > u64::MAX {
        Err(BinaryError::ElfProgramHeaderOffsetOverflow)
    } else if offset + k * entry_size + 4 > b.len() {
        Err(BinaryError::ElfProgramHeaderTableTruncated)
    } else {
        elf_ph_scan(
            b,
            offset,
            entry_size,
            count,
            k + 1,
            found || uint_at(b, (offset + k * entry_size) as int, 4, Endian::Little) == 3,
        )
    }
}

/// The verdict on an ELF file type, given whether it has a `PT_INTERP` segment.
pub open spec fn elf_kind_result(file_type: nat, interp: bool, kind: BinaryKind) -> Result<
    (),
    BinaryError,
> {
    match kind {
        BinaryKind::DynamicModule => if file_type != 3 {
            Err(BinaryError::ElfNotSharedObject)
        } else if interp {
            Err(BinaryError::ElfPieModule)
        } else {
            Ok(())
        },
        BinaryKind::Executable => if file_type == 2 {
            Ok(())
        } else if file_type == 3 && interp {
            Ok(())
        } else if file_type == 3 {
            Err(BinaryError::ElfDynWithoutInterpreter)
        } else {
            Err(BinaryError::ElfNotExecutable)
        },
    }
}

/// Program header table offset, entry size and count of a 32- or 64-bit header.
pub open spec fn elf_ph_fields(b: Seq<u8>, class: u8) -> (nat, nat, nat) {
    if class == 1 {
        (
            uint_at(b, 28, 4, Endian::Little),
            uint_at(b, 42, 2, Endian::Little),
            uint_at(b, 44, 2, Endian::Little),
        )
    } else {
        (
            uint_at(b, 32, 8, Endian::Little),
            uint_at(b, 54, 2, Endian::Little),
            uint_at(b, 56, 2, Endian::Little),
        )
    }
}

/// The verdict on an ELF image for a Linux architecture and binary kind.
pub open spec fn elf_spec(b: Seq<u8>, arch: Seq<char>, kind: BinaryKind) -> Result<(), BinaryError> {
    match elf_arch(arch) {
        None => Err(BinaryError::UnsupportedLinuxArchitecture),
        Some((expected_class, expected_machine, expected_encoding)) => {
            if b.len() < 16 {
                Err(BinaryError::ElfHeaderTruncated)
            } else if !bytes4_at(b, 0, 0x7f, 0x45, 0x4c, 0x46) {
                Err(BinaryError::NotElf)
            } else if b[4] != 1 && b[4] != 2 {
                Err(BinaryError::ElfInvalidClass)
            } else if b[4] != expected_class {
                Err(BinaryError::ElfClassMismatch)
            } else if b[5] != 1 && b[5] != 2 {
                Err(BinaryError::ElfInvalidByteOrder)
            } else if b[5] != expected_encoding {
                Err(BinaryError::ElfByteOrderMismatch)
            } else if b.len() < (if b[4] == 1 { 52nat } else { 64nat }) {
                Err(BinaryError::ElfHeaderTruncated)
            } else if uint_at(b, 18, 2, Endian::Little) != expected_machine {
                Err(BinaryError::ElfMachineMismatch)
            } else {
                let (offset, entry_size, count) = elf_ph_fields(b, b[4]);
                if count > 0 && (offset == 0 || entry_size < (if b[4] == 1 {
                    32nat
                } else {
                    56nat
                })) {
                    Err(BinaryError::ElfProgramHeaderTableInvalid)
                } else {
                    match elf_ph_scan(b, offset, entry_size, count, 0, false) {
                        Err(e) => Err(e),
                        Ok(interp) => elf_kind_result(
                            uint_at(b, 16, 2, Endian::Little),
                            interp,
                            kind,
                        ),
                    }
                }
            }
        },
    }
}

/// Checks an ELF image: class, byte order and machine for the architecture,
/// and a shared object (module) or an executable or PIE (standalone).
#[verifier::loop_isolation(false)]
pub fn validate_elf(bytes: &[u8], architecture: &str, kind: BinaryKind) -> (r: Result<
    (),
    BinaryError,
>)
    ensures
        r == elf_spec(bytes@, architecture@, kind),
{
    let (expected_class, expected_machine, expected_encoding) = match elf_arch_of(architecture) {
        None => return Err(BinaryError::UnsupportedLinuxArchitecture),
        Some(t) => t,
    };
    if bytes.len() < 16 {
        return Err(BinaryError::ElfHeaderTruncated);
    }
    if !has_bytes4(bytes, 0, 0x7f, 0x45, 0x4c, 0x46) {
        return Err(BinaryError::NotElf);
    }
    let class = bytes[4];
    if class != 1 && class != 2 {
        return Err(BinaryError::ElfInvalidClass);
    }
    if class != expected_class {
        return Err(BinaryError::ElfClassMismatch);
    }
    let encoding = bytes[5];
    if encoding != 1 && encoding != 2 {
        return Err(BinaryError::ElfInvalidByteOrder);
    }
    if encoding != expected_encoding {
        return Err(BinaryError::ElfByteOrderMismatch);
    }
    let header_len: usize = if class == 1 {
        52
    } else {
        64
    };
    if bytes.len() < header_len {
        return Err(BinaryError::ElfHeaderTruncated);
    }
    let file_type = read_u16(bytes, 16, Endian::Little).unwrap();
    let machine = read_u16(bytes, 18, Endian::Little).unwrap();
    if machine != expected_machine {
        return Err(BinaryError::ElfMachineMismatch);
    }
    let (offset, entry_size, count): (u64, u64, u64) = if class == 1 {
        (
            read_u32(bytes, 28, Endian::Little).unwrap() as u64,
            read_u16(bytes, 42, Endian::Little).unwrap() as u64,
            read_u16(bytes, 44, Endian::Little).unwrap() as u64,
        )
    } else {
        (
            read_u64(bytes, 32, Endian::Little).unwrap(),
            read_u16(bytes, 54, Endian::Little).unwrap() as u64,
            read_u16(bytes, 56, Endian::Little).unwrap() as u64,
        )
    };
    assert((offset as nat, entry_size as nat, count as nat) == elf_ph_fields(bytes@, class));
    let mut has_interpreter = false;
    if count > 0 {
        let minimum_entry_size: u64 = if class == 1 {
            32
        } else {
            56
        };
        if offset == 0 || entry_size < minimum_entry_size {
            return Err(BinaryError::ElfProgramHeaderTableInvalid);
        }
        let mut index: u64 = 0;
        while index < count
            invariant
                index <= count,
                elf_ph_scan(bytes@, offset as nat, entry_size as nat, count as nat, 0, false)
                    == elf_ph_scan(
                    bytes@,
                    offset as nat,
                    entry_size as nat,
                    count as nat,
                    index as nat,
                    has_interpreter,
                ),
            decreases count - index,
        {
            let entry_offset = match index.checked_mul(entry_size) {
                None => return Err(BinaryError::ElfProgramHeaderOffsetOverflow),
                Some(product) => match offset.checked_add(product) {
                    None => return Err(BinaryError::ElfProgramHeaderOffsetOverflow),
                    Some(sum) => sum,
                },
            };
            if entry_offset > bytes.len() as u64 || bytes.len() as u64 - entry_offset < 4 {
                return Err(BinaryError::ElfProgramHeaderTableTruncated);
            }
            let program_type = read_u32(bytes, entry_offset as usize, Endian::Little).unwrap();
            has_interpreter = has_interpreter || program_type == 3;
            index = index + 1;
        }
    }
    match kind {
        BinaryKind::DynamicModule => {
            if file_type != 3 {
                Err(BinaryError::ElfNotSharedObject)
            } else if has_interpreter {
                Err(BinaryError::ElfPieModule)
            } else {
                Ok(())
            }
        },
        BinaryKind::Executable => {
            if file_type == 2 {
                Ok(())
            } else if file_type == 3 && has_interpreter {
                Ok(())
            } else if file_type == 3 {
                Err(BinaryError::ElfDynWithoutInterpreter)
            } else {
                Err(BinaryError::ElfNotExecutable)
            }
        },
    }
}

// ---------------------------------------------------------------- PE/COFF

/// The COFF machine value for a Windows architecture.
pub open spec fn pe_machine(arch: Seq<char>) -> Option<u16> {
    if arch == "x86"@ {
        Some(0x014c)
    } else if arch == "x86_64"@ {
        Some(0x8664)
    } else if arch == "aarch64"@ {
        Some(0xaa64)
    } else {
        None
    }
}

fn pe_machine_of(architecture: &str) -> (r: Option<u16>)
    ensures
        r == pe_machine(architecture@),
{
    if str_eq(architecture, "x86") {
        Some(0x014c)
    } else if str_eq(architecture, "x86_64") {
        Some(0x8664)
    } else if str_eq(architecture, "aarch64") {
        Some(0xaa64)
    } else {
        None
    }
}

/// `IMAGE_FILE_DLL` is set in the COFF characteristics.
pub open spec fn pe_is_dll(characteristics: u16) -> bool {
    characteristics & 0x2000 != 0
}

/// `IMAGE_FILE_EXECUTABLE_IMAGE` is set in the COFF characteristics.
pub open spec fn pe_is_executable_image(characteristics: u16) -> bool {
    characteristics & 0x0002 != 0
}

/// The verdict on a PE/COFF image for a Windows architecture and binary kind.
pub open spec fn pe_spec(b: Seq<u8>, arch: Seq<char>, kind: BinaryKind) -> Result<(), BinaryError> {
    let pe = uint_at(b, 60, 4, Endian::Little);
    if b.len() < 64 {
        Err(BinaryError::PeDosHeaderTruncated)
    } else if !(b[0] == 0x4d && b[1] == 0x5a) {
        Err(BinaryError::NotPe)
    } else if pe + 24 > b.len() {
        Err(BinaryError::PeHeaderTruncated)
    } else if !bytes4_at(b, pe as int, 0x50, 0x45, 0, 0) {
        Err(BinaryError::PeSignatureMissing)
    } else {
        match pe_machine(arch) {
            None => Err(BinaryError::UnsupportedWindowsArchitecture),
            Some(machine) => {
                let characteristics = uint_at(b, (pe + 22) as int, 2, Endian::Little) as u16;
                if uint_at(b, (pe + 4) as int, 2, Endian::Little) != machine {
                    Err(BinaryError::PeMachineMismatch)
                } else {
                    match kind {
                        BinaryKind::DynamicModule => if !pe_is_dll(characteristics) {
                            Err(BinaryError::PeNotDll)
                        } else {
                            Ok(())
                        },
                        BinaryKind::Executable => if pe_is_dll(characteristics) {
                            Err(BinaryError::PeStandaloneIsDll)
                        } else if !pe_is_executable_image(characteristics) {
                            Err(BinaryError::PeNotExecutableImage)
                        } else {
                            Ok(())
                        },
                    }
                }
            },
        }
    }
}

/// Checks a PE/COFF image: the `MZ` and `PE` signatures, the machine for the
/// architecture, and the DLL flag (module) or executable-image flag (standalone).
pub fn validate_pe(bytes: &[u8], architecture: &str, kind: BinaryKind) -> (r: Result<
    (),
    BinaryError,
>)
    ensures
        r == pe_spec(bytes@, architecture@, kind),
{
    if bytes.len() < 64 {
        return Err(BinaryError::PeDosHeaderTruncated);
    }
    if !(bytes[0] == 0x4d && bytes[1] == 0x5a) {
        return Err(BinaryError::NotPe);
    }
    let pe_offset = read_u32(bytes, 60, Endian::Little).unwrap() as usize;
    if pe_offset > bytes.len() || bytes.len() - pe_offset < 24 {
        return Err(BinaryError::PeHeaderTruncated);
    }
    if !has_bytes4(bytes, pe_offset, 0x50, 0x45, 0, 0) {
        return Err(BinaryError::PeSignatureMissing);
    }
    let expected_machine = match pe_machine_of(architecture) {
        None => return Err(BinaryError::UnsupportedWindowsArchitecture),
        Some(m) => m,
    };
    let machine = read_u16(bytes, pe_offset + 4, Endian::Little).unwrap();
    if machine != expected_machine {
        return Err(BinaryError::PeMachineMismatch);
    }
    let characteristics = read_u16(bytes, pe_offset + 22, Endian::Little).unwrap();
    match kind {
        BinaryKind::DynamicModule => {
            if characteristics & 0x2000 == 0 {
                return Err(BinaryError::PeNotDll);
            }
        },
        BinaryKind::Executable => {
            if characteristics & 0x2000 != 0 {
                return Err(BinaryError::PeStandaloneIsDll);
            }
            if characteristics & 0x0002 == 0 {
                return Err(BinaryError::PeNotExecutableImage);
            }
        },
    }
    Ok(())
}

// ---------------------------------------------------------------- Mach-O

/// The Mach-O CPU type for a macOS architecture.
pub open spec fn macho_cpu(arch: Seq<char>) -> Option<u32> {
    if arch == "x86"@ {
        Some(7)
    } else if arch == "x86_64"@ {
        Some(0x0100_0007)
    } else if arch == "arm"@ {
        Some(12)
    } else if arch == "aarch64"@ {
        Some(0x0100_000c)
    } else {
        None
    }
}

/// The Mach-O CPU type for a macOS architecture.
pub fn macho_cpu_type(architecture: &str) -> (r: Result<u32, BinaryError>)
    ensures
        r is Ok <==> macho_cpu(architecture@) is Some,
        r matches Ok(v) ==> macho_cpu(architecture@) == Some(v),
        r matches Err(e) ==> e == BinaryError::UnsupportedMacosArchitecture,
{
    if str_eq(architecture, "x86") {
        Ok(7)
    } else if str_eq(architecture, "x86_64") {
        Ok(0x0100_0007)
    } else if str_eq(architecture, "arm") {
        Ok(12)
    } else if str_eq(architecture, "aarch64") {
        Ok(0x0100_000c)
    } else {
        Err(BinaryError::UnsupportedMacosArchitecture)
    }
}

/// The byte order of a thin Mach-O header at `at`, if its magic is one.
pub open spec fn thin_magic(b: Seq<u8>, at: int) -> Option<Endian> {
    if bytes4_at(b, at, 0xce, 0xfa, 0xed, 0xfe) || bytes4_at(b, at, 0xcf, 0xfa, 0xed, 0xfe) {
        Some(Endian::Little)
    } else if bytes4_at(b, at, 0xfe, 0xed, 0xfa, 0xce) || bytes4_at(b, at, 0xfe, 0xed, 0xfa, 0xcf) {
        Some(Endian::Big)
    } else {
        None
    }
}

fn thin_magic_at(bytes: &[u8], at: usize) -> (r: Option<Endian>)
    ensures
        r == thin_magic(bytes@, at as int),
{
    if has_bytes4(bytes, at, 0xce, 0xfa, 0xed, 0xfe) || has_bytes4(bytes, at, 0xcf, 0xfa, 0xed, 0xfe) {
        Some(Endian::Little)
    } else if has_bytes4(bytes, at, 0xfe, 0xed, 0xfa, 0xce) || has_bytes4(
        bytes,
        at,
        0xfe,
        0xed,
        0xfa,
        0xcf,
    ) {
        Some(Endian::Big)
    } else {
        None
    }
}

/// The verdict on the 16-byte thin Mach-O header at `at`.
pub open spec fn thin_spec(b: Seq<u8>, at: int, endian: Endian, arch: Seq<char>, kind: BinaryKind) -> Result<
    (),
    BinaryError,
> {
    match macho_cpu(arch) {
        None => Err(BinaryError::UnsupportedMacosArchitecture),
        Some(cpu) => {
            let file_type = uint_at(b, at + 12, 4, endian);
            if uint_at(b, at + 4, 4, endian) != cpu {
                Err(BinaryError::MachOArchitectureMismatch)
            } else {
                match kind {
                    BinaryKind::DynamicModule => if file_type == 6 || file_type == 8 {
                        Ok(())
                    } else {
                        Err(BinaryError::MachONotDylibOrBundle)
                    },
                    BinaryKind::Executable => if file_type == 2 {
                        Ok(())
                    } else {
                        Err(BinaryError::MachONotExecutable)
                    },
                }
            }
        },
    }
}

fn validate_thin_macho_header(
    bytes: &[u8],
    at: usize,
    endian: Endian,
    architecture: &str,
    kind: BinaryKind,
) -> (r: Result<(), BinaryError>)
    requires
        at + 16 <= bytes@.len(),
    ensures
        r == thin_spec(bytes@, at as int, endian, architecture@, kind),
{
    let total = bytes.len();
    assert(at + 16 <= total);
    let cpu = read_u32(bytes, at + 4, endian).unwrap();
    let expected = macho_cpu_type(architecture)?;
    if cpu != expected {
        return Err(BinaryError::MachOArchitectureMismatch);
    }
    let file_type = read_u32(bytes, at + 12, endian).unwrap();
    match kind {
        BinaryKind::DynamicModule => if file_type == 6 || file_type == 8 {
            Ok(())
        } else {
            Err(BinaryError::MachONotDylibOrBundle)
        },
        BinaryKind::Executable => if file_type == 2 {
            Ok(())
        } else {
            Err(BinaryError::MachONotExecutable)
        },
    }
}

/// Searches the universal architecture table from entry `k` for the slice
/// whose CPU type is `cpu`, and judges that slice's header.
pub open spec fn fat_scan(
    b: Seq<u8>,
    endian: Endian,
    is_64_bit: bool,
    cpu: u32,
    count: nat,
    k: nat,
    arch: Seq<char>,
    kind: BinaryKind,
) -> Result<(), BinaryError>
    decreases count - k,
{
    let entry_size: nat = if is_64_bit {
        32
    } else {
        20
    };
    let entry = 8 + k * entry_size;
    if k >= count {
        Err(BinaryError::FatMissingArchitecture)
    } else if entry + entry_size > b.len() {
        Err(BinaryError::FatTableTruncated)
    } else if uint_at(b, entry as int, 4, endian) != cpu {
        fat_scan(b, endian, is_64_bit, cpu, count, k + 1, arch, kind)
    } else {
        let slice = if is_64_bit {
            uint_at(b, (entry + 8) as int, 8, endian)
        } else {
            uint_at(b, (entry + 8) as int, 4, endian)
        };
        if slice + 16 > b.len() {
            Err(BinaryError::FatSliceHeaderTruncated)
        } else {
            match thin_magic(b, slice as int) {
                None => Err(BinaryError::FatSliceInvalidHeader),
                Some(e) => thin_spec(b, slice as int, e, arch, kind),
            }
        }
    }
}

/// The verdict on a universal (fat) Mach-O image.
pub open spec fn fat_spec(
    b: Seq<u8>,
    endian: Endian,
    is_64_bit: bool,
    arch: Seq<char>,
    kind: BinaryKind,
) -> Result<(), BinaryError> {
    let count = uint_at(b, 4, 4, endian);
    if count == 0 || count > 64 {
        Err(BinaryError::FatInvalidSliceCount)
    } else {
        match macho_cpu(arch) {
            None => Err(BinaryError::UnsupportedMacosArchitecture),
            Some(cpu) => fat_scan(b, endian, is_64_bit, cpu, count, 0, arch, kind),
        }
    }
}

#[verifier::loop_isolation(false)]
fn validate_fat_macho(
    bytes: &[u8],
    endian: Endian,
    is_64_bit: bool,
    architecture: &str,
    kind: BinaryKind,
) -> (r: Result<(), BinaryError>)
    requires
        bytes@.len() >= 16,
    ensures
        r == fat_spec(bytes@, endian, is_64_bit, architecture@, kind),
{
    let slice_count = read_u32(bytes, 4, endian).unwrap();
    if slice_count == 0 || slice_count > 64 {
        return Err(BinaryError::FatInvalidSliceCount);
    }
    let expected_cpu = macho_cpu_type(architecture)?;
    let entry_size: usize = if is_64_bit {
        32
    } else {
        20
    };
    let count = slice_count as usize;
    let mut index: usize = 0;
    while index < count
        invariant
            index <= count <= 64,
            fat_spec(bytes@, endian, is_64_bit, architecture@, kind) == fat_scan(
                bytes@,
                endian,
                is_64_bit,
                expected_cpu,
                count as nat,
                index as nat,
                architecture@,
                kind,
            ),
        decreases count - index,
    {
        let entry_offset = 8 + index * entry_size;
        if entry_offset > bytes.len() || bytes.len() - entry_offset < entry_size {
            return Err(BinaryError::FatTableTruncated);
        }
        let cpu = read_u32(bytes, entry_offset, endian).unwrap();
        if cpu != expected_cpu {
            index = index + 1;
            continue;
        }
        let slice_offset: u64 = if is_64_bit {
            read_u64(bytes, entry_offset + 8, endian).unwrap()
        } else {
            read_u32(bytes, entry_offset + 8, endian).unwrap() as u64
        };
        if slice_offset > bytes.len() as u64 || bytes.len() as u64 - slice_offset < 16 {
            return Err(BinaryError::FatSliceHeaderTruncated);
        }
        let at = slice_offset as usize;
        return match thin_magic_at(bytes, at) {
            None => Err(BinaryError::FatSliceInvalidHeader),
            Some(e) => validate_thin_macho_header(bytes, at, e, architecture, kind),
        };
    }
    Err(BinaryError::FatMissingArchitecture)
}

/// The verdict on a Mach-O image, thin or universal.
pub open spec fn macho_spec(b: Seq<u8>, arch: Seq<char>, kind: BinaryKind) -> Result<
    (),
    BinaryError,
> {
    if b.len() < 16 {
        Err(BinaryError::MachOHeaderTruncated)
    } else if thin_magic(b, 0) is Some {
        thin_spec(b, 0, thin_magic(b, 0)->0, arch, kind)
    } else if bytes4_at(b, 0, 0xca, 0xfe, 0xba, 0xbe) {
        fat_spec(b, Endian::Big, false, arch, kind)
    } else if bytes4_at(b, 0, 0xbe, 0xba, 0xfe, 0xca) {
        fat_spec(b, Endian::Little, false, arch, kind)
    } else if bytes4_at(b, 0, 0xca, 0xfe, 0xba, 0xbf) {
        fat_spec(b, Endian::Big, true, arch, kind)
    } else if bytes4_at(b, 0, 0xbf, 0xba, 0xfe, 0xca) {
        fat_spec(b, Endian::Little, true, arch, kind)
    } else {
        Err(BinaryError::NotMachO)
    }
}

/// Checks a Mach-O image, thin or universal: the CPU type for the
/// architecture and a dylib or bundle (module) or `MH_EXECUTE` (standalone).
pub fn validate_macho(bytes: &[u8], architecture: &str, kind: BinaryKind) -> (r: Result<
    (),
    BinaryError,
>)
    ensures
        r == macho_spec(bytes@, architecture@, kind),
{
    if bytes.len() < 16 {
        return Err(BinaryError::MachOHeaderTruncated);
    }
    match thin_magic_at(bytes, 0) {
        Some(endian) => validate_thin_macho_header(bytes, 0, endian, architecture, kind),
        None => {
            if has_bytes4(bytes, 0, 0xca, 0xfe, 0xba, 0xbe) {
                validate_fat_macho(bytes, Endian::Big, false, architecture, kind)
            } else if has_bytes4(bytes, 0, 0xbe, 0xba, 0xfe, 0xca) {
                validate_fat_macho(bytes, Endian::Little, false, architecture, kind)
            } else if has_bytes4(bytes, 0, 0xca, 0xfe, 0xba, 0xbf) {
                validate_fat_macho(bytes, Endian::Big, true, architecture, kind)
            } else if has_bytes4(bytes, 0, 0xbf, 0xba, 0xfe, 0xca) {
                validate_fat_macho(bytes, Endian::Little, true, architecture, kind)
            } else {
                Err(BinaryError::NotMachO)
            }
        },
    }
}

// ---------------------------------------------------------------- dispatch

/// The verdict on a binary's header for a target platform and architecture.
pub open spec fn binary_header_spec(
    platform: TargetPlatform,
    b: Seq<u8>,
    arch: Seq<char>,
    kind: BinaryKind,
) -> Result<(), BinaryError> {
    match platform {
        TargetPlatform::Macos => macho_spec(b, arch, kind),
        TargetPlatform::Windows => pe_spec(b, arch, kind),
        TargetPlatform::Linux => elf_spec(b, arch, kind),
    }
}

/// Checks a binary's header with the format of the target platform.
pub fn validate_binary_header(
    platform: TargetPlatform,
    bytes: &[u8],
    architecture: &str,
    kind: BinaryKind,
) -> (r: Result<(), BinaryError>)
    ensures
        r == binary_header_spec(platform, bytes@, architecture@, kind),
{
    match platform {
        TargetPlatform::Macos => validate_macho(bytes, architecture, kind),
        TargetPlatform::Windows => validate_pe(bytes, architecture, kind),
        TargetPlatform::Linux => validate_elf(bytes, architecture, kind),
    }
}

/// The size of one entry of a universal architecture table.
pub open spec fn fat_entry_size(is_64_bit: bool) -> nat {
    if is_64_bit {
        32
    } else {
        20
    }
}

/// The CPU type named by entry `j` of a universal architecture table.
pub open spec fn fat_entry_cpu(b: Seq<u8>, endian: Endian, is_64_bit: bool, j: nat) -> nat {
    uint_at(b, (8 + j * fat_entry_size(is_64_bit)) as int, 4, endian)
}

/// Where the slice of entry `j` of a universal architecture table starts.
pub open spec fn fat_entry_slice(b: Seq<u8>, endian: Endian, is_64_bit: bool, j: nat) -> nat {
    if is_64_bit {
        uint_at(b, (8 + j * 32 + 8) as int, 8, endian)
    } else {
        uint_at(b, (8 + j * 20 + 8) as int, 4, endian)
    }
}

proof fn lemma_fat_scan_skips_other_cpus(
    b: Seq<u8>,
    endian: Endian,
    is_64_bit: bool,
    cpu: u32,
    count: nat,
    j: nat,
    k: nat,
    arch: Seq<char>,
    kind: BinaryKind,
)
    requires
        j <= k < count,
        8 + (k + 1) * fat_entry_size(is_64_bit) <= b.len(),
        forall|i: nat| j <= i < k ==> #[trigger] fat_entry_cpu(b, endian, is_64_bit, i) != cpu,
    ensures
        fat_scan(b, endian, is_64_bit, cpu, count, j, arch, kind) == fat_scan(
            b,
            endian,
            is_64_bit,
            cpu,
            count,
            k,
            arch,
            kind,
        ),
    decreases k - j,
{
    if j < k {
        let es = fat_entry_size(is_64_bit);
        assert(8 + (j + 1) * es <= 8 + (k + 1) * es) by (nonlinear_arith)
            requires
                j < k,
        ;
        assert(fat_entry_cpu(b, endian, is_64_bit, j) != cpu);
        lemma_fat_scan_skips_other_cpus(b, endian, is_64_bit, cpu, count, j + 1, k, arch, kind);
    }
}

/// A universal binary is judged by the first slice whose CPU type is the
/// target's, wherever it stands in the architecture table: the entries
/// before it, whatever CPU types they name, are passed over, and the
/// verdict is that of the slice's own header.
pub proof fn universal_binary_judged_by_first_matching_slice(
    b: Seq<u8>,
    endian: Endian,
    is_64_bit: bool,
    arch: Seq<char>,
    kind: BinaryKind,
    k: nat,
)
    requires
        0 < uint_at(b, 4, 4, endian) <= 64,
        k < uint_at(b, 4, 4, endian),
        macho_cpu(arch) is Some,
        8 + (k + 1) * fat_entry_size(is_64_bit) <= b.len(),
        fat_entry_cpu(b, endian, is_64_bit, k) == macho_cpu(arch)->0,
        forall|i: nat| i < k ==> #[trigger] fat_entry_cpu(b, endian, is_64_bit, i) != macho_cpu(
            arch,
        )->0,
    ensures
        fat_spec(b, endian, is_64_bit, arch, kind) == ({
            let slice = fat_entry_slice(b, endian, is_64_bit, k);
            if slice + 16 > b.len() {
                Err(BinaryError::FatSliceHeaderTruncated)
            } else {
                match thin_magic(b, slice as int) {
                    None => Err(BinaryError::FatSliceInvalidHeader),
                    Some(e) => thin_spec(b, slice as int, e, arch, kind),
                }
            }
        }),
{
    let cpu = macho_cpu(arch)->0;
    let count = uint_at(b, 4, 4, endian);
    lemma_fat_scan_skips_other_cpus(b, endian, is_64_bit, cpu, count, 0, k, arch, kind);
    let es = fat_entry_size(is_64_bit);
    assert(uint_at(b, (8 + k * es) as int, 4, endian) == cpu);
    if is_64_bit {
        assert(8 + k * es + 8 == 8 + k * 32 + 8);
    } else {
        assert(8 + k * es + 8 == 8 + k * 20 + 8);
    }
    assert(fat_spec(b, endian, is_64_bit, arch, kind) == fat_scan(
        b,
        endian,
        is_64_bit,
        cpu,
        count,
        k,
        arch,
        kind,
    ));
    assert((k + 1) * es == k * es + es) by (nonlinear_arith);
}

proof fn lemma_fat_scan_exclusive(
    b: Seq<u8>,
    endian: Endian,
    is_64_bit: bool,
    cpu: u32,
    count: nat,
    k: nat,
    arch: Seq<char>,
)
    ensures
        !(fat_scan(b, endian, is_64_bit, cpu, count, k, arch, BinaryKind::DynamicModule) is Ok
            && fat_scan(b, endian, is_64_bit, cpu, count, k, arch, BinaryKind::Executable) is Ok),
    decreases count - k,
{
    if k < count {
        lemma_fat_scan_exclusive(b, endian, is_64_bit, cpu, count, k + 1, arch);
    }
}

/// No binary is accepted both as a plug-in module and as a standalone
/// executable: the two kinds are never interchangeable.
pub proof fn module_and_executable_are_exclusive(
    platform: TargetPlatform,
    b: Seq<u8>,
    arch: Seq<char>,
)
    ensures
        !(binary_header_spec(platform, b, arch, BinaryKind::DynamicModule) is Ok
            && binary_header_spec(platform, b, arch, BinaryKind::Executable) is Ok),
{
    match platform {
        TargetPlatform::Macos => {
            if b.len() >= 16 && thin_magic(b, 0) is None {
                let count = uint_at(b, 4, 4, Endian::Big);
                let count_le = uint_at(b, 4, 4, Endian::Little);
                if let Some(cpu) = macho_cpu(arch) {
                    lemma_fat_scan_exclusive(b, Endian::Big, false, cpu, count, 0, arch);
                    lemma_fat_scan_exclusive(b, Endian::Little, false, cpu, count_le, 0, arch);
                    lemma_fat_scan_exclusive(b, Endian::Big, true, cpu, count, 0, arch);
                    lemma_fat_scan_exclusive(b, Endian::Little, true, cpu, count_le, 0, arch);
                }
            }
        },
        TargetPlatform::Windows => {},
        TargetPlatform::Linux => {},
    }
}

// ---------------------------------------------------------------- sample modules

/// The file extension of a native module on a platform.
pub open spec fn native_module_extension(platform: TargetPlatform) -> Seq<char> {
    match platform {
        TargetPlatform::Macos => "dylib"@,
        TargetPlatform::Linux => "so"@,
        TargetPlatform::Windows => "dll"@,
    }
}

/// Byte `k` of `v`, least significant first, for `k` below four.
pub open spec fn le_byte(v: int, k: int) -> u8 {
    ((if k == 0 {
        v
    } else if k == 1 {
        v / 256
    } else if k == 2 {
        v / 65536
    } else {
        v / 16777216
    }) % 256) as u8
}

/// `n` zero bytes.
pub open spec fn zeros(n: nat) -> Seq<u8> {
    Seq::new(n, |i: int| 0u8)
}

/// A 64-bit little-endian `MH_DYLIB` header for a CPU type, padded to 32 bytes.
pub open spec fn macho_module_image(cpu: u32) -> Seq<u8> {
    seq![
        0xcfu8, 0xfa, 0xed, 0xfe,
        le_byte(cpu as int, 0), le_byte(cpu as int, 1), le_byte(cpu as int, 2), le_byte(cpu as int, 3),
        0, 0, 0, 0,
        6, 0, 0, 0,
    ] + zeros(16)
}

/// A little-endian `ET_DYN` ELF header of a class for a machine, with no
/// program headers.
pub open spec fn elf_module_image(class: u8, machine: u16) -> Seq<u8> {
    seq![0x7fu8, 0x45, 0x4c, 0x46, class, 1] + zeros(10) + seq![
        3u8,
        0,
        le_byte(machine as int, 0),
        le_byte(machine as int, 1),
    ] + zeros(if class == 1 { 32 } else { 44 })
}

/// A DOS stub pointing at a COFF header for a machine with the DLL flag set,
/// padded to 128 bytes.
pub open spec fn pe_module_image(machine: u16) -> Seq<u8> {
    seq![0x4du8, 0x5a] + zeros(58) + seq![
        64u8,
        0,
        0,
        0,
        0x50,
        0x45,
        0,
        0,
        le_byte(machine as int, 0),
        le_byte(machine as int, 1),
    ] + zeros(16) + seq![0u8, 0x20] + zeros(40)
}

/// The smallest module image for a platform and architecture, where one is
/// made: macOS on x86_64 and aarch64, Linux and Windows on each architecture
/// their header checks know.
pub open spec fn native_module_image(platform: TargetPlatform, arch: Seq<char>) -> Option<Seq<u8>> {
    match platform {
        TargetPlatform::Macos => if arch == "x86_64"@ || arch == "aarch64"@ {
            Some(macho_module_image(macho_cpu(arch)->0))
        } else {
            None
        },
        TargetPlatform::Linux => match elf_arch(arch) {
            Some((class, machine, _)) => Some(elf_module_image(class, machine)),
            None => None,
        },
        TargetPlatform::Windows => match pe_machine(arch) {
            Some(machine) => Some(pe_module_image(machine)),
            None => None,
        },
    }
}

fn put_le16(bytes: &mut Vec<u8>, at: usize, v: u16)
    requires
        at + 2 <= old(bytes)@.len(),
    ensures
        final(bytes)@ == old(bytes)@.update(at as int, le_byte(v as int, 0)).update(
            at + 1,
            le_byte(v as int, 1),
        ),
{
    let _n = bytes.len();
    bytes.set(at, (v % 256) as u8);
    bytes.set(at + 1, (v / 256) as u8);
}

fn put_le32(bytes: &mut Vec<u8>, at: usize, v: u32)
    requires
        at + 4 <= old(bytes)@.len(),
    ensures
        final(bytes)@ == old(bytes)@.update(at as int, le_byte(v as int, 0)).update(
            at + 1,
            le_byte(v as int, 1),
        ).update(at + 2, le_byte(v as int, 2)).update(at + 3, le_byte(v as int, 3)),
{
    let _n = bytes.len();
    bytes.set(at, (v % 256) as u8);
    bytes.set(at + 1, ((v / 256) % 256) as u8);
    bytes.set(at + 2, ((v / 65536) % 256) as u8);
    bytes.set(at + 3, (v / 16777216) as u8);
}

fn zeroed(n: usize) -> (v: Vec<u8>)
    ensures
        v@ == zeros(n as nat),
{
    let v = vec![0u8; n];
    assert(v@ =~= zeros(n as nat));
    v
}

/// The smallest module image for a platform and architecture, and where it
/// goes: `base` with the platform's module extension. `None` where no image
/// is made for the architecture.
pub fn native_module(platform: TargetPlatform, architecture: &str, base: &str) -> (r: Option<
    (String, Vec<u8>),
>)
    ensures
        r is Some <==> native_module_image(platform, architecture@) is Some,
        r matches Some((path, bytes)) ==> path@ == with_extension(
            base@,
            native_module_extension(platform),
        ) && native_module_image(platform, architecture@) == Some(bytes@),
{
    match platform {
        TargetPlatform::Macos => {
            if !(str_eq(architecture, "x86_64") || str_eq(architecture, "aarch64")) {
                return None;
            }
            let cpu = match macho_cpu_type(architecture) {
                Ok(c) => c,
                Err(_) => return None,
            };
            let mut bytes = zeroed(32);
            bytes.set(0, 0xcf);
            bytes.set(1, 0xfa);
            bytes.set(2, 0xed);
            bytes.set(3, 0xfe);
            put_le32(&mut bytes, 4, cpu);
            bytes.set(12, 6);
            assert(bytes@ =~= macho_module_image(cpu));
            Some((path_with_extension(base, "dylib"), bytes))
        },
        TargetPlatform::Linux => {
            let (class, machine) = match elf_arch_of(architecture) {
                Some((c, m, _)) => (c, m),
                None => return None,
            };
            let header_len: usize = if class == 1 {
                52
            } else {
                64
            };
            let mut bytes = zeroed(header_len);
            bytes.set(0, 0x7f);
            bytes.set(1, 0x45);
            bytes.set(2, 0x4c);
            bytes.set(3, 0x46);
            bytes.set(4, class);
            bytes.set(5, 1);
            put_le16(&mut bytes, 16, 3);
            put_le16(&mut bytes, 18, machine);
            assert(bytes@ =~= elf_module_image(class, machine));
            Some((path_with_extension(base, "so"), bytes))
        },
        TargetPlatform::Windows => {
            let machine = match pe_machine_of(architecture) {
                Some(m) => m,
                None => return None,
            };
            let mut bytes = zeroed(128);
            bytes.set(0, 0x4d);
            bytes.set(1, 0x5a);
            put_le32(&mut bytes, 60, 64);
            bytes.set(64, 0x50);
            bytes.set(65, 0x45);
            put_le16(&mut bytes, 68, machine);
            put_le16(&mut bytes, 86, 0x2000);
            assert(bytes@ =~= pe_module_image(machine));
            Some((path_with_extension(base, "dll"), bytes))
        },
    }
}

proof fn lemma_macho_module_passes(arch: Seq<char>)
    requires
        arch == "x86_64"@ || arch == "aarch64"@,
    ensures
        macho_spec(macho_module_image(macho_cpu(arch)->0), arch, BinaryKind::DynamicModule) == Ok::<
            (),
            BinaryError,
        >(()),
{
    let cpu = macho_cpu(arch)->0;
    let b = macho_module_image(cpu);
    reveal_with_fuel(uint_at, 5);
    assert(b.len() == 32);
    assert(thin_magic(b, 0) == Some(Endian::Little));
    assert(uint_at(b, 4, 4, Endian::Little) == cpu);
    assert(uint_at(b, 12, 4, Endian::Little) == 6);
}

proof fn lemma_elf_module_passes(arch: Seq<char>)
    requires
        elf_arch(arch) is Some,
    ensures
        elf_spec(
            elf_module_image((elf_arch(arch)->0).0, (elf_arch(arch)->0).1),
            arch,
            BinaryKind::DynamicModule,
        ) == Ok::<(), BinaryError>(()),
{
    let (class, machine, _) = elf_arch(arch)->0;
    let b = elf_module_image(class, machine);
    reveal_with_fuel(uint_at, 3);
    assert(b.len() == if class == 1 { 52int } else { 64int });
    assert(bytes4_at(b, 0, 0x7f, 0x45, 0x4c, 0x46));
    assert(b[4] == class && b[5] == 1);
    assert(uint_at(b, 16, 2, Endian::Little) == 3);
    assert(uint_at(b, 18, 2, Endian::Little) == machine);
    if class == 1 {
        assert(uint_at(b, 44, 2, Endian::Little) == 0);
    } else {
        assert(uint_at(b, 56, 2, Endian::Little) == 0);
    }
}

proof fn lemma_pe_module_passes(arch: Seq<char>)
    requires
        pe_machine(arch) is Some,
    ensures
        pe_spec(pe_module_image(pe_machine(arch)->0), arch, BinaryKind::DynamicModule) == Ok::<
            (),
            BinaryError,
        >(()),
{
    let machine = pe_machine(arch)->0;
    let b = pe_module_image(machine);
    reveal_with_fuel(uint_at, 5);
    assert(b.len() == 128);
    assert(b[0] == 0x4d && b[1] == 0x5a);
    assert(uint_at(b, 60, 4, Endian::Little) == 64);
    assert(bytes4_at(b, 64, 0x50, 0x45, 0, 0));
    assert(uint_at(b, 68, 2, Endian::Little) == machine);
    assert(uint_at(b, 86, 2, Endian::Little) == 0x2000);
    assert(0x2000u16 & 0x2000 != 0) by (bit_vector);
}

/// Every sample module image passes the module check of its platform and
/// architecture.
pub proof fn native_modules_pass_the_module_check(platform: TargetPlatform, arch: Seq<char>)
    requires
        native_module_image(platform, arch) is Some,
    ensures
        binary_header_spec(
            platform,
            native_module_image(platform, arch)->0,
            arch,
            BinaryKind::DynamicModule,
        ) == Ok::<(), BinaryError>(()),
{
    match platform {
        TargetPlatform::Macos => lemma_macho_module_passes(arch),
        TargetPlatform::Linux => lemma_elf_module_passes(arch),
        TargetPlatform::Windows => lemma_pe_module_passes(arch),
    }
}

} // verus!
