//! Format-native preset containers, written and read from the host side.
//!
//! A VST3 `.vstpreset` carries the plug-in's class ID and a chunk list: the
//! header `'VST3'`, an `int32` format version, 32 ASCII class characters and
//! the `int64` offset of the chunk list; then the chunk payloads; then
//! `'List'`, an `int32` entry count and one `{ id(4), int64 offset, int64
//! size }` per entry. Every integer is little-endian. CLAP defines no preset
//! container, so a CLAP preset is the plug-in's state stream verbatim.
use vstd::prelude::*;
use crate::binary::{read_u32, read_u64, uint_at, bytes4_at, Endian};
use crate::request::TargetPlatform;
use crate::text::{decimal, push_decimal, push_signed_decimal, signed_decimal};
use vstd::utf8::{decode_utf8, encode_utf8, valid_utf8};

verus! {

/// `kClassIDSize`: the class ID is stored as 32 ASCII hex characters.
pub const VST3_CLASS_ID_SIZE: usize = 32;

/// Header is ID(4) + version(4) + class string(32) + list offset(8).
pub const VST3_HEADER_SIZE: usize = 4 + 4 + VST3_CLASS_ID_SIZE + 8;

/// `kFormatVersion`.
pub const VST3_FORMAT_VERSION: i32 = 1;

/// Whether a VST3 host on `platform` reads a `TUID`'s first eight bytes as a
/// COM `GUID` struct: only Windows builds are `COM_COMPATIBLE`.
pub fn host_uses_com_uid_layout(platform: TargetPlatform) -> (r: bool)
    ensures
        r == (platform == TargetPlatform::Windows),
{
    match platform {
        TargetPlatform::Windows => true,
        _ => false,
    }
}

// ------------------------------------------------------------ class IDs

/// The byte that a `char` (`int8`) of a `TUID` holds.
pub open spec fn tuid_byte(x: i8) -> u8 {
    if x < 0 {
        (x + 256) as u8
    } else {
        x as u8
    }
}

/// The uppercase hexadecimal digit for a nibble.
pub open spec fn hex_digit(n: nat) -> char {
    if n < 10 {
        ((n + 0x30) as u32) as char
    } else {
        ((n - 10 + 0x41) as u32) as char
    }
}

/// Two uppercase hex digits per byte, in order.
pub open spec fn hex_of_bytes(b: Seq<u8>) -> Seq<char>
    decreases b.len(),
{
    if b.len() == 0 {
        Seq::empty()
    } else {
        seq![hex_digit(b[0] as nat / 16), hex_digit(b[0] as nat % 16)] + hex_of_bytes(
            b.drop_first(),
        )
    }
}

/// The sixteen bytes of a `TUID`.
pub open spec fn tuid_bytes(id: Seq<i8>) -> Seq<u8> {
    Seq::new(16, |i: int| tuid_byte(id[i]))
}

/// The bytes in the order `FUID::toString` prints them: with
/// `COM_COMPATIBLE` the first eight are read as a little-endian
/// `{ uint32; uint16; uint16 }` and printed most significant byte first.
pub open spec fn printed_order(b: Seq<u8>, com_compatible: bool) -> Seq<u8> {
    if com_compatible {
        seq![b[3], b[2], b[1], b[0], b[5], b[4], b[7], b[6]] + b.subrange(8, 16)
    } else {
        b
    }
}

/// What `FUID::toString` prints for a class ID.
pub open spec fn fuid_string(id: Seq<i8>, com_compatible: bool) -> Seq<char> {
    hex_of_bytes(printed_order(tuid_bytes(id), com_compatible))
}

fn hex_str(n: u8) -> (s: &'static str)
    requires
        n < 16,
    ensures
        s@ == seq![hex_digit(n as nat)],
{
    proof {
        reveal_strlit("0");
        reveal_strlit("1");
        reveal_strlit("2");
        reveal_strlit("3");
        reveal_strlit("4");
        reveal_strlit("5");
        reveal_strlit("6");
        reveal_strlit("7");
        reveal_strlit("8");
        reveal_strlit("9");
        reveal_strlit("A");
        reveal_strlit("B");
        reveal_strlit("C");
        reveal_strlit("D");
        reveal_strlit("E");
        reveal_strlit("F");
    }
    if n == 0 {
        "0"
    } else if n == 1 {
        "1"
    } else if n == 2 {
        "2"
    } else if n == 3 {
        "3"
    } else if n == 4 {
        "4"
    } else if n == 5 {
        "5"
    } else if n == 6 {
        "6"
    } else if n == 7 {
        "7"
    } else if n == 8 {
        "8"
    } else if n == 9 {
        "9"
    } else if n == 10 {
        "A"
    } else if n == 11 {
        "B"
    } else if n == 12 {
        "C"
    } else if n == 13 {
        "D"
    } else if n == 14 {
        "E"
    } else {
        "F"
    }
}

proof fn lemma_hex_of_bytes_push(b: Seq<u8>, x: u8)
    ensures
        hex_of_bytes(b.push(x)) == hex_of_bytes(b) + seq![
            hex_digit(x as nat / 16),
            hex_digit(x as nat % 16),
        ],
    decreases b.len(),
{
    if b.len() == 0 {
        assert(b.push(x).drop_first() =~= Seq::<u8>::empty());
        assert(hex_of_bytes(Seq::<u8>::empty()) == Seq::<char>::empty());
    } else {
        lemma_hex_of_bytes_push(b.drop_first(), x);
        assert(b.push(x).drop_first() =~= b.drop_first().push(x));
    }
}

/// Renders a class ID the way `FUID::toString` does: all sixteen bytes as
/// uppercase hex, except that with `com_compatible` the first eight are
/// printed as the fields of a little-endian COM `GUID`.
pub fn fuid_to_string(class_id: &[i8; 16], com_compatible: bool) -> (out: String)
    ensures
        out@ == fuid_string(class_id@, com_compatible),
{
    let mut bytes: Vec<u8> = Vec::new();
    let mut i: usize = 0;
    while i < 16
        invariant
            i <= 16,
            class_id@.len() == 16,
            bytes@ =~= tuid_bytes(class_id@).take(i as int),
        decreases 16 - i,
    {
        let x = class_id[i];
        let b: u8 = if x < 0 {
            (x as i16 + 256) as u8
        } else {
            x as u8
        };
        bytes.push(b);
        i = i + 1;
    }
    assert(bytes@ =~= tuid_bytes(class_id@));
    let order: [usize; 16] = if com_compatible {
        [3, 2, 1, 0, 5, 4, 7, 6, 8, 9, 10, 11, 12, 13, 14, 15]
    } else {
        [0, 1, 2, 3, 4, 5, 6, 7, 8, 9, 10, 11, 12, 13, 14, 15]
    };
    let ghost printed = printed_order(bytes@, com_compatible);
    assert forall|k: int| 0 <= k < 16 implies #[trigger] printed[k] == bytes@[order@[k] as int] by {
        if com_compatible {
            assert(printed[k] == (seq![bytes@[3], bytes@[2], bytes@[1], bytes@[0], bytes@[5], bytes@[4], bytes@[7], bytes@[6]] + bytes@.subrange(8, 16))[k]);
        }
    }
    let mut out = String::new();
    let mut k: usize = 0;
    assert(printed.take(0) =~= Seq::<u8>::empty());
    while k < 16
        invariant
            k <= 16,
            bytes@.len() == 16,
            printed.len() == 16,
            forall|j: int| 0 <= j < 16 ==> #[trigger] printed[j] == bytes@[order@[j] as int],
            forall|j: int| 0 <= j < 16 ==> order@[j] < 16,
            out@ == hex_of_bytes(printed.take(k as int)),
        decreases 16 - k,
    {
        let b = bytes[order[k]];
        let hi = hex_str(b / 16);
        let lo = hex_str(b % 16);
        out.append(hi);
        out.append(lo);
        proof {
            lemma_hex_of_bytes_push(printed.take(k as int), b);
            assert(printed.take(k + 1) =~= printed.take(k as int).push(b));
        }
        k = k + 1;
    }
    assert(printed.take(16) =~= printed);
    out
}

// ------------------------------------------------------------ writing

/// `v` as `w` little-endian bytes.
pub open spec fn le_bytes(v: nat, w: nat) -> Seq<u8>
    decreases w,
{
    if w == 0 {
        Seq::empty()
    } else {
        seq![(v % 256) as u8] + le_bytes(v / 256, (w - 1) as nat)
    }
}

/// The bytes of a preset holding one component-state chunk.
#[verifier::opaque]
pub open spec fn preset_file(class: Seq<u8>, state: Seq<u8>) -> Seq<u8> {
    seq![0x56u8, 0x53, 0x54, 0x33] + le_bytes(1, 4) + class + le_bytes(48 + state.len(), 8)
        + state + seq![0x4cu8, 0x69, 0x73, 0x74] + le_bytes(1, 4) + seq![0x43u8, 0x6f, 0x6d, 0x70]
        + le_bytes(48, 8) + le_bytes(state.len(), 8)
}

fn push_le(out: &mut Vec<u8>, v: u64, w: usize)
    requires
        w <= 8,
    ensures
        final(out)@ == old(out)@ + le_bytes(v as nat, w as nat),
{
    let mut value = v;
    let mut k: usize = 0;
    let ghost start = out@;
    while k < w
        invariant
            k <= w <= 8,
            start + le_bytes(v as nat, w as nat) == out@ + le_bytes(value as nat, (w - k) as nat),
        decreases w - k,
    {
        let ghost before = out@;
        out.push((value % 256) as u8);
        proof {
            assert(le_bytes(value as nat, (w - k) as nat) == seq![(value % 256) as u8] + le_bytes(
                (value / 256) as nat,
                (w - k - 1) as nat,
            ));
            assert(out@ + le_bytes((value / 256) as nat, (w - k - 1) as nat) =~= before
                + le_bytes(value as nat, (w - k) as nat));
        }
        value = value / 256;
        k = k + 1;
    }
    assert(out@ + le_bytes(value as nat, 0) =~= out@);
}

fn push_bytes(out: &mut Vec<u8>, src: &[u8])
    ensures
        final(out)@ == old(out)@ + src@,
{
    let mut i: usize = 0;
    let ghost start = out@;
    while i < src.len()
        invariant
            i <= src@.len(),
            out@ == start + src@.take(i as int),
        decreases src@.len() - i,
    {
        out.push(src[i]);
        assert(src@.take(i + 1) =~= src@.take(i as int).push(src@[i as int]));
        i = i + 1;
    }
    assert(src@.take(src@.len() as int) =~= src@);
}

/// Builds a `.vstpreset` with the class string supplied directly.
pub fn write_vst3_preset_with_class_string(class_string: &str, component_state: &[u8]) -> (out:
    Vec<u8>)
    requires
        encode_utf8(class_string@).len() == VST3_CLASS_ID_SIZE,
        component_state@.len() + 48 <= i64::MAX,
    ensures
        out@ == preset_file(encode_utf8(class_string@), component_state@),
{
    let state_len = component_state.len() as u64;
    let list_offset = 48 + state_len;
    let mut bytes: Vec<u8> = Vec::new();
    push_bytes(&mut bytes, &[0x56, 0x53, 0x54, 0x33]);
    push_le(&mut bytes, 1, 4);
    push_bytes(&mut bytes, class_string.as_bytes());
    push_le(&mut bytes, list_offset, 8);
    push_bytes(&mut bytes, component_state);
    push_bytes(&mut bytes, &[0x4c, 0x69, 0x73, 0x74]);
    push_le(&mut bytes, 1, 4);
    push_bytes(&mut bytes, &[0x43, 0x6f, 0x6d, 0x70]);
    push_le(&mut bytes, 48, 8);
    push_le(&mut bytes, state_len, 8);
    assert(bytes@ =~= preset_file(encode_utf8(class_string@), component_state@)) by {
        reveal(preset_file);
    }
    bytes
}

/// Builds a `.vstpreset` holding one component-state chunk, with the class
/// string printed for the given UID layout.
pub fn write_vst3_preset(class_id: &[i8; 16], component_state: &[u8], com_compatible: bool) -> (out:
    Vec<u8>)
    requires
        component_state@.len() + 48 <= i64::MAX,
    ensures
        out@ == preset_file(encode_utf8(fuid_string(class_id@, com_compatible)), component_state@),
{
    let class_string = fuid_to_string(class_id, com_compatible);
    proof {
        lemma_fuid_string_shape(class_id@, com_compatible);
    }
    write_vst3_preset_with_class_string(class_string.as_str(), component_state)
}

/// Hex digits are ASCII, so a printed class ID is 32 bytes of UTF-8.
pub proof fn lemma_fuid_string_shape(id: Seq<i8>, com_compatible: bool)
    requires
        id.len() == 16,
    ensures
        fuid_string(id, com_compatible).len() == 32,
        encode_utf8(fuid_string(id, com_compatible)).len() == 32,
        forall|i: int|
            0 <= i < 32 ==> is_upper_hex_char(#[trigger] fuid_string(id, com_compatible)[i]),
{
    let b = printed_order(tuid_bytes(id), com_compatible);
    assert(b.len() == 16);
    lemma_hex_of_bytes_shape(b);
    vstd::utf8::is_ascii_chars_encode_utf8(hex_of_bytes(b));
}

/// An uppercase hexadecimal digit.
pub open spec fn is_upper_hex_char(c: char) -> bool {
    ('0' <= c && c <= '9') || ('A' <= c && c <= 'F')
}

proof fn lemma_hex_of_bytes_shape(b: Seq<u8>)
    ensures
        hex_of_bytes(b).len() == 2 * b.len(),
        forall|i: int| 0 <= i < 2 * b.len() ==> is_upper_hex_char(#[trigger] hex_of_bytes(b)[i]),
        vstd::utf8::is_ascii_chars(hex_of_bytes(b)),
    decreases b.len(),
{
    if b.len() > 0 {
        lemma_hex_of_bytes_shape(b.drop_first());
        let h = hex_of_bytes(b);
        let t = hex_of_bytes(b.drop_first());
        assert forall|i: int| 0 <= i < 2 * b.len() implies is_upper_hex_char(#[trigger] h[i]) by {
            if i >= 2 {
                assert(h[i] == t[i - 2]);
            }
        }
    }
}

// ------------------------------------------------------------ reading

/// Which chunk a chunk error is about.
#[derive(Copy, Clone, Debug, PartialEq, Eq, Structural)]
pub enum ChunkKind {
    ComponentState,
    ControllerState,
}

/// Why a file is not a readable `.vstpreset`.
#[derive(Copy, Clone, Debug, PartialEq, Eq, Structural)]
pub enum PresetError {
    TooShort(u64),
    MissingHeaderId,
    Truncated(u8, u64),
    UnsupportedVersion(i32),
    ClassIdNotAscii,
    ClassIdNotHex,
    ListOffsetNotPositive(i64),
    MissingListId,
    NegativeEntryCount(i32),
    EntryTruncated(u64),
    NegativeChunk(ChunkKind),
    ChunkOverflow(ChunkKind),
    ChunkPastEnd(ChunkKind),
    NoComponentChunk,
}

/// A `.vstpreset` as read back from disk.
#[derive(Clone, Debug)]
pub struct Vst3Preset {
    /// The 32-character class string exactly as stored, not re-derived.
    pub class_string: String,
    pub component_state: Vec<u8>,
    /// `Cont`: presets from other vendors carry it, and a round trip through
    /// this host keeps it.
    pub controller_state: Option<Vec<u8>>,
}

/// The two's-complement value of a 32-bit pattern.
pub open spec fn signed32(u: nat) -> int {
    if u >= 0x8000_0000 {
        u - 0x1_0000_0000
    } else {
        u as int
    }
}

/// The two's-complement value of a 64-bit pattern.
pub open spec fn signed64(u: nat) -> int {
    if u >= 0x8000_0000_0000_0000 {
        u - 0x1_0000_0000_0000_0000
    } else {
        u as int
    }
}

pub open spec fn is_hex_byte(b: u8) -> bool {
    (0x30 <= b && b <= 0x39) || (0x41 <= b && b <= 0x46) || (0x61 <= b && b <= 0x66)
}

/// A chunk's payload, given the offset and size its list entry declares.
pub open spec fn chunk_spec(b: Seq<u8>, offset: int, size: int, kind: ChunkKind) -> Result<
    Seq<u8>,
    PresetError,
> {
    if offset < 0 || size < 0 {
        Err(PresetError::NegativeChunk(kind))
    } else if offset + size > u64::MAX {
        Err(PresetError::ChunkOverflow(kind))
    } else if offset + size > b.len() {
        Err(PresetError::ChunkPastEnd(kind))
    } else {
        Ok(b.subrange(offset, offset + size))
    }
}

/// Reads list entries `k..count`, keeping the last `Comp` and `Cont` payloads.
pub open spec fn entries_spec(
    b: Seq<u8>,
    list: nat,
    count: nat,
    k: nat,
    comp: Option<Seq<u8>>,
    cont: Option<Seq<u8>>,
) -> Result<(Option<Seq<u8>>, Option<Seq<u8>>), PresetError>
    decreases count - k,
{
    let at: int = (list + 8 + k * 20) as int;
    if k >= count {
        Ok((comp, cont))
    } else if at + 4 > b.len() {
        Err(PresetError::EntryTruncated(k as u64))
    } else if at + 12 > b.len() {
        Err(PresetError::Truncated(8, (at + 4) as u64))
    } else if at + 20 > b.len() {
        Err(PresetError::Truncated(8, (at + 12) as u64))
    } else {
        let offset = signed64(uint_at(b, at + 4, 8, Endian::Little));
        let size = signed64(uint_at(b, at + 12, 8, Endian::Little));
        if bytes4_at(b, at as int, 0x43, 0x6f, 0x6d, 0x70) {
            match chunk_spec(b, offset, size, ChunkKind::ComponentState) {
                Err(e) => Err(e),
                Ok(c) => entries_spec(b, list, count, k + 1, Some(c), cont),
            }
        } else if bytes4_at(b, at as int, 0x43, 0x6f, 0x6e, 0x74) {
            match chunk_spec(b, offset, size, ChunkKind::ControllerState) {
                Err(e) => Err(e),
                Ok(c) => entries_spec(b, list, count, k + 1, comp, Some(c)),
            }
        } else {
            entries_spec(b, list, count, k + 1, comp, cont)
        }
    }
}

/// What reading a `.vstpreset` gives: the stored class bytes, the component
/// state and the controller state if there is one.
pub open spec fn read_preset_spec(b: Seq<u8>) -> Result<
    (Seq<u8>, Seq<u8>, Option<Seq<u8>>),
    PresetError,
> {
    let version = signed32(uint_at(b, 4, 4, Endian::Little));
    let class = b.subrange(8, 40);
    let list = signed64(uint_at(b, 40, 8, Endian::Little));
    if b.len() < 48 {
        Err(PresetError::TooShort(b.len() as u64))
    } else if !bytes4_at(b, 0, 0x56, 0x53, 0x54, 0x33) {
        Err(PresetError::MissingHeaderId)
    } else if version != 1 {
        Err(PresetError::UnsupportedVersion(version as i32))
    } else if !valid_utf8(class) {
        Err(PresetError::ClassIdNotAscii)
    } else if !(forall|i: int| 0 <= i < 32 ==> is_hex_byte(#[trigger] class[i])) {
        Err(PresetError::ClassIdNotHex)
    } else if list <= 0 {
        Err(PresetError::ListOffsetNotPositive(list as i64))
    } else if !bytes4_at(b, list, 0x4c, 0x69, 0x73, 0x74) {
        Err(PresetError::MissingListId)
    } else if list + 8 > b.len() {
        Err(PresetError::Truncated(4, (list + 4) as u64))
    } else if signed32(uint_at(b, list + 4, 4, Endian::Little)) < 0 {
        Err(PresetError::NegativeEntryCount(signed32(uint_at(b, list + 4, 4, Endian::Little)) as i32))
    } else {
        match entries_spec(
            b,
            list as nat,
            uint_at(b, list + 4, 4, Endian::Little),
            0,
            None,
            None,
        ) {
            Err(e) => Err(e),
            Ok((None, _)) => Err(PresetError::NoComponentChunk),
            Ok((Some(comp), cont)) => Ok((class, comp, cont)),
        }
    }
}

fn read_u32_at(b: &[u8], at: u64) -> (r: Option<u32>)
    ensures
        r is Some <==> at + 4 <= b@.len(),
        r matches Some(v) ==> v == uint_at(b@, at as int, 4, Endian::Little),
{
    if at > b.len() as u64 || (b.len() as u64) - at < 4 {
        return None;
    }
    read_u32(b, at as usize, Endian::Little)
}

fn read_u64_at(b: &[u8], at: u64) -> (r: Option<u64>)
    ensures
        r is Some <==> at + 8 <= b@.len(),
        r matches Some(v) ==> v == uint_at(b@, at as int, 8, Endian::Little),
{
    if at > b.len() as u64 || (b.len() as u64) - at < 8 {
        return None;
    }
    read_u64(b, at as usize, Endian::Little)
}

fn to_i32(u: u32) -> (v: i32)
    ensures
        v == signed32(u as nat),
{
    if u >= 0x8000_0000 {
        (u as i64 - 0x1_0000_0000) as i32
    } else {
        u as i32
    }
}

fn to_i64(u: u64) -> (v: i64)
    ensures
        v == signed64(u as nat),
{
    if u >= 0x8000_0000_0000_0000 {
        (u as i128 - 0x1_0000_0000_0000_0000) as i64
    } else {
        u as i64
    }
}

/// A little-endian `i32` at a byte offset, if the bytes are there.
fn read_i32_le(b: &[u8], at: u64) -> (r: Option<i32>)
    ensures
        r is Some <==> at + 4 <= b@.len(),
        r matches Some(v) ==> v == signed32(uint_at(b@, at as int, 4, Endian::Little)),
{
    match read_u32_at(b, at) {
        None => None,
        Some(u) => Some(to_i32(u)),
    }
}

/// A little-endian `i64` at a byte offset, if the bytes are there.
fn read_i64_le(b: &[u8], at: u64) -> (r: Option<i64>)
    ensures
        r is Some <==> at + 8 <= b@.len(),
        r matches Some(v) ==> v == signed64(uint_at(b@, at as int, 8, Endian::Little)),
{
    match read_u64_at(b, at) {
        None => None,
        Some(u) => Some(to_i64(u)),
    }
}

fn bytes4_eq(b: &[u8], at: u64, x0: u8, x1: u8, x2: u8, x3: u8) -> (r: bool)
    ensures
        r == bytes4_at(b@, at as int, x0, x1, x2, x3),
{
    if at > b.len() as u64 || (b.len() as u64) - at < 4 {
        return false;
    }
    let i = at as usize;
    b[i] == x0 && b[i + 1] == x1 && b[i + 2] == x2 && b[i + 3] == x3
}

/// `std::str::from_utf8`, trusted to succeed exactly on valid UTF-8 and then
/// to give the text whose UTF-8 encoding is the bytes themselves.
#[verifier::external_body]
fn utf8_str(bytes: &[u8]) -> (r: Option<&str>)
    ensures
        r is Some <==> valid_utf8(bytes@),
        r matches Some(s) ==> encode_utf8(s@) == bytes@,
{
    std::str::from_utf8(bytes).ok()
}

fn chunk_slice(b: &[u8], offset: i64, size: i64, kind: ChunkKind) -> (r: Result<Vec<u8>, PresetError>)
    ensures
        match r {
            Ok(v) => chunk_spec(b@, offset as int, size as int, kind) == Ok::<Seq<u8>, PresetError>(v@),
            Err(e) => chunk_spec(b@, offset as int, size as int, kind) == Err::<Seq<u8>, PresetError>(e),
        },
{
    if offset < 0 || size < 0 {
        return Err(PresetError::NegativeChunk(kind));
    }
    let start = offset as u64;
    let end = match start.checked_add(size as u64) {
        None => return Err(PresetError::ChunkOverflow(kind)),
        Some(e) => e,
    };
    if end > b.len() as u64 {
        return Err(PresetError::ChunkPastEnd(kind));
    }
    let piece = vstd::slice::slice_subrange(b, start as usize, end as usize);
    Ok(vstd::slice::slice_to_vec(piece))
}

/// The typed form of `read_vst3_preset`.
#[verifier::loop_isolation(false)]
pub fn parse_vst3_preset(bytes: &[u8]) -> (r: Result<Vst3Preset, PresetError>)
    ensures
        match r {
            Ok(p) => read_preset_spec(bytes@) matches Ok((class, comp, cont)) && encode_utf8(
                p.class_string@,
            ) == class && p.component_state@ == comp && match p.controller_state {
                None => cont is None,
                Some(c) => cont == Some(c@),
            },
            Err(e) => read_preset_spec(bytes@) == Err::<(Seq<u8>, Seq<u8>, Option<Seq<u8>>), PresetError>(e),
        },
{
    let len = bytes.len() as u64;
    if bytes.len() < VST3_HEADER_SIZE {
        return Err(PresetError::TooShort(len));
    }
    if !bytes4_eq(bytes, 0, 0x56, 0x53, 0x54, 0x33) {
        return Err(PresetError::MissingHeaderId);
    }
    let version = read_i32_le(bytes, 4).unwrap();
    if version != VST3_FORMAT_VERSION {
        return Err(PresetError::UnsupportedVersion(version));
    }
    let class_bytes = vstd::slice::slice_subrange(bytes, 8, 40);
    let class_str = match utf8_str(class_bytes) {
        None => return Err(PresetError::ClassIdNotAscii),
        Some(s) => s,
    };
    let mut i: usize = 0;
    while i < 32
        invariant
            class_bytes@ == bytes@.subrange(8, 40),
            i <= 32,
            forall|j: int| 0 <= j < i ==> is_hex_byte(#[trigger] class_bytes@[j]),
        decreases 32 - i,
    {
        let c = class_bytes[i];
        if !((0x30 <= c && c <= 0x39) || (0x41 <= c && c <= 0x46) || (0x61 <= c && c <= 0x66)) {
            assert(!is_hex_byte(class_bytes@[i as int]));
            return Err(PresetError::ClassIdNotHex);
        }
        i = i + 1;
    }
    let list_offset = read_i64_le(bytes, 40).unwrap();
    if list_offset <= 0 {
        return Err(PresetError::ListOffsetNotPositive(list_offset));
    }
    let list = list_offset as u64;
    if !bytes4_eq(bytes, list, 0x4c, 0x69, 0x73, 0x74) {
        return Err(PresetError::MissingListId);
    }
    let count_raw = match read_u32_at(bytes, list + 4) {
        None => return Err(PresetError::Truncated(4, list + 4)),
        Some(v) => v,
    };
    let entry_count = to_i32(count_raw);
    if entry_count < 0 {
        return Err(PresetError::NegativeEntryCount(entry_count));
    }
    let count = count_raw as u64;
    let mut component_state: Option<Vec<u8>> = None;
    let mut controller_state: Option<Vec<u8>> = None;
    let mut entry: u64 = 0;
    while entry < count
        invariant
            entry <= count,
            count < 0x8000_0000,
            list < 0x8000_0000_0000_0000,
            entries_spec(bytes@, list as nat, count as nat, 0, None, None) == entries_spec(
                bytes@,
                list as nat,
                count as nat,
                entry as nat,
                match component_state {
                    None => None,
                    Some(v) => Some(v@),
                },
                match controller_state {
                    None => None,
                    Some(v) => Some(v@),
                },
            ),
        decreases count - entry,
    {
        let at = list + 8 + entry * 20;
        if !(at <= len && len - at >= 4) {
            return Err(PresetError::EntryTruncated(entry));
        }
        let offset = match read_i64_le(bytes, at + 4) {
            None => return Err(PresetError::Truncated(8, at + 4)),
            Some(v) => v,
        };
        let size = match read_i64_le(bytes, at + 12) {
            None => return Err(PresetError::Truncated(8, at + 12)),
            Some(v) => v,
        };
        if bytes4_eq(bytes, at, 0x43, 0x6f, 0x6d, 0x70) {
            let c = chunk_slice(bytes, offset, size, ChunkKind::ComponentState)?;
            component_state = Some(c);
        } else if bytes4_eq(bytes, at, 0x43, 0x6f, 0x6e, 0x74) {
            let c = chunk_slice(bytes, offset, size, ChunkKind::ControllerState)?;
            controller_state = Some(c);
        }
        entry = entry + 1;
    }
    match component_state {
        None => Err(PresetError::NoComponentChunk),
        Some(comp) => {
            let class_string = class_str.to_owned();
            Ok(Vst3Preset { class_string, component_state: comp, controller_state })
        },
    }
}

/// The name a chunk has in error messages.
pub open spec fn chunk_name(kind: ChunkKind) -> Seq<char> {
    match kind {
        ChunkKind::ComponentState => "component state"@,
        ChunkKind::ControllerState => "controller state"@,
    }
}

/// The message text of a preset error.
pub open spec fn preset_message(e: PresetError) -> Seq<char> {
    match e {
        PresetError::TooShort(n) => "not a VST3 preset: "@ + decimal(n as nat)
            + " bytes is shorter than the 48-byte header"@,
        PresetError::MissingHeaderId => "not a VST3 preset: missing the 'VST3' header ID"@,
        PresetError::Truncated(w, at) => "preset truncated: wanted "@ + decimal(w as nat)
            + " bytes at offset "@ + decimal(at as nat),
        PresetError::UnsupportedVersion(v) => "unsupported VST3 preset format version "@
            + signed_decimal(v as int) + ", expected 1"@,
        PresetError::ClassIdNotAscii => "VST3 preset class ID is not ASCII"@,
        PresetError::ClassIdNotHex => "VST3 preset class ID is not 32 hexadecimal characters"@,
        PresetError::ListOffsetNotPositive(v) => "VST3 preset chunk list offset "@
            + signed_decimal(v as int) + " is not positive"@,
        PresetError::MissingListId => "VST3 preset chunk list is missing its 'List' ID"@,
        PresetError::NegativeEntryCount(n) => "VST3 preset declares "@ + signed_decimal(n as int)
            + " chunk entries"@,
        PresetError::EntryTruncated(k) => "VST3 preset chunk entry "@ + decimal(k as nat)
            + " is truncated"@,
        PresetError::NegativeChunk(kind) => chunk_name(kind)
            + " chunk has a negative offset or size"@,
        PresetError::ChunkOverflow(kind) => chunk_name(kind) + " chunk offset and size overflow"@,
        PresetError::ChunkPastEnd(kind) => chunk_name(kind)
            + " chunk runs past the end of the file"@,
        PresetError::NoComponentChunk => "VST3 preset has no 'Comp' component-state chunk"@,
    }
}

fn chunk_name_str(kind: ChunkKind) -> (s: &'static str)
    ensures
        s@ == chunk_name(kind),
{
    match kind {
        ChunkKind::ComponentState => "component state",
        ChunkKind::ControllerState => "controller state",
    }
}

/// The message text of a preset error.
pub fn preset_error_message(e: PresetError) -> (m: String)
    ensures
        m@ == preset_message(e),
{
    let mut m = String::new();
    match e {
        PresetError::TooShort(n) => {
            m.append("not a VST3 preset: ");
            push_decimal(&mut m, n);
            m.append(" bytes is shorter than the 48-byte header");
        },
        PresetError::MissingHeaderId => {
            m.append("not a VST3 preset: missing the 'VST3' header ID");
        },
        PresetError::Truncated(w, at) => {
            m.append("preset truncated: wanted ");
            push_decimal(&mut m, w as u64);
            m.append(" bytes at offset ");
            push_decimal(&mut m, at);
        },
        PresetError::UnsupportedVersion(v) => {
            m.append("unsupported VST3 preset format version ");
            push_signed_decimal(&mut m, v as i64);
            m.append(", expected 1");
        },
        PresetError::ClassIdNotAscii => {
            m.append("VST3 preset class ID is not ASCII");
        },
        PresetError::ClassIdNotHex => {
            m.append("VST3 preset class ID is not 32 hexadecimal characters");
        },
        PresetError::ListOffsetNotPositive(v) => {
            m.append("VST3 preset chunk list offset ");
            push_signed_decimal(&mut m, v);
            m.append(" is not positive");
        },
        PresetError::MissingListId => {
            m.append("VST3 preset chunk list is missing its 'List' ID");
        },
        PresetError::NegativeEntryCount(n) => {
            m.append("VST3 preset declares ");
            push_signed_decimal(&mut m, n as i64);
            m.append(" chunk entries");
        },
        PresetError::EntryTruncated(k) => {
            m.append("VST3 preset chunk entry ");
            push_decimal(&mut m, k);
            m.append(" is truncated");
        },
        PresetError::NegativeChunk(kind) => {
            m.append(chunk_name_str(kind));
            m.append(" chunk has a negative offset or size");
        },
        PresetError::ChunkOverflow(kind) => {
            m.append(chunk_name_str(kind));
            m.append(" chunk offset and size overflow");
        },
        PresetError::ChunkPastEnd(kind) => {
            m.append(chunk_name_str(kind));
            m.append(" chunk runs past the end of the file");
        },
        PresetError::NoComponentChunk => {
            m.append("VST3 preset has no 'Comp' component-state chunk");
        },
    }
    m
}

/// Parses a `.vstpreset`; a file that is truncated, from another format or
/// malformed is refused with a message that says why.
pub fn read_vst3_preset(bytes: &[u8]) -> (r: Result<Vst3Preset, String>)
    ensures
        match r {
            Ok(p) => read_preset_spec(bytes@) matches Ok((class, comp, cont)) && encode_utf8(
                p.class_string@,
            ) == class && p.component_state@ == comp && match p.controller_state {
                None => cont is None,
                Some(c) => cont == Some(c@),
            },
            Err(m) => read_preset_spec(bytes@) is Err && m@ == preset_message(
                read_preset_spec(bytes@)->Err_0,
            ),
        },
{
    match parse_vst3_preset(bytes) {
        Ok(p) => Ok(p),
        Err(e) => Err(preset_error_message(e)),
    }
}

/// Bytes to write for a CLAP preset: the `clap.state` stream verbatim.
pub fn clap_preset_bytes(state: &[u8]) -> (out: &[u8])
    ensures
        out@ == state@,
{
    state
}

/// Whether a file is refused as a CLAP preset: it is empty, or it begins with
/// the VST3 preset header ID.
pub open spec fn clap_preset_refused(b: Seq<u8>) -> bool {
    b.len() == 0 || bytes4_at(b, 0, 0x56, 0x53, 0x54, 0x33)
}

/// Checks a file before it is handed to `clap.state`'s `load`.
pub fn read_clap_preset(bytes: &[u8]) -> (r: Result<&[u8], String>)
    ensures
        r is Err <==> clap_preset_refused(bytes@),
        r matches Ok(out) ==> out@ == bytes@,
        r matches Err(m) ==> m@ == (if bytes@.len() == 0 {
            "CLAP preset file is empty"@
        } else {
            "this is a VST3 preset, not CLAP state: it begins with the 'VST3' header ID"@
        }),
{
    if bytes.len() == 0 {
        return Err(String::from_str("CLAP preset file is empty"));
    }
    if bytes4_eq(bytes, 0, 0x56, 0x53, 0x54, 0x33) {
        return Err(
            String::from_str(
                "this is a VST3 preset, not CLAP state: it begins with the 'VST3' header ID",
            ),
        );
    }
    Ok(bytes)
}

// ------------------------------------------------------------ laws

/// `256` to the power `w`.
pub open spec fn pow256(w: nat) -> nat
    decreases w,
{
    if w == 0 {
        1
    } else {
        256 * pow256((w - 1) as nat)
    }
}

/// A field's value depends only on the bytes of the field.
proof fn lemma_uint_at_local(b1: Seq<u8>, at1: int, b2: Seq<u8>, at2: int, w: nat, endian: Endian)
    requires
        0 <= at1,
        at1 + w <= b1.len(),
        0 <= at2,
        at2 + w <= b2.len(),
        b1.subrange(at1, at1 + w) == b2.subrange(at2, at2 + w),
    ensures
        uint_at(b1, at1, w, endian) == uint_at(b2, at2, w, endian),
    decreases w,
{
    if w > 0 {
        let s1 = b1.subrange(at1, at1 + w);
        let s2 = b2.subrange(at2, at2 + w);
        match endian {
            Endian::Little => {
                assert(s1[0] == b1[at1]);
                assert(s2[0] == b2[at2]);
                assert(b1.subrange(at1 + 1, at1 + w) =~= s1.subrange(1, w as int));
                assert(b2.subrange(at2 + 1, at2 + w) =~= s2.subrange(1, w as int));
                lemma_uint_at_local(b1, at1 + 1, b2, at2 + 1, (w - 1) as nat, endian);
            },
            Endian::Big => {
                assert(s1[w - 1] == b1[at1 + w - 1]);
                assert(s2[w - 1] == b2[at2 + w - 1]);
                assert(b1.subrange(at1, at1 + w - 1) =~= s1.subrange(0, w - 1));
                assert(b2.subrange(at2, at2 + w - 1) =~= s2.subrange(0, w - 1));
                lemma_uint_at_local(b1, at1, b2, at2, (w - 1) as nat, endian);
            },
        }
    }
}

/// Little-endian bytes read back as the value they encode.
proof fn lemma_le_bytes_value(v: nat, w: nat)
    requires
        v < pow256(w),
    ensures
        le_bytes(v, w).len() == w,
        uint_at(le_bytes(v, w), 0, w, Endian::Little) == v,
    decreases w,
{
    if w == 0 {
    } else {
        let l = le_bytes(v, w);
        let rest = le_bytes(v / 256, (w - 1) as nat);
        assert(v / 256 < pow256((w - 1) as nat)) by (nonlinear_arith)
            requires
                v < 256 * pow256((w - 1) as nat),
        ;
        lemma_le_bytes_value(v / 256, (w - 1) as nat);
        assert(l == seq![(v % 256) as u8] + rest);
        assert(l.subrange(1, w as int) =~= rest.subrange(0, (w - 1) as int));
        lemma_uint_at_local(l, 1, rest, 0, (w - 1) as nat, Endian::Little);
        assert(v % 256 + 256 * (v / 256) == v) by (nonlinear_arith);
    }
}

/// Reading the `w` bytes at `at` of `f`, where `le_bytes(v, w)` was written.
proof fn lemma_read_written(f: Seq<u8>, at: int, v: nat, w: nat)
    requires
        v < pow256(w),
        0 <= at,
        at + w <= f.len(),
        f.subrange(at, at + w) == le_bytes(v, w),
    ensures
        uint_at(f, at, w, Endian::Little) == v,
{
    lemma_le_bytes_value(v, w);
    let l = le_bytes(v, w);
    assert(l.subrange(0, w as int) =~= l);
    lemma_uint_at_local(f, at, l, 0, w, Endian::Little);
}

proof fn lemma_pow256_values()
    ensures
        pow256(4) == 0x1_0000_0000,
        pow256(8) == 0x1_0000_0000_0000_0000,
{
    reveal_with_fuel(pow256, 9);
}

/// The pieces of a written preset and where they start.
proof fn lemma_preset_layout(class: Seq<u8>, state: Seq<u8>)
    requires
        class.len() == 32,
        state.len() + 48 <= i64::MAX,
    ensures
        ({
            let f = preset_file(class, state);
            let n = state.len() as int;
            &&& f.len() == 76 + n
            &&& f.subrange(0, 4) == seq![0x56u8, 0x53, 0x54, 0x33]
            &&& f.subrange(4, 8) == le_bytes(1, 4)
            &&& f.subrange(8, 40) == class
            &&& f.subrange(40, 48) == le_bytes((48 + n) as nat, 8)
            &&& f.subrange(48, 48 + n) == state
            &&& f.subrange(48 + n, 52 + n) == seq![0x4cu8, 0x69, 0x73, 0x74]
            &&& f.subrange(52 + n, 56 + n) == le_bytes(1, 4)
            &&& f.subrange(56 + n, 60 + n) == seq![0x43u8, 0x6f, 0x6d, 0x70]
            &&& f.subrange(60 + n, 68 + n) == le_bytes(48, 8)
            &&& f.subrange(68 + n, 76 + n) == le_bytes(n as nat, 8)
        }),
{
    let n = state.len() as int;
    let a = seq![0x56u8, 0x53, 0x54, 0x33];
    let v = le_bytes(1, 4);
    let o = le_bytes((48 + n) as nat, 8);
    let l = seq![0x4cu8, 0x69, 0x73, 0x74];
    let c = seq![0x43u8, 0x6f, 0x6d, 0x70];
    let e1 = le_bytes(48, 8);
    let e2 = le_bytes(n as nat, 8);
    lemma_pow256_values();
    lemma_le_bytes_value(1, 4);
    lemma_le_bytes_value((48 + n) as nat, 8);
    lemma_le_bytes_value(48, 8);
    lemma_le_bytes_value(n as nat, 8);
    let f = preset_file(class, state);
    assert(f == a + v + class + o + state + l + v + c + e1 + e2) by {
        reveal(preset_file);
    }
    assert(f.subrange(0, 4) =~= a);
    assert(f.subrange(4, 8) =~= v);
    assert(f.subrange(8, 40) =~= class);
    assert(f.subrange(40, 48) =~= o);
    assert(f.subrange(48, 48 + n) =~= state);
    assert(f.subrange(48 + n, 52 + n) =~= l);
    assert(f.subrange(52 + n, 56 + n) =~= v);
    assert(f.subrange(56 + n, 60 + n) =~= c);
    assert(f.subrange(60 + n, 68 + n) =~= e1);
    assert(f.subrange(68 + n, 76 + n) =~= e2);
}

/// Reading a preset this host wrote gives back the class string and the
/// component state it was written with, and no controller state.
pub proof fn preset_round_trip(class_string: Seq<char>, state: Seq<u8>)
    requires
        encode_utf8(class_string).len() == VST3_CLASS_ID_SIZE,
        forall|i: int| 0 <= i < 32 ==> is_hex_byte(#[trigger] encode_utf8(class_string)[i]),
        state.len() + 48 <= i64::MAX,
    ensures
        read_preset_spec(preset_file(encode_utf8(class_string), state)) == Ok::<
            (Seq<u8>, Seq<u8>, Option<Seq<u8>>),
            PresetError,
        >((encode_utf8(class_string), state, None)),
{
    let class = encode_utf8(class_string);
    let f = preset_file(class, state);
    let n = state.len() as int;
    lemma_preset_layout(class, state);
    lemma_pow256_values();
    vstd::utf8::encode_utf8_valid_utf8(class_string);
    assert(f[0] == 0x56 && f[1] == 0x53 && f[2] == 0x54 && f[3] == 0x33) by {
        assert(f.subrange(0, 4)[0] == f[0]);
        assert(f.subrange(0, 4)[1] == f[1]);
        assert(f.subrange(0, 4)[2] == f[2]);
        assert(f.subrange(0, 4)[3] == f[3]);
    }
    lemma_read_written(f, 4, 1, 4);
    lemma_read_written(f, 40, (48 + n) as nat, 8);
    lemma_read_written(f, 52 + n, 1, 4);
    lemma_read_written(f, 60 + n, 48, 8);
    lemma_read_written(f, 68 + n, n as nat, 8);
    assert(bytes4_at(f, 48 + n, 0x4c, 0x69, 0x73, 0x74)) by {
        let s = f.subrange(48 + n, 52 + n);
        assert(s[0] == f[48 + n]);
        assert(s[1] == f[48 + n + 1]);
        assert(s[2] == f[48 + n + 2]);
        assert(s[3] == f[48 + n + 3]);
    }
    let at = 56 + n;
    assert(bytes4_at(f, at, 0x43, 0x6f, 0x6d, 0x70)) by {
        let s = f.subrange(at, at + 4);
        assert(s[0] == f[at]);
        assert(s[1] == f[at + 1]);
        assert(s[2] == f[at + 2]);
        assert(s[3] == f[at + 3]);
    }
    assert(chunk_spec(f, 48, n, ChunkKind::ComponentState) == Ok::<Seq<u8>, PresetError>(state));
    assert(entries_spec(f, (48 + n) as nat, 1, 1, Some(state), None) == Ok::<
        (Option<Seq<u8>>, Option<Seq<u8>>),
        PresetError,
    >((Some(state), None)));
    assert(entries_spec(f, (48 + n) as nat, 1, 0, None, None) == Ok::<
        (Option<Seq<u8>>, Option<Seq<u8>>),
        PresetError,
    >((Some(state), None)));
}

/// A list entry whose ID is neither `Comp` nor `Cont` is passed over: when
/// it lies within the file, reading the entries from it on gives what
/// reading them from the next one on gives, whatever it declares.
pub proof fn unknown_chunk_entries_are_skipped(
    b: Seq<u8>,
    list: nat,
    count: nat,
    k: nat,
    comp: Option<Seq<u8>>,
    cont: Option<Seq<u8>>,
)
    requires
        k < count,
        list + 8 + k * 20 + 20 <= b.len(),
        !bytes4_at(b, (list + 8 + k * 20) as int, 0x43, 0x6f, 0x6d, 0x70),
        !bytes4_at(b, (list + 8 + k * 20) as int, 0x43, 0x6f, 0x6e, 0x74),
    ensures
        entries_spec(b, list, count, k, comp, cont) == entries_spec(
            b,
            list,
            count,
            k + 1,
            comp,
            cont,
        ),
{
}

/// A preset as hosts save it: the component state, then one more chunk
/// with its own four-byte ID (such as the `Info` meta-information), and a
/// chunk list naming `Comp` first and the other chunk second.
#[verifier::opaque]
pub open spec fn preset_file_with_extra_chunk(
    class: Seq<u8>,
    state: Seq<u8>,
    id: Seq<u8>,
    extra: Seq<u8>,
) -> Seq<u8> {
    let n = state.len();
    let m = extra.len();
    seq![0x56u8, 0x53, 0x54, 0x33] + le_bytes(1, 4) + class + le_bytes(48 + n + m, 8) + state
        + extra + seq![0x4cu8, 0x69, 0x73, 0x74] + le_bytes(2, 4) + seq![0x43u8, 0x6f, 0x6d, 0x70]
        + le_bytes(48, 8) + le_bytes(n, 8) + id + le_bytes(48 + n, 8) + le_bytes(m, 8)
}

proof fn lemma_extra_chunk_layout(class: Seq<u8>, state: Seq<u8>, id: Seq<u8>, extra: Seq<u8>)
    requires
        class.len() == 32,
        id.len() == 4,
        state.len() + extra.len() + 48 <= i64::MAX,
    ensures
        ({
            let f = preset_file_with_extra_chunk(class, state, id, extra);
            let n = state.len() as int;
            let l = 48 + n + extra.len();
            &&& f.len() == l + 48
            &&& f.subrange(0, 4) == seq![0x56u8, 0x53, 0x54, 0x33]
            &&& f.subrange(4, 8) == le_bytes(1, 4)
            &&& f.subrange(8, 40) == class
            &&& f.subrange(40, 48) == le_bytes(l as nat, 8)
            &&& f.subrange(48, 48 + n) == state
            &&& f.subrange(l, l + 4) == seq![0x4cu8, 0x69, 0x73, 0x74]
            &&& f.subrange(l + 4, l + 8) == le_bytes(2, 4)
            &&& f.subrange(l + 8, l + 12) == seq![0x43u8, 0x6f, 0x6d, 0x70]
            &&& f.subrange(l + 12, l + 20) == le_bytes(48, 8)
            &&& f.subrange(l + 20, l + 28) == le_bytes(n as nat, 8)
            &&& f.subrange(l + 28, l + 32) == id
        }),
{
    let n = state.len() as int;
    let m = extra.len() as int;
    let l = 48 + n + m;
    let a = seq![0x56u8, 0x53, 0x54, 0x33];
    let v1 = le_bytes(1, 4);
    let o = le_bytes(l as nat, 8);
    let li = seq![0x4cu8, 0x69, 0x73, 0x74];
    let v2 = le_bytes(2, 4);
    let c = seq![0x43u8, 0x6f, 0x6d, 0x70];
    let e1 = le_bytes(48, 8);
    let e2 = le_bytes(n as nat, 8);
    let e3 = le_bytes((48 + n) as nat, 8);
    let e4 = le_bytes(m as nat, 8);
    lemma_pow256_values();
    lemma_le_bytes_value(1, 4);
    lemma_le_bytes_value(2, 4);
    lemma_le_bytes_value(l as nat, 8);
    lemma_le_bytes_value(48, 8);
    lemma_le_bytes_value(n as nat, 8);
    lemma_le_bytes_value((48 + n) as nat, 8);
    lemma_le_bytes_value(m as nat, 8);
    let f = preset_file_with_extra_chunk(class, state, id, extra);
    assert(f == a + v1 + class + o + state + extra + li + v2 + c + e1 + e2 + id + e3 + e4) by {
        reveal(preset_file_with_extra_chunk);
    }
    assert(f.subrange(0, 4) =~= a);
    assert(f.subrange(4, 8) =~= v1);
    assert(f.subrange(8, 40) =~= class);
    assert(f.subrange(40, 48) =~= o);
    assert(f.subrange(48, 48 + n) =~= state);
    assert(f.subrange(l, l + 4) =~= li);
    assert(f.subrange(l + 4, l + 8) =~= v2);
    assert(f.subrange(l + 8, l + 12) =~= c);
    assert(f.subrange(l + 12, l + 20) =~= e1);
    assert(f.subrange(l + 20, l + 28) =~= e2);
    assert(f.subrange(l + 28, l + 32) =~= id);
}

/// A preset that carries, besides its component state, a chunk of another
/// kind (one whose ID is neither `Comp` nor `Cont`, such as `Info`) reads
/// as the class string and component state, with no controller state: the
/// other chunk is passed over, whatever it holds.
pub proof fn presets_with_other_chunks_read_their_component_state(
    class_string: Seq<char>,
    state: Seq<u8>,
    id: Seq<u8>,
    extra: Seq<u8>,
)
    requires
        encode_utf8(class_string).len() == VST3_CLASS_ID_SIZE,
        forall|i: int| 0 <= i < 32 ==> is_hex_byte(#[trigger] encode_utf8(class_string)[i]),
        id.len() == 4,
        id != seq![0x43u8, 0x6f, 0x6d, 0x70],
        id != seq![0x43u8, 0x6f, 0x6e, 0x74],
        state.len() + extra.len() + 48 <= i64::MAX,
    ensures
        read_preset_spec(preset_file_with_extra_chunk(encode_utf8(class_string), state, id, extra))
            == Ok::<(Seq<u8>, Seq<u8>, Option<Seq<u8>>), PresetError>(
            (encode_utf8(class_string), state, None),
        ),
{
    let class = encode_utf8(class_string);
    let f = preset_file_with_extra_chunk(class, state, id, extra);
    let n = state.len() as int;
    let l = 48 + n + extra.len();
    lemma_extra_chunk_layout(class, state, id, extra);
    lemma_pow256_values();
    vstd::utf8::encode_utf8_valid_utf8(class_string);
    assert(f[0] == 0x56 && f[1] == 0x53 && f[2] == 0x54 && f[3] == 0x33) by {
        assert(f.subrange(0, 4)[0] == f[0]);
        assert(f.subrange(0, 4)[1] == f[1]);
        assert(f.subrange(0, 4)[2] == f[2]);
        assert(f.subrange(0, 4)[3] == f[3]);
    }
    lemma_read_written(f, 4, 1, 4);
    lemma_read_written(f, 40, l as nat, 8);
    lemma_read_written(f, l + 4, 2, 4);
    lemma_read_written(f, l + 12, 48, 8);
    lemma_read_written(f, l + 20, n as nat, 8);
    assert(bytes4_at(f, l, 0x4c, 0x69, 0x73, 0x74)) by {
        let s = f.subrange(l, l + 4);
        assert(s[0] == f[l]);
        assert(s[1] == f[l + 1]);
        assert(s[2] == f[l + 2]);
        assert(s[3] == f[l + 3]);
    }
    let at = l + 8;
    assert(bytes4_at(f, at, 0x43, 0x6f, 0x6d, 0x70)) by {
        let s = f.subrange(at, at + 4);
        assert(s[0] == f[at]);
        assert(s[1] == f[at + 1]);
        assert(s[2] == f[at + 2]);
        assert(s[3] == f[at + 3]);
    }
    let at2 = l + 28;
    assert(!bytes4_at(f, at2, 0x43, 0x6f, 0x6d, 0x70) && !bytes4_at(f, at2, 0x43, 0x6f, 0x6e, 0x74))
        by {
        let s = f.subrange(at2, at2 + 4);
        assert(s[0] == f[at2]);
        assert(s[1] == f[at2 + 1]);
        assert(s[2] == f[at2 + 2]);
        assert(s[3] == f[at2 + 3]);
        if bytes4_at(f, at2, 0x43, 0x6f, 0x6d, 0x70) {
            assert(id =~= seq![0x43u8, 0x6f, 0x6d, 0x70]);
        }
        if bytes4_at(f, at2, 0x43, 0x6f, 0x6e, 0x74) {
            assert(id =~= seq![0x43u8, 0x6f, 0x6e, 0x74]);
        }
    }
    assert(chunk_spec(f, 48, n, ChunkKind::ComponentState) == Ok::<Seq<u8>, PresetError>(state));
    unknown_chunk_entries_are_skipped(f, l as nat, 2, 1, Some(state), None);
    assert(entries_spec(f, l as nat, 2, 2, Some(state), None) == Ok::<
        (Option<Seq<u8>>, Option<Seq<u8>>),
        PresetError,
    >((Some(state), None)));
    assert(entries_spec(f, l as nat, 2, 0, None, None) == Ok::<
        (Option<Seq<u8>>, Option<Seq<u8>>),
        PresetError,
    >((Some(state), None)));
}

/// No strict prefix of a preset this host wrote is accepted: a truncated
/// file is refused rather than read past its end.
pub proof fn truncated_preset_is_refused(class_string: Seq<char>, state: Seq<u8>, cut: int)
    requires
        encode_utf8(class_string).len() == VST3_CLASS_ID_SIZE,
        forall|i: int| 0 <= i < 32 ==> is_hex_byte(#[trigger] encode_utf8(class_string)[i]),
        state.len() + 48 <= i64::MAX,
        0 <= cut < preset_file(encode_utf8(class_string), state).len(),
    ensures
        read_preset_spec(preset_file(encode_utf8(class_string), state).take(cut)) is Err,
{
    let class = encode_utf8(class_string);
    let f = preset_file(class, state);
    let g = f.take(cut);
    let n = state.len() as int;
    if cut >= 48 {
        lemma_preset_layout(class, state);
        lemma_pow256_values();
        vstd::utf8::encode_utf8_valid_utf8(class_string);
        assert(g.subrange(0, 48) =~= f.subrange(0, 48));
        assert(g[0] == 0x56 && g[1] == 0x53 && g[2] == 0x54 && g[3] == 0x33) by {
            assert(f.subrange(0, 4)[0] == f[0]);
            assert(f.subrange(0, 4)[1] == f[1]);
            assert(f.subrange(0, 4)[2] == f[2]);
            assert(f.subrange(0, 4)[3] == f[3]);
        }
        lemma_read_written(f, 4, 1, 4);
        assert(g.subrange(4, 8) =~= f.subrange(4, 8));
        lemma_uint_at_local(g, 4, f, 4, 4, Endian::Little);
        lemma_read_written(f, 40, (48 + n) as nat, 8);
        assert(g.subrange(40, 48) =~= f.subrange(40, 48));
        lemma_uint_at_local(g, 40, f, 40, 8, Endian::Little);
        assert(g.subrange(8, 40) =~= class);
        if cut >= 56 + n {
            lemma_read_written(f, 52 + n, 1, 4);
            assert(g.subrange(52 + n, 56 + n) =~= f.subrange(52 + n, 56 + n));
            lemma_uint_at_local(g, 52 + n, f, 52 + n, 4, Endian::Little);
            assert(bytes4_at(g, 48 + n, 0x4c, 0x69, 0x73, 0x74)) by {
                let s = f.subrange(48 + n, 52 + n);
                assert(s[0] == f[48 + n]);
                assert(s[1] == f[48 + n + 1]);
                assert(s[2] == f[48 + n + 2]);
                assert(s[3] == f[48 + n + 3]);
            }
            assert(entries_spec(g, (48 + n) as nat, 1, 0, None, None) is Err);
        }
    }
}

/// A VST3 preset handed to the CLAP preset loader is refused.
pub proof fn vst3_preset_is_not_clap_state(class: Seq<u8>, state: Seq<u8>)
    requires
        class.len() == VST3_CLASS_ID_SIZE,
        state.len() + 48 <= i64::MAX,
    ensures
        clap_preset_refused(preset_file(class, state)),
{
    lemma_preset_layout(class, state);
    let f = preset_file(class, state);
    assert(f.subrange(0, 4)[0] == f[0]);
    assert(f.subrange(0, 4)[1] == f[1]);
    assert(f.subrange(0, 4)[2] == f[2]);
    assert(f.subrange(0, 4)[3] == f[3]);
}

/// A printed class ID is 32 uppercase hex digits, and the two UID layouts
/// print the same last sixteen digits: only the first eight bytes move.
pub proof fn fuid_layouts_share_the_tail(id: Seq<i8>)
    requires
        id.len() == 16,
    ensures
        fuid_string(id, false).len() == 32,
        fuid_string(id, true).len() == 32,
        fuid_string(id, false).subrange(16, 32) == fuid_string(id, true).subrange(16, 32),
{
    lemma_fuid_string_shape(id, false);
    lemma_fuid_string_shape(id, true);
    let b = tuid_bytes(id);
    let native = b;
    let com = printed_order(b, true);
    assert(native.subrange(8, 16) =~= com.subrange(8, 16));
    lemma_hex_of_bytes_split(native, 8);
    lemma_hex_of_bytes_split(com, 8);
}

proof fn lemma_hex_of_bytes_split(b: Seq<u8>, k: int)
    requires
        0 <= k <= b.len(),
    ensures
        hex_of_bytes(b) == hex_of_bytes(b.take(k)) + hex_of_bytes(b.skip(k)),
        hex_of_bytes(b).subrange(2 * k, 2 * b.len() as int) == hex_of_bytes(b.skip(k)),
    decreases k,
{
    lemma_hex_of_bytes_shape(b.take(k));
    lemma_hex_of_bytes_shape(b.skip(k));
    if k > 0 {
        lemma_hex_of_bytes_split(b.drop_first(), k - 1);
        assert(b.drop_first().take(k - 1) =~= b.take(k).drop_first());
        assert(b.drop_first().skip(k - 1) =~= b.skip(k));
        assert(hex_of_bytes(b.take(k)) == seq![hex_digit(b[0] as nat / 16), hex_digit(b[0] as nat % 16)] + hex_of_bytes(b.take(k).drop_first()));
    } else {
        assert(b.take(0) =~= Seq::<u8>::empty());
        assert(b.skip(0) =~= b);
    }
    assert(hex_of_bytes(b).subrange(2 * k, 2 * b.len() as int) =~= hex_of_bytes(b.skip(k)));
}

/// The COM layout of a class ID prints what the native layout prints for the
/// same ID with its first three GUID fields stored byte-reversed.
pub proof fn fuid_layouts_agree_on_swapped_fields(id: Seq<i8>)
    requires
        id.len() == 16,
    ensures
        fuid_string(id, true) == fuid_string(guid_field_swap(id), false),
{
    assert(tuid_bytes(guid_field_swap(id)) =~= printed_order(tuid_bytes(id), true));
}

/// `id` with bytes 0..4, 4..6 and 6..8 each reversed.
pub open spec fn guid_field_swap(id: Seq<i8>) -> Seq<i8> {
    seq![id[3], id[2], id[1], id[0], id[5], id[4], id[7], id[6]] + id.subrange(8, 16)
}

} // verus!
