//! A packaging request, its target, and the checks on its text fields.
use vstd::prelude::*;
use crate::au::{digit_or_dot, lemma_decimal_len, lemma_split_joined, lemma_split_without_sep, ten_pow};
use crate::binary::{BinaryError, BinaryKind};
use crate::text::{
    all_digits, char_is_control, char_is_whitespace, char_len, digit_value, digits_value,
    is_ascii_alphanumeric, is_ascii_alphabetic, is_ascii_alphanumeric_char, is_ascii_graphic,
    decimal, is_control_char, is_digit_char, lemma_decimal_digits, lemma_decimal_has_no_dot,
    lemma_trim_identity, split_char, split_on, string_views, trim,
};

verus! {

/// The artifact kinds the packager produces.
#[derive(Copy, Clone, Debug, PartialEq, Eq, Structural)]
pub enum PackageFormat {
    Au,
    Vst3,
    Clap,
    Standalone,
}

/// The operating systems the packager lays artifacts out for.
#[derive(Copy, Clone, Debug, PartialEq, Eq, Structural)]
pub enum TargetPlatform {
    Macos,
    Windows,
    Linux,
}

/// A platform and a Rust architecture name such as `x86_64`.
#[derive(Clone, Debug)]
pub struct Target {
    pub platform: TargetPlatform,
    pub architecture: String,
}

impl Target {
    pub fn new(platform: TargetPlatform, architecture: &str) -> (t: Target)
        ensures
            t.platform == platform,
            t.architecture@ == architecture@,
    {
        Target { platform, architecture: architecture.to_owned() }
    }
}

/// AudioComponent registration data for an AU bundle.
#[derive(Clone, Debug)]
pub struct AuMetadata {
    pub component_type: String,
    pub component_subtype: String,
    pub manufacturer: String,
    pub factory: String,
    pub sandbox_safe: bool,
}

/// What to package, from which binary, to where. Paths have `/` between
/// their components.
#[derive(Clone, Debug)]
pub struct PackageRequest {
    pub format: PackageFormat,
    pub binary: String,
    pub out: String,
    pub name: String,
    pub bundle_id: String,
    pub version: String,
    pub codesign: bool,
    pub au: Option<AuMetadata>,
}

/// AU metadata over char views.
pub struct AuMetadataView {
    pub component_type: Seq<char>,
    pub component_subtype: Seq<char>,
    pub manufacturer: Seq<char>,
    pub factory: Seq<char>,
    pub sandbox_safe: bool,
}

impl View for AuMetadata {
    type V = AuMetadataView;

    open spec fn view(&self) -> AuMetadataView {
        AuMetadataView {
            component_type: self.component_type@,
            component_subtype: self.component_subtype@,
            manufacturer: self.manufacturer@,
            factory: self.factory@,
            sandbox_safe: self.sandbox_safe,
        }
    }
}

pub open spec fn au_metadata_view(au: Option<AuMetadata>) -> Option<AuMetadataView> {
    match au {
        Some(a) => Some(a@),
        None => None,
    }
}

/// A packaging request over char views.
pub struct RequestView {
    pub format: PackageFormat,
    pub binary: Seq<char>,
    pub out: Seq<char>,
    pub name: Seq<char>,
    pub bundle_id: Seq<char>,
    pub version: Seq<char>,
    pub codesign: bool,
    pub au: Option<AuMetadataView>,
}

impl View for PackageRequest {
    type V = RequestView;

    open spec fn view(&self) -> RequestView {
        RequestView {
            format: self.format,
            binary: self.binary@,
            out: self.out@,
            name: self.name@,
            bundle_id: self.bundle_id@,
            version: self.version@,
            codesign: self.codesign,
            au: au_metadata_view(self.au),
        }
    }
}

/// The request field that a text check is about.
#[derive(Copy, Clone, Debug, PartialEq, Eq, Structural)]
pub enum TextField {
    PluginName,
    BundleIdentifier,
    Version,
    AuFactoryFunction,
    AuComponentType,
    AuComponentSubtype,
    AuManufacturer,
}

/// The extension a binary was required to have.
#[derive(Copy, Clone, Debug, PartialEq, Eq, Structural)]
pub enum ModuleExtension {
    Dylib,
    Dll,
    So,
    Exe,
}

/// Why a request was refused.
#[derive(Clone, Debug)]
pub enum PackageError {
    TextEmptyOrPadded(TextField),
    TextTooLong(TextField, usize),
    TextHasControlCharacters(TextField),
    BundleIdTooFewComponents,
    BundleIdInvalidComponent,
    VersionComponentCount,
    VersionNotNumeric,
    VersionComponentTooLarge(String),
    AuVersionOutOfRange,
    FourccInvalid(TextField),
    FactoryNotIdentifier,
    AuRequiresMacos,
    AuMetadataMissing,
    CodesignRequiresMacosTarget,
    CodesignRequiresMacosHost,
    BinaryMissing,
    BinaryNotRegularFile,
    BinaryExtensionMissing,
    BinaryWrongExtension(ModuleExtension),
    BinaryUnreadable,
    InvalidBinary(BinaryKind, BinaryError),
    OutputUnnamed,
    OutputStemInvalid,
    OutputParentNotDirectory,
    OutputParentUninspectable,
    OutputIsSymlink,
    OutputBundleNotDirectory,
    OutputFileNotRegular,
    OutputUninspectable,
    BinaryNotCanonicalizable,
    OutputSameAsInput,
    Vst3NoArchitectureDirectoryOnMacos,
    Vst3UnsupportedArchitecture,
}

/// `PackageError` with its one string payload taken by its char view.
pub enum PackageFault {
    TextEmptyOrPadded(TextField),
    TextTooLong(TextField, usize),
    TextHasControlCharacters(TextField),
    BundleIdTooFewComponents,
    BundleIdInvalidComponent,
    VersionComponentCount,
    VersionNotNumeric,
    VersionComponentTooLarge(Seq<char>),
    AuVersionOutOfRange,
    FourccInvalid(TextField),
    FactoryNotIdentifier,
    AuRequiresMacos,
    AuMetadataMissing,
    CodesignRequiresMacosTarget,
    CodesignRequiresMacosHost,
    BinaryMissing,
    BinaryNotRegularFile,
    BinaryExtensionMissing,
    BinaryWrongExtension(ModuleExtension),
    BinaryUnreadable,
    InvalidBinary(BinaryKind, BinaryError),
    OutputUnnamed,
    OutputStemInvalid,
    OutputParentNotDirectory,
    OutputParentUninspectable,
    OutputIsSymlink,
    OutputBundleNotDirectory,
    OutputFileNotRegular,
    OutputUninspectable,
    BinaryNotCanonicalizable,
    OutputSameAsInput,
    Vst3NoArchitectureDirectoryOnMacos,
    Vst3UnsupportedArchitecture,
}

impl View for PackageError {
    type V = PackageFault;

    open spec fn view(&self) -> PackageFault {
        match self {
            PackageError::TextEmptyOrPadded(f) => PackageFault::TextEmptyOrPadded(*f),
            PackageError::TextTooLong(f, n) => PackageFault::TextTooLong(*f, *n),
            PackageError::TextHasControlCharacters(f) => PackageFault::TextHasControlCharacters(*f),
            PackageError::BundleIdTooFewComponents => PackageFault::BundleIdTooFewComponents,
            PackageError::BundleIdInvalidComponent => PackageFault::BundleIdInvalidComponent,
            PackageError::VersionComponentCount => PackageFault::VersionComponentCount,
            PackageError::VersionNotNumeric => PackageFault::VersionNotNumeric,
            PackageError::VersionComponentTooLarge(p) => PackageFault::VersionComponentTooLarge(p@),
            PackageError::AuVersionOutOfRange => PackageFault::AuVersionOutOfRange,
            PackageError::FourccInvalid(f) => PackageFault::FourccInvalid(*f),
            PackageError::FactoryNotIdentifier => PackageFault::FactoryNotIdentifier,
            PackageError::AuRequiresMacos => PackageFault::AuRequiresMacos,
            PackageError::AuMetadataMissing => PackageFault::AuMetadataMissing,
            PackageError::CodesignRequiresMacosTarget => PackageFault::CodesignRequiresMacosTarget,
            PackageError::CodesignRequiresMacosHost => PackageFault::CodesignRequiresMacosHost,
            PackageError::BinaryMissing => PackageFault::BinaryMissing,
            PackageError::BinaryNotRegularFile => PackageFault::BinaryNotRegularFile,
            PackageError::BinaryExtensionMissing => PackageFault::BinaryExtensionMissing,
            PackageError::BinaryWrongExtension(e) => PackageFault::BinaryWrongExtension(*e),
            PackageError::BinaryUnreadable => PackageFault::BinaryUnreadable,
            PackageError::InvalidBinary(k, e) => PackageFault::InvalidBinary(*k, *e),
            PackageError::OutputUnnamed => PackageFault::OutputUnnamed,
            PackageError::OutputStemInvalid => PackageFault::OutputStemInvalid,
            PackageError::OutputParentNotDirectory => PackageFault::OutputParentNotDirectory,
            PackageError::OutputParentUninspectable => PackageFault::OutputParentUninspectable,
            PackageError::OutputIsSymlink => PackageFault::OutputIsSymlink,
            PackageError::OutputBundleNotDirectory => PackageFault::OutputBundleNotDirectory,
            PackageError::OutputFileNotRegular => PackageFault::OutputFileNotRegular,
            PackageError::OutputUninspectable => PackageFault::OutputUninspectable,
            PackageError::BinaryNotCanonicalizable => PackageFault::BinaryNotCanonicalizable,
            PackageError::OutputSameAsInput => PackageFault::OutputSameAsInput,
            PackageError::Vst3NoArchitectureDirectoryOnMacos => {
                PackageFault::Vst3NoArchitectureDirectoryOnMacos
            },
            PackageError::Vst3UnsupportedArchitecture => PackageFault::Vst3UnsupportedArchitecture,
        }
    }
}

/// A result with its error taken by its view.
pub open spec fn faulted<T>(r: Result<T, PackageError>) -> Result<T, PackageFault> {
    match r {
        Ok(v) => Ok(v),
        Err(e) => Err(e@),
    }
}

/// The UTF-8 length of a char sequence, as `str::len` counts it.
pub open spec fn byte_len(s: Seq<char>) -> nat {
    vstd::utf8::encode_utf8(s).len()
}

/// The first problem of a required text field, in the order they are checked.
pub open spec fn required_text_fault(field: TextField, s: Seq<char>, max_len: nat) -> Option<
    PackageFault,
> {
    if s.len() == 0 || trim(s) != s {
        Some(PackageFault::TextEmptyOrPadded(field))
    } else if byte_len(s) > max_len {
        Some(PackageFault::TextTooLong(field, max_len as usize))
    } else if exists|i: int| 0 <= i < s.len() && is_control_char(#[trigger] s[i]) {
        Some(PackageFault::TextHasControlCharacters(field))
    } else {
        None
    }
}

pub open spec fn fault_result(f: Option<PackageFault>) -> Result<(), PackageFault> {
    match f {
        Some(e) => Err(e),
        None => Ok(()),
    }
}

/// A required text field: non-empty, not padded with white space, at most
/// `max_len` bytes of UTF-8, and free of control characters.
#[verifier::loop_isolation(false)]
pub fn validate_required_text(field: TextField, value: &str, max_len: usize) -> (r: Result<
    (),
    PackageError,
>)
    ensures
        faulted(r) == fault_result(required_text_fault(field, value@, max_len as nat)),
{
    let n = char_len(value);
    proof {
        lemma_trim_identity(value@);
    }
    if n == 0 || char_is_whitespace(value.get_char(0)) || char_is_whitespace(
        value.get_char(n - 1),
    ) {
        return Err(PackageError::TextEmptyOrPadded(field));
    }
    let value_bytes = value.as_bytes();
    if value_bytes.len() > max_len {
        return Err(PackageError::TextTooLong(field, max_len));
    }
    let mut i: usize = 0;
    while i < n
        invariant
            n == value@.len(),
            i <= n,
            forall|j: int| 0 <= j < i ==> !is_control_char(#[trigger] value@[j]),
        decreases n - i,
    {
        if char_is_control(value.get_char(i)) {
            assert(is_control_char(value@[i as int]));
            return Err(PackageError::TextHasControlCharacters(field));
        }
        i = i + 1;
    }
    Ok(())
}

pub fn validate_display_name(name: &str) -> (r: Result<(), PackageError>)
    ensures
        faulted(r) == fault_result(required_text_fault(TextField::PluginName, name@, 255)),
{
    validate_required_text(TextField::PluginName, name, 255)
}

/// A bundle identifier component: ASCII letters, digits and `-`, starting
/// and ending with a letter or digit.
pub open spec fn bundle_component_ok(c: Seq<char>) -> bool {
    &&& c.len() > 0
    &&& forall|i: int|
        0 <= i < c.len() ==> is_ascii_alphanumeric_char(#[trigger] c[i]) || c[i] == '-'
    &&& is_ascii_alphanumeric_char(c[0])
    &&& is_ascii_alphanumeric_char(c.last())
}

pub open spec fn bundle_id_fault(s: Seq<char>) -> Option<PackageFault> {
    let parts = split_on(s, '.');
    if required_text_fault(TextField::BundleIdentifier, s, 255) is Some {
        required_text_fault(TextField::BundleIdentifier, s, 255)
    } else if parts.len() < 2 {
        Some(PackageFault::BundleIdTooFewComponents)
    } else if exists|i: int| 0 <= i < parts.len() && !bundle_component_ok(#[trigger] parts[i]) {
        Some(PackageFault::BundleIdInvalidComponent)
    } else {
        None
    }
}

fn char_is_ascii_alphanumeric(c: char) -> (b: bool)
    ensures
        b == is_ascii_alphanumeric_char(c),
{
    ('0' <= c && c <= '9') || ('A' <= c && c <= 'Z') || ('a' <= c && c <= 'z')
}

fn bundle_component_is_valid(c: &str) -> (b: bool)
    ensures
        b == bundle_component_ok(c@),
{
    let n = char_len(c);
    if n == 0 {
        return false;
    }
    let mut i: usize = 0;
    while i < n
        invariant
            n == c@.len(),
            i <= n,
            forall|j: int|
                0 <= j < i ==> is_ascii_alphanumeric_char(#[trigger] c@[j]) || c@[j] == '-',
        decreases n - i,
    {
        let ch = c.get_char(i);
        if !(char_is_ascii_alphanumeric(ch) || ch == '-') {
            return false;
        }
        i = i + 1;
    }
    char_is_ascii_alphanumeric(c.get_char(0)) && char_is_ascii_alphanumeric(c.get_char(n - 1))
}

/// A reverse-DNS bundle identifier such as `com.vendor.plugin`.
#[verifier::loop_isolation(false)]
pub fn validate_bundle_id(bundle_id: &str) -> (r: Result<(), PackageError>)
    ensures
        faulted(r) == fault_result(bundle_id_fault(bundle_id@)),
{
    validate_required_text(TextField::BundleIdentifier, bundle_id, 255)?;
    let segments = split_char(bundle_id, '.');
    let ghost parts = split_on(bundle_id@, '.');
    assert(segments@.len() == parts.len());
    if segments.len() < 2 {
        return Err(PackageError::BundleIdTooFewComponents);
    }
    let mut i: usize = 0;
    while i < segments.len()
        invariant
            string_views(segments@) == parts,
            i <= segments@.len(),
            forall|j: int| 0 <= j < i ==> bundle_component_ok(#[trigger] parts[j]),
        decreases segments@.len() - i,
    {
        assert(parts[i as int] == segments@[i as int]@);
        if !bundle_component_is_valid(segments[i].as_str()) {
            assert(!bundle_component_ok(parts[i as int]));
            return Err(PackageError::BundleIdInvalidComponent);
        }
        i = i + 1;
    }
    Ok(())
}

/// A version component: one or more decimal digits whose value fits `u32`.
pub open spec fn version_part_ok(p: Seq<char>) -> bool {
    p.len() > 0 && all_digits(p) && digits_value(p) <= u32::MAX
}

pub open spec fn version_part_fault(p: Seq<char>) -> PackageFault {
    if p.len() == 0 || !all_digits(p) {
        PackageFault::VersionNotNumeric
    } else {
        PackageFault::VersionComponentTooLarge(p)
    }
}

/// The fault of the first bad component at or after `k`.
pub open spec fn first_version_part_fault(parts: Seq<Seq<char>>, k: nat) -> Option<PackageFault>
    decreases parts.len() - k,
{
    if k >= parts.len() {
        None
    } else if !version_part_ok(parts[k as int]) {
        Some(version_part_fault(parts[k as int]))
    } else {
        first_version_part_fault(parts, k + 1)
    }
}

/// Component `k` of a version, 0 where the version has fewer components.
pub open spec fn version_component(parts: Seq<Seq<char>>, k: int) -> u32 {
    if k < parts.len() {
        digits_value(parts[k]) as u32
    } else {
        0
    }
}

/// What `parse_version` gives for a version string.
pub open spec fn version_spec(s: Seq<char>) -> Result<Seq<u32>, PackageFault> {
    let parts = split_on(s, '.');
    if required_text_fault(TextField::Version, s, 64) is Some {
        Err(required_text_fault(TextField::Version, s, 64)->0)
    } else if parts.len() > 3 {
        Err(PackageFault::VersionComponentCount)
    } else if first_version_part_fault(parts, 0) is Some {
        Err(first_version_part_fault(parts, 0)->0)
    } else {
        Ok(
            seq![
                version_component(parts, 0),
                version_component(parts, 1),
                version_component(parts, 2),
            ],
        )
    }
}

/// Text of digits and dots that starts and ends with a digit and fits the
/// field passes the checks every required text field gets.
proof fn lemma_dotted_digits_pass_text_checks(v: Seq<char>)
    requires
        0 < v.len() <= 64,
        forall|i: int| 0 <= i < v.len() ==> digit_or_dot(#[trigger] v[i]),
        is_digit_char(v[0]),
        is_digit_char(v.last()),
    ensures
        required_text_fault(TextField::Version, v, 64) is None,
{
    assert(vstd::utf8::is_ascii_chars(v)) by {
        assert forall|i: int| 0 <= i < v.len() implies '\0' <= #[trigger] v[i] <= '\u{7f}' by {
            assert(digit_or_dot(v[i]));
        }
    }
    vstd::utf8::is_ascii_chars_encode_utf8(v);
    lemma_trim_identity(v);
    assert(!(exists|i: int| 0 <= i < v.len() && is_control_char(#[trigger] v[i]))) by {
        if exists|i: int| 0 <= i < v.len() && is_control_char(#[trigger] v[i]) {
            let i = choose|i: int| 0 <= i < v.len() && is_control_char(#[trigger] v[i]);
            assert(digit_or_dot(v[i]));
        }
    }
}

/// The decimal spelling of a `u32`: at most ten digits, no dot, and its
/// value back.
proof fn lemma_u32_decimal(n: u32)
    ensures
        0 < decimal(n as nat).len() <= 10,
        all_digits(decimal(n as nat)),
        digits_value(decimal(n as nat)) == n,
        !decimal(n as nat).contains('.'),
        forall|i: int|
            0 <= i < decimal(n as nat).len() ==> digit_or_dot(#[trigger] decimal(n as nat)[i]),
{
    lemma_decimal_digits(n as nat);
    lemma_decimal_has_no_dot(n as nat);
    assert(ten_pow(10) == 10000000000) by {
        reveal_with_fuel(ten_pow, 11);
    }
    lemma_decimal_len(n as nat, 10);
}

/// A version of one or two components parses, the missing components being
/// 0: `"a"` gives `[a, 0, 0]` and `"a.b"` gives `[a, b, 0]`, for every `a`
/// and `b` that fit `u32`.
pub proof fn short_versions_are_padded_with_zeros(a: u32, b: u32)
    ensures
        version_spec(decimal(a as nat)) == Ok::<Seq<u32>, PackageFault>(seq![a, 0u32, 0u32]),
        version_spec(decimal(a as nat) + "."@ + decimal(b as nat)) == Ok::<Seq<u32>, PackageFault>(
            seq![a, b, 0u32],
        ),
{
    let x = decimal(a as nat);
    let y = decimal(b as nat);
    lemma_u32_decimal(a);
    lemma_u32_decimal(b);
    // One component.
    lemma_split_without_sep(x, '.');
    let p1 = split_on(x, '.');
    assert(x[x.len() - 1] == x.last());
    lemma_dotted_digits_pass_text_checks(x);
    assert(version_part_ok(p1[0]));
    assert(first_version_part_fault(p1, 1) is None);
    assert(first_version_part_fault(p1, 0) is None);
    assert(version_spec(x) == Ok::<Seq<u32>, PackageFault>(seq![a, 0u32, 0u32]));
    // Two components.
    let v = x + "."@ + y;
    assert(v =~= x + seq!['.'] + y) by {
        reveal_strlit(".");
    }
    lemma_split_joined(x, y, '.');
    lemma_split_without_sep(y, '.');
    let p2 = split_on(v, '.');
    assert(p2 =~= seq![x, y]);
    assert forall|i: int| 0 <= i < v.len() implies digit_or_dot(#[trigger] v[i]) by {
        if i < x.len() {
            assert(v[i] == x[i]);
        } else if i > x.len() {
            assert(v[i] == y[i - x.len() - 1]);
        }
    }
    assert(v[0] == x[0]);
    assert(v[v.len() - 1] == y[y.len() - 1]);
    lemma_dotted_digits_pass_text_checks(v);
    assert(version_part_ok(p2[0]) && version_part_ok(p2[1]));
    assert(first_version_part_fault(p2, 2) is None);
    assert(first_version_part_fault(p2, 1) is None);
    assert(first_version_part_fault(p2, 0) is None);
}

pub open spec fn version_result_view(r: Result<[u32; 3], PackageError>) -> Result<
    Seq<u32>,
    PackageFault,
> {
    match r {
        Ok(v) => Ok(v@),
        Err(e) => Err(e@),
    }
}

proof fn lemma_digits_value_monotone(s: Seq<char>, k: int)
    requires
        0 <= k <= s.len(),
        all_digits(s),
    ensures
        digits_value(s.take(k)) <= digits_value(s),
    decreases s.len() - k,
{
    if k < s.len() {
        lemma_digits_value_monotone(s, k + 1);
        assert(s.take(k + 1).drop_last() =~= s.take(k));
    }
    else {
        assert(s.take(k) =~= s);
    }
}

/// The value of a string of decimal digits, or `None` when it exceeds `u32`.
fn parse_decimal_digits(p: &str) -> (r: Option<u32>)
    requires
        all_digits(p@),
    ensures
        r is Some <==> digits_value(p@) <= u32::MAX,
        r matches Some(v) ==> v == digits_value(p@),
{
    let n = char_len(p);
    let mut acc: u64 = 0;
    let mut i: usize = 0;
    assert(p@.take(0) =~= Seq::<char>::empty());
    while i < n
        invariant
            n == p@.len(),
            i <= n,
            all_digits(p@),
            acc == digits_value(p@.take(i as int)),
            acc <= u32::MAX,
        decreases n - i,
    {
        let c = p.get_char(i);
        assert(is_digit_char(p@[i as int]));
        let d = (c as u32 - '0' as u32) as u64;
        assert(p@.take(i + 1).drop_last() =~= p@.take(i as int));
        assert(d == digit_value(c));
        acc = acc * 10 + d;
        i = i + 1;
        if acc > 0xffff_ffff {
            proof {
                lemma_digits_value_monotone(p@, i as int);
            }
            return None;
        }
    }
    assert(p@.take(n as int) =~= p@);
    Some(acc as u32)
}

fn all_digit_chars(p: &str) -> (b: bool)
    ensures
        b == all_digits(p@),
{
    let n = char_len(p);
    let mut i: usize = 0;
    while i < n
        invariant
            n == p@.len(),
            i <= n,
            forall|j: int| 0 <= j < i ==> is_digit_char(#[trigger] p@[j]),
        decreases n - i,
    {
        let c = p.get_char(i);
        if !('0' <= c && c <= '9') {
            return false;
        }
        i = i + 1;
    }
    true
}

/// Parses one to three dot-separated decimal components; missing ones are 0.
#[verifier::loop_isolation(false)]
pub fn parse_version(version: &str) -> (r: Result<[u32; 3], PackageError>)
    ensures
        version_result_view(r) == version_spec(version@),
{
    match validate_required_text(TextField::Version, version, 64) {
        Err(e) => {
            return Err(e);
        },
        Ok(()) => {},
    }
    let parts = split_char(version, '.');
    let ghost sp = split_on(version@, '.');
    assert(parts@.len() == sp.len());
    if parts.len() > 3 {
        return Err(PackageError::VersionComponentCount);
    }
    let mut parsed: [u32; 3] = [0, 0, 0];
    let mut index: usize = 0;
    while index < parts.len()
        invariant
            string_views(parts@) == sp,
            sp.len() <= 3,
            index <= sp.len(),
            first_version_part_fault(sp, 0) == first_version_part_fault(sp, index as nat),
            forall|k: int| 0 <= k < index ==> parsed@[k] == version_component(sp, k),
            forall|k: int| index <= k < 3 ==> parsed@[k] == 0,
        decreases sp.len() - index,
    {
        let part = parts[index].as_str();
        assert(part@ == sp[index as int]);
        if char_len(part) == 0 || !all_digit_chars(part) {
            assert(first_version_part_fault(sp, index as nat) == Some(
                PackageFault::VersionNotNumeric,
            ));
            return Err(PackageError::VersionNotNumeric);
        }
        match parse_decimal_digits(part) {
            None => {
                let owned = part.to_owned();
                assert(first_version_part_fault(sp, index as nat) == Some(
                    PackageFault::VersionComponentTooLarge(part@),
                ));
                return Err(PackageError::VersionComponentTooLarge(owned));
            },
            Some(v) => {
                assert(version_part_ok(sp[index as int]));
                assert(first_version_part_fault(sp, index as nat) == first_version_part_fault(
                    sp,
                    index as nat + 1,
                ));
                parsed[index] = v;
            },
        }
        index = index + 1;
    }
    assert(parsed@ =~= seq![
        version_component(sp, 0),
        version_component(sp, 1),
        version_component(sp, 2),
    ]);
    Ok(parsed)
}

/// The packed AU version: `major` in the top 16 bits, then `minor`, then `patch`.
pub open spec fn au_version_value(major: u32, minor: u32, patch: u32) -> int {
    major * 65536 + minor * 256 + patch
}

/// Whether a version's components fit the 16.8.8 bits of an AU version.
pub open spec fn au_version_fits(v: Seq<u32>) -> bool {
    v[0] <= 0xffff && v[1] <= 0xff && v[2] <= 0xff
}

/// Packs a version into the 16.8.8-bit AudioComponent version integer.
pub fn version_to_au_integer(version: [u32; 3]) -> (r: Result<u32, PackageError>)
    ensures
        au_version_fits(version@) <==> r is Ok,
        r matches Ok(v) ==> v == au_version_value(version@[0], version@[1], version@[2]),
        r matches Err(e) ==> e@ == PackageFault::AuVersionOutOfRange,
{
    let major = version[0];
    let minor = version[1];
    let patch = version[2];
    if major > 0xffff || minor > 0xff || patch > 0xff {
        return Err(PackageError::AuVersionOutOfRange);
    }
    let packed = (major << 16) | (minor << 8) | patch;
    assert(packed == major * 65536 + minor * 256 + patch) by (bit_vector)
        requires
            major <= 0xffff,
            minor <= 0xff,
            patch <= 0xff,
            packed == (major << 16) | (minor << 8) | patch,
    ;
    Ok(packed)
}

/// A four-character code: exactly four bytes, each printable ASCII.
pub open spec fn fourcc_ok(bytes: Seq<u8>) -> bool {
    bytes.len() == 4 && forall|i: int| 0 <= i < 4 ==> is_ascii_graphic(#[trigger] bytes[i])
}

pub fn validate_fourcc(field: TextField, value: &str) -> (r: Result<(), PackageError>)
    ensures
        r is Ok <==> fourcc_ok(vstd::utf8::encode_utf8(value@)),
        r matches Err(e) ==> e@ == PackageFault::FourccInvalid(field),
{
    let bytes = value.as_bytes();
    if bytes.len() != 4 {
        return Err(PackageError::FourccInvalid(field));
    }
    let mut i: usize = 0;
    while i < 4
        invariant
            bytes@ == vstd::utf8::encode_utf8(value@),
            bytes@.len() == 4,
            i <= 4,
            forall|j: int| 0 <= j < i ==> is_ascii_graphic(#[trigger] bytes@[j]),
        decreases 4 - i,
    {
        let b = bytes[i];
        if !(0x21 <= b && b <= 0x7e) {
            return Err(PackageError::FourccInvalid(field));
        }
        i = i + 1;
    }
    Ok(())
}

/// A C identifier: a letter or `_`, then letters, digits and `_`.
pub open spec fn c_identifier(bytes: Seq<u8>) -> bool {
    &&& bytes.len() > 0
    &&& (is_ascii_alphabetic(bytes[0]) || bytes[0] == 0x5f)
    &&& forall|i: int|
        1 <= i < bytes.len() ==> is_ascii_alphanumeric(#[trigger] bytes[i]) || bytes[i] == 0x5f
}

pub open spec fn factory_fault(s: Seq<char>) -> Option<PackageFault> {
    if required_text_fault(TextField::AuFactoryFunction, s, 255) is Some {
        required_text_fault(TextField::AuFactoryFunction, s, 255)
    } else if !c_identifier(vstd::utf8::encode_utf8(s)) {
        Some(PackageFault::FactoryNotIdentifier)
    } else {
        None
    }
}

/// The AU factory function must be a valid C identifier.
#[verifier::loop_isolation(false)]
pub fn validate_factory_name(factory: &str) -> (r: Result<(), PackageError>)
    ensures
        faulted(r) == fault_result(factory_fault(factory@)),
{
    validate_required_text(TextField::AuFactoryFunction, factory, 255)?;
    let bytes = factory.as_bytes();
    proof {
        vstd::utf8::encode_utf8_first_scalar(factory@);
    }
    if bytes.len() == 0 {
        return Err(PackageError::FactoryNotIdentifier);
    }
    let first = bytes[0];
    if !((0x41 <= first && first <= 0x5a) || (0x61 <= first && first <= 0x7a) || first == 0x5f) {
        return Err(PackageError::FactoryNotIdentifier);
    }
    let mut i: usize = 1;
    while i < bytes.len()
        invariant
            bytes@ == vstd::utf8::encode_utf8(factory@),
            1 <= i <= bytes@.len(),
            forall|j: int|
                1 <= j < i ==> is_ascii_alphanumeric(#[trigger] bytes@[j]) || bytes@[j] == 0x5f,
        decreases bytes@.len() - i,
    {
        let b = bytes[i];
        if !((0x30 <= b && b <= 0x39) || (0x41 <= b && b <= 0x5a) || (0x61 <= b && b <= 0x7a)
            || b == 0x5f) {
            assert(!(is_ascii_alphanumeric(bytes@[i as int]) || bytes@[i as int] == 0x5f));
            return Err(PackageError::FactoryNotIdentifier);
        }
        i = i + 1;
    }
    Ok(())
}

} // verus!
