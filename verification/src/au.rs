//! The AudioUnit front end: legacy version spellings and its own flags,
//! handed on to the unified packager.
use vstd::prelude::*;
use crate::packager::{
    artifact_extension, artifact_spec, package, package_spec, validated_spec, BinaryFacts,
    OutputFacts, PackagePlan, PlanView, Step, MACOS_MODULE_PREFIX,
};
use crate::paths::{path_file_stem, path_stem, path_with_extension, with_extension};
use crate::request::{
    au_version_fits, au_version_value, first_version_part_fault, required_text_fault,
    version_part_ok, version_spec, AuMetadata, AuMetadataView, PackageError, PackageFault,
    PackageFormat, PackageRequest, RequestView, Target, TargetPlatform, TextField,
};
use crate::text::{
    char_len, decimal, is_control_char, is_digit_char, is_unicode_whitespace,
    digit_char, lemma_decimal_digits, lemma_decimal_has_no_dot, lemma_digit_char_roundtrip, lemma_split_on_nonempty,
    lemma_trim_identity, push_char_at, push_decimal, split_on, str_eq, trim, trim_str,
};

verus! {

/// Why text is not an unsigned 32-bit integer, as `core::num::IntErrorKind`
/// names it.
#[derive(Copy, Clone, Debug, PartialEq, Eq, Structural)]
pub enum ParseIntFault {
    Empty,
    InvalidDigit,
    PosOverflow,
}

/// The value of a digit char in a radix of 10 or 16.
pub open spec fn digit_in_radix(c: char, radix: nat) -> Option<nat> {
    if '0' <= c && c <= '9' {
        Some((c as u32 - '0' as u32) as nat)
    } else if radix == 16 && 'a' <= c && c <= 'f' {
        Some((c as u32 - 'a' as u32 + 10) as nat)
    } else if radix == 16 && 'A' <= c && c <= 'F' {
        Some((c as u32 - 'A' as u32 + 10) as nat)
    } else {
        None
    }
}

/// Digits read most significant first; the first bad digit, or the first
/// digit that takes the value past `u32::MAX`, stops the reading.
pub open spec fn radix_value(ds: Seq<char>, radix: nat) -> Result<nat, ParseIntFault>
    decreases ds.len(),
{
    if ds.len() == 0 {
        Ok(0)
    } else {
        match radix_value(ds.drop_last(), radix) {
            Err(e) => Err(e),
            Ok(acc) => match digit_in_radix(ds.last(), radix) {
                None => Err(ParseIntFault::InvalidDigit),
                Some(d) => if acc * radix + d > u32::MAX {
                    Err(ParseIntFault::PosOverflow)
                } else {
                    Ok(acc * radix + d)
                },
            },
        }
    }
}

/// `u32::from_str_radix`: an optional `+` and then digits.
pub open spec fn u32_from_str_radix(s: Seq<char>, radix: nat) -> Result<u32, ParseIntFault> {
    if s.len() == 0 {
        Err(ParseIntFault::Empty)
    } else if s == seq!['+'] || s == seq!['-'] {
        Err(ParseIntFault::InvalidDigit)
    } else {
        let ds = if s[0] == '+' {
            s.drop_first()
        } else {
            s
        };
        match radix_value(ds, radix) {
            Err(e) => Err(e),
            Ok(v) => Ok(v as u32),
        }
    }
}

fn digit_value_in(c: char, radix: u32) -> (r: Option<u32>)
    requires
        radix == 10 || radix == 16,
    ensures
        match r {
            None => digit_in_radix(c, radix as nat) is None,
            Some(d) => digit_in_radix(c, radix as nat) == Some(d as nat) && d < radix,
        },
{
    let v = c as u32;
    if 0x30 <= v && v <= 0x39 {
        Some(v - 0x30)
    } else if radix == 16 && 0x61 <= v && v <= 0x66 {
        Some(v - 0x61 + 10)
    } else if radix == 16 && 0x41 <= v && v <= 0x46 {
        Some(v - 0x41 + 10)
    } else {
        None
    }
}

/// Parses an unsigned 32-bit integer in radix 10 or 16.
#[verifier::loop_isolation(false)]
pub fn parse_u32_radix(s: &str, radix: u32) -> (r: Result<u32, ParseIntFault>)
    requires
        radix == 10 || radix == 16,
    ensures
        r == u32_from_str_radix(s@, radix as nat),
{
    let n = char_len(s);
    if n == 0 {
        return Err(ParseIntFault::Empty);
    }
    let first = s.get_char(0);
    if n == 1 && (first == '+' || first == '-') {
        assert(s@ =~= seq![first]);
        return Err(ParseIntFault::InvalidDigit);
    }
    assert(s@ != seq!['+'] && s@ != seq!['-']) by {
        if n == 1 {
            assert(s@[0] == first);
        }
    }
    let start: usize = if first == '+' {
        1
    } else {
        0
    };
    let ghost ds = if first == '+' {
        s@.drop_first()
    } else {
        s@
    };
    assert(ds =~= s@.skip(start as int));
    let mut acc: u32 = 0;
    let mut i: usize = start;
    while i < n
        invariant
            n == s@.len(),
            start <= i <= n,
            radix == 10 || radix == 16,
            ds == s@.skip(start as int),
            radix_value(ds.take(i - start), radix as nat) == Ok::<nat, ParseIntFault>(acc as nat),
        decreases n - i,
    {
        let c = s.get_char(i);
        let ghost prefix = ds.take(i + 1 - start);
        assert(prefix.drop_last() =~= ds.take(i - start));
        assert(prefix.last() == c);
        match digit_value_in(c, radix) {
            None => {
                proof {
                    lemma_radix_value_prefix_err(ds, radix as nat, i + 1 - start);
                }
                return Err(ParseIntFault::InvalidDigit);
            },
            Some(d) => {
                let wide: u64 = (acc as u64) * (radix as u64) + (d as u64);
                if wide > 0xffff_ffff {
                    proof {
                        lemma_radix_value_prefix_err(ds, radix as nat, i + 1 - start);
                    }
                    return Err(ParseIntFault::PosOverflow);
                }
                acc = wide as u32;
            },
        }
        i = i + 1;
    }
    assert(ds.take(n - start) =~= ds);
    Ok(acc)
}

/// Once a prefix of the digits is refused, so are all the digits, for the
/// same reason.
proof fn lemma_radix_value_prefix_err(ds: Seq<char>, radix: nat, k: int)
    requires
        0 <= k <= ds.len(),
    ensures
        radix_value(ds.take(k), radix) is Err ==> radix_value(ds, radix) == radix_value(
            ds.take(k),
            radix,
        ),
    decreases ds.len() - k,
{
    if k < ds.len() {
        lemma_radix_value_prefix_err(ds, radix, k + 1);
        let next = ds.take(k + 1);
        assert(next.drop_last() =~= ds.take(k));
    } else {
        assert(ds.take(k) =~= ds);
    }
}

/// `ParseIntError`'s message for each kind.
pub open spec fn parse_fault_message(e: ParseIntFault) -> Seq<char> {
    match e {
        ParseIntFault::Empty => "cannot parse integer from empty string"@,
        ParseIntFault::InvalidDigit => "invalid digit found in string"@,
        ParseIntFault::PosOverflow => "number too large to fit in target type"@,
    }
}

fn parse_fault_str(e: ParseIntFault) -> (s: &'static str)
    ensures
        s@ == parse_fault_message(e),
{
    match e {
        ParseIntFault::Empty => "cannot parse integer from empty string",
        ParseIntFault::InvalidDigit => "invalid digit found in string",
        ParseIntFault::PosOverflow => "number too large to fit in target type",
    }
}

/// `s` without any `c`.
pub open spec fn remove_char(s: Seq<char>, c: char) -> Seq<char> {
    s.filter(|x: char| x != c)
}

fn remove_char_str(s: &str, c: char) -> (out: String)
    ensures
        out@ == remove_char(s@, c),
{
    let n = char_len(s);
    let mut out = String::new();
    let mut i: usize = 0;
    while i < n
        invariant
            n == s@.len(),
            i <= n,
            out@ == remove_char(s@.take(i as int), c),
        decreases n - i,
    {
        proof {
            reveal(Seq::filter);
            assert(s@.take(i + 1).drop_last() =~= s@.take(i as int));
            assert(s@.take(i + 1).last() == s@[i as int]);
        }
        if s.get_char(i) != c {
            push_char_at(&mut out, s, i);
        }
        i = i + 1;
    }
    assert(s@.take(n as int) =~= s@);
    out
}

/// The packed integer a legacy AU version spells: decimal, or hexadecimal
/// after `0x`/`0X`, once white space around it and `_` separators are gone.
pub open spec fn packed_version(raw: Seq<char>) -> Result<u32, ParseIntFault> {
    let t = remove_char(trim(raw), '_');
    if t.len() >= 2 && t[0] == '0' && (t[1] == 'x' || t[1] == 'X') {
        u32_from_str_radix(t.skip(2), 16)
    } else {
        u32_from_str_radix(t, 10)
    }
}

/// `major.minor.patch` of a packed 16.8.8-bit version.
pub open spec fn unpacked_version(p: u32) -> Seq<char> {
    decimal((p / 65536) as nat) + "."@ + decimal(((p / 256) % 256) as nat) + "."@ + decimal(
        (p % 256) as nat,
    )
}

/// A version as the unified packager takes it: a dotted version unchanged;
/// else a packed integer, unpacked, or why it is not one.
pub open spec fn normalized_version(raw: Seq<char>) -> Result<Seq<char>, Seq<char>> {
    if raw.contains('.') {
        Ok(raw)
    } else {
        match packed_version(raw) {
            Ok(p) => Ok(unpacked_version(p)),
            Err(e) => Err(
                "invalid packed AU version '"@ + raw + "': "@ + parse_fault_message(e),
            ),
        }
    }
}

pub open spec fn string_result_view(r: Result<String, String>) -> Result<Seq<char>, Seq<char>> {
    match r {
        Ok(s) => Ok(s@),
        Err(s) => Err(s@),
    }
}

fn contains_char(s: &str, c: char) -> (b: bool)
    ensures
        b == s@.contains(c),
{
    let n = char_len(s);
    let mut i: usize = 0;
    while i < n
        invariant
            n == s@.len(),
            i <= n,
            forall|j: int| 0 <= j < i ==> s@[j] != c,
        decreases n - i,
    {
        if s.get_char(i) == c {
            assert(s@[i as int] == c);
            return true;
        }
        i = i + 1;
    }
    false
}

/// Turns a legacy packed AU version into `major.minor.patch`; dotted
/// versions pass unchanged.
pub fn normalize_version(raw: &str) -> (r: Result<String, String>)
    ensures
        string_result_view(r) == normalized_version(raw@),
{
    if contains_char(raw, '.') {
        return Ok(raw.to_owned());
    }
    let trimmed = trim_str(raw);
    let cleaned = remove_char_str(trimmed.as_str(), '_');
    let t = cleaned.as_str();
    let n = char_len(t);
    let parsed = if n >= 2 && t.get_char(0) == '0' && (t.get_char(1) == 'x' || t.get_char(1)
        == 'X') {
        let hex = t.substring_char(2, n);
        assert(hex@ =~= t@.skip(2));
        parse_u32_radix(hex, 16)
    } else {
        parse_u32_radix(t, 10)
    };
    match parsed {
        Err(e) => {
            let mut msg = String::new();
            msg.append("invalid packed AU version '");
            msg.append(raw);
            msg.append("': ");
            msg.append(parse_fault_str(e));
            Err(msg)
        },
        Ok(packed) => {
            let major = packed / 65536;
            let minor = (packed / 256) % 256;
            let patch = packed % 256;
            let mut out = String::new();
            push_decimal(&mut out, major as u64);
            out.append(".");
            push_decimal(&mut out, minor as u64);
            out.append(".");
            push_decimal(&mut out, patch as u64);
            Ok(out)
        },
    }
}

/// The AU packager's flags.
#[derive(Clone, Debug)]
pub struct AuArgs {
    pub binary: String,
    pub out: String,
    pub name: String,
    pub bundle_id: String,
    pub component_type: String,
    pub component_subtype: String,
    pub component_manufacturer: String,
    pub version: String,
    pub factory: String,
    pub sandbox_safe: bool,
    pub unsafe_mode: bool,
    /// A module name that must match the one the bundle gets.
    pub executable: Option<String>,
    pub codesign: bool,
    /// An install directory; installing is no longer done here.
    pub install: Option<String>,
}

/// Why the AU front end refused.
#[derive(Clone, Debug)]
pub enum AuPackagingError {
    /// A flag combination it does not accept, with the reason.
    Usage(String),
    /// The unified packager refused the request.
    Package(PackageError),
}

pub const SANDBOX_CONFLICT: &'static str = "--sandbox-safe and --unsafe are mutually exclusive";

pub const INSTALL_REFUSED: &'static str = "--install is no longer performed by the compatibility wrapper; use tools/package_examples.sh --au --install";

pub const OUT_UNNAMED: &'static str = "--out must have a valid UTF-8 filename";

/// Why the flags are refused before a request is made, if they are.
pub open spec fn au_usage_fault(args: AuArgs) -> Option<Seq<char>> {
    if args.sandbox_safe && args.unsafe_mode {
        Some(SANDBOX_CONFLICT@)
    } else if args.install is Some {
        Some(INSTALL_REFUSED@)
    } else {
        match normalized_version(args.version@) {
            Err(m) => Some(m),
            Ok(_) => match args.executable {
                None => None,
                Some(e) => match path_file_stem(with_extension(args.out@, "component"@)) {
                    None => Some(OUT_UNNAMED@),
                    Some(expected) => if e@ != expected {
                        Some(
                            "--executable '"@ + e@ + "' does not match the unified bundle module name '"@
                                + expected + "'; rename --out or omit --executable"@,
                        )
                    } else {
                        None
                    },
                },
            },
        }
    }
}

/// The request the flags make: an AU of the normalized version, sandbox
/// safe unless `--unsafe` is given.
pub open spec fn au_request_view(args: AuArgs, version: Seq<char>) -> RequestView {
    RequestView {
        format: PackageFormat::Au,
        binary: args.binary@,
        out: args.out@,
        name: args.name@,
        bundle_id: args.bundle_id@,
        version,
        codesign: args.codesign,
        au: Some(
            AuMetadataView {
                component_type: args.component_type@,
                component_subtype: args.component_subtype@,
                manufacturer: args.component_manufacturer@,
                factory: args.factory@,
                sandbox_safe: !args.unsafe_mode,
            },
        ),
    }
}

/// What the AU front end gives: a refusal of its own, or what the unified
/// packager gives for the request the flags make.
pub open spec fn package_au_spec(
    args: AuArgs,
    host: Target,
    binary: BinaryFacts,
    output: OutputFacts,
) -> Result<PlanView, Result<Seq<char>, PackageFault>> {
    match au_usage_fault(args) {
        Some(m) => Err(Ok(m)),
        None => match normalized_version(args.version@) {
            Ok(v) => match package_spec(au_request_view(args, v), host, host.platform, binary, output) {
                Ok(plan) => Ok(plan),
                Err(e) => Err(Err(e)),
            },
            Err(m) => Err(Ok(m)),
        },
    }
}

pub open spec fn au_result_view(r: Result<PackagePlan, AuPackagingError>) -> Result<
    PlanView,
    Result<Seq<char>, PackageFault>,
> {
    match r {
        Ok(plan) => Ok(plan@),
        Err(AuPackagingError::Usage(m)) => Err(Ok(m@)),
        Err(AuPackagingError::Package(e)) => Err(Err(e@)),
    }
}

fn usage(text: &str) -> (e: AuPackagingError)
    ensures
        e matches AuPackagingError::Usage(m) && m@ == text@,
{
    AuPackagingError::Usage(text.to_owned())
}

/// The AU packager: checks its own flags, turns a legacy version into a
/// dotted one, and packages an AU for the platform it runs on.
pub fn package_au(args: &AuArgs, host: &Target, binary: &BinaryFacts, output: OutputFacts) -> (r:
    Result<PackagePlan, AuPackagingError>)
    ensures
        au_result_view(r) == package_au_spec(*args, *host, *binary, output),
{
    if args.sandbox_safe && args.unsafe_mode {
        return Err(usage(SANDBOX_CONFLICT));
    }
    if args.install.is_some() {
        return Err(usage(INSTALL_REFUSED));
    }
    let version = match normalize_version(args.version.as_str()) {
        Ok(v) => v,
        Err(m) => {
            return Err(AuPackagingError::Usage(m));
        },
    };
    match &args.executable {
        None => {},
        Some(executable) => {
            let artifact = path_with_extension(args.out.as_str(), "component");
            match path_stem(artifact.as_str()) {
                None => {
                    return Err(usage(OUT_UNNAMED));
                },
                Some(expected) => {
                    if !str_eq(executable.as_str(), expected.as_str()) {
                        let mut m = String::new();
                        m.append("--executable '");
                        m.append(executable.as_str());
                        m.append("' does not match the unified bundle module name '");
                        m.append(expected.as_str());
                        m.append("'; rename --out or omit --executable");
                        return Err(AuPackagingError::Usage(m));
                    }
                },
            }
        },
    }
    let request = PackageRequest {
        format: PackageFormat::Au,
        binary: args.binary.clone(),
        out: args.out.clone(),
        name: args.name.clone(),
        bundle_id: args.bundle_id.clone(),
        version,
        codesign: args.codesign,
        au: Some(
            AuMetadata {
                component_type: args.component_type.clone(),
                component_subtype: args.component_subtype.clone(),
                manufacturer: args.component_manufacturer.clone(),
                factory: args.factory.clone(),
                sandbox_safe: !args.unsafe_mode,
            },
        ),
    };
    assert(request@ == au_request_view(*args, request.version@));
    match package(&request, host, binary, output) {
        Ok(plan) => Ok(plan),
        Err(e) => Err(AuPackagingError::Package(e)),
    }
}

// ------------------------------------------------------------------ laws

proof fn lemma_radix_value_decimal(n: nat)
    requires
        n <= u32::MAX,
    ensures
        radix_value(decimal(n), 10) == Ok::<nat, ParseIntFault>(n),
    decreases n,
{
    if n < 10 {
        lemma_digit_char_roundtrip(n);
        assert(digit_in_radix(digit_char(n), 10) == Some(n));
        assert(decimal(n).drop_last() =~= Seq::<char>::empty());
        assert(radix_value(Seq::<char>::empty(), 10) == Ok::<nat, ParseIntFault>(0));
        assert(decimal(n).last() == digit_char(n));
    } else {
        lemma_radix_value_decimal(n / 10);
        lemma_digit_char_roundtrip(n % 10);
        assert(digit_in_radix(digit_char(n % 10), 10) == Some(n % 10));
        assert(decimal(n).drop_last() =~= decimal(n / 10));
        assert(decimal(n).last() == digit_char(n % 10));
        assert((n / 10) * 10 + n % 10 == n) by (nonlinear_arith);
    }
}

proof fn lemma_remove_absent_char(s: Seq<char>, c: char)
    requires
        !s.contains(c),
    ensures
        remove_char(s, c) == s,
    decreases s.len(),
{
    reveal(Seq::filter);
    if s.len() > 0 {
        assert(!s.drop_last().contains(c)) by {
            if s.drop_last().contains(c) {
                let i = choose|i: int| 0 <= i < s.drop_last().len() && s.drop_last()[i] == c;
                assert(s[i] == c);
            }
        }
        lemma_remove_absent_char(s.drop_last(), c);
        assert(s.last() != c) by {
            assert(s[s.len() - 1] == s.last());
        }
        assert(s.drop_last().push(s.last()) =~= s);
    }
}

pub(crate) proof fn lemma_split_joined(x: Seq<char>, y: Seq<char>, sep: char)
    ensures
        split_on(x + seq![sep] + y, sep) == split_on(x, sep) + split_on(y, sep),
    decreases y.len(),
{
    lemma_split_on_nonempty(x, sep);
    if y.len() == 0 {
        assert((x + seq![sep] + y).drop_last() =~= x);
        assert(split_on(y, sep) =~= seq![Seq::<char>::empty()]);
        assert(split_on(x + seq![sep] + y, sep) =~= split_on(x, sep) + split_on(y, sep));
    } else {
        lemma_split_joined(x, y.drop_last(), sep);
        lemma_split_on_nonempty(y.drop_last(), sep);
        let whole = x + seq![sep] + y;
        assert(whole.drop_last() =~= x + seq![sep] + y.drop_last());
        assert(whole.last() == y.last());
        let left = split_on(x, sep);
        let right = split_on(y.drop_last(), sep);
        if y.last() == sep {
            assert((left + right).push(Seq::<char>::empty()) =~= left + right.push(
                Seq::<char>::empty(),
            ));
        } else {
            let joined = left + right;
            assert(joined.last() == right.last());
            assert(joined.update(joined.len() - 1, joined.last().push(y.last())) =~= left
                + right.update(right.len() - 1, right.last().push(y.last())));
        }
    }
}

pub(crate) proof fn lemma_split_without_sep(x: Seq<char>, sep: char)
    requires
        !x.contains(sep),
    ensures
        split_on(x, sep) == seq![x],
    decreases x.len(),
{
    if x.len() > 0 {
        assert(!x.drop_last().contains(sep)) by {
            if x.drop_last().contains(sep) {
                let i = choose|i: int| 0 <= i < x.drop_last().len() && x.drop_last()[i] == sep;
                assert(x[i] == sep);
            }
        }
        lemma_split_without_sep(x.drop_last(), sep);
        assert(x[x.len() - 1] == x.last());
        assert(x.drop_last().push(x.last()) =~= x);
    } else {
        assert(x =~= Seq::<char>::empty());
    }
}

/// `10^k`.
pub open spec fn ten_pow(k: nat) -> nat
    decreases k,
{
    if k == 0 {
        1
    } else {
        10 * ten_pow((k - 1) as nat)
    }
}

pub(crate) proof fn lemma_decimal_len(n: nat, k: nat)
    requires
        n < ten_pow(k),
        k >= 1,
    ensures
        decimal(n).len() <= k,
    decreases k,
{
    if n >= 10 {
        assert(n / 10 < ten_pow((k - 1) as nat)) by (nonlinear_arith)
            requires
                n < 10 * ten_pow((k - 1) as nat),
                n >= 10,
        ;
        assert(k >= 2) by {
            if k == 1 {
                assert(ten_pow(0) == 1);
            }
        }
        lemma_decimal_len(n / 10, (k - 1) as nat);
    }
}

/// The chars of a dotted version built from decimals: digits and dots.
pub open spec fn digit_or_dot(c: char) -> bool {
    is_digit_char(c) || c == '.'
}

/// A legacy packed version, spelled in decimal as the AU packager is given
/// it, comes out of normalizing and parsing as the three fields it packs,
/// and packing those gives the number back.
pub proof fn packed_version_round_trip(p: u32)
    ensures
        normalized_version(decimal(p as nat)) == Ok::<Seq<char>, Seq<char>>(unpacked_version(p)),
        version_spec(unpacked_version(p)) == Ok::<Seq<u32>, PackageFault>(
            seq![p / 65536, (p / 256) % 256, p % 256],
        ),
        au_version_fits(seq![p / 65536, (p / 256) % 256, p % 256]),
        au_version_value(p / 65536, (p / 256) % 256, p % 256) == p,
{
    let d = decimal(p as nat);
    lemma_decimal_digits(p as nat);
    lemma_decimal_has_no_dot(p as nat);
    // Normalizing: no dot, nothing to trim, no separators, no hex prefix.
    lemma_trim_identity(d);
    assert(!is_unicode_whitespace(d[0]) && !is_unicode_whitespace(d.last())) by {
        assert(is_digit_char(d[0]));
        assert(is_digit_char(d[d.len() - 1]));
    }
    assert(!d.contains('_')) by {
        if d.contains('_') {
            let i = choose|i: int| 0 <= i < d.len() && d[i] == '_';
            assert(is_digit_char(d[i]));
        }
    }
    lemma_remove_absent_char(d, '_');
    assert(is_digit_char(d[0]));
    if d.len() >= 2 {
        assert(is_digit_char(d[1]));
    }
    lemma_radix_value_decimal(p as nat);
    assert(packed_version(d) == Ok::<u32, ParseIntFault>(p));
    lemma_unpacked_version_parses(p);
}

/// The dotted version a packed version unpacks to parses back to its three
/// fields, and they pack to the number again.
proof fn lemma_unpacked_version_parses(p: u32)
    ensures
        version_spec(unpacked_version(p)) == Ok::<Seq<u32>, PackageFault>(
            seq![p / 65536, (p / 256) % 256, p % 256],
        ),
        au_version_fits(seq![p / 65536, (p / 256) % 256, p % 256]),
        au_version_value(p / 65536, (p / 256) % 256, p % 256) == p,
{
    // Parsing the dotted version.
    let major = (p / 65536) as nat;
    let minor = ((p / 256) % 256) as nat;
    let patch = (p % 256) as nat;
    let a = decimal(major);
    let b = decimal(minor);
    let c = decimal(patch);
    lemma_decimal_digits(major);
    lemma_decimal_digits(minor);
    lemma_decimal_digits(patch);
    lemma_decimal_has_no_dot(major);
    lemma_decimal_has_no_dot(minor);
    lemma_decimal_has_no_dot(patch);
    let v = unpacked_version(p);
    assert(v =~= a + seq!['.'] + (b + seq!['.'] + c)) by {
        reveal_strlit(".");
    }
    lemma_split_joined(a, b + seq!['.'] + c, '.');
    lemma_split_joined(b, c, '.');
    lemma_split_without_sep(a, '.');
    lemma_split_without_sep(b, '.');
    lemma_split_without_sep(c, '.');
    let parts = split_on(v, '.');
    assert(parts =~= seq![a, b, c]);
    assert(ten_pow(5) == 100000 && ten_pow(3) == 1000) by {
        reveal_with_fuel(ten_pow, 6);
    }
    lemma_decimal_len(major, 5);
    lemma_decimal_len(minor, 3);
    lemma_decimal_len(patch, 3);
    assert forall|i: int| 0 <= i < v.len() implies digit_or_dot(#[trigger] v[i]) by {
        if i < a.len() {
            assert(v[i] == a[i]);
        } else if i == a.len() {
        } else if i < a.len() + 1 + b.len() {
            assert(v[i] == b[i - a.len() - 1]);
        } else if i == a.len() + 1 + b.len() {
        } else {
            assert(v[i] == c[i - a.len() - 2 - b.len()]);
        }
    }
    assert(vstd::utf8::is_ascii_chars(v)) by {
        assert forall|i: int| 0 <= i < v.len() implies '\0' <= #[trigger] v[i] <= '\u{7f}' by {
            assert(digit_or_dot(v[i]));
        }
    }
    vstd::utf8::is_ascii_chars_encode_utf8(v);
    lemma_trim_identity(v);
    assert(v[0] == a[0]);
    assert(v.last() == c.last()) by {
        assert(v[v.len() - 1] == c[c.len() - 1]);
    }
    assert(digit_or_dot(v[0]) && digit_or_dot(v[v.len() - 1]));
    assert(!(exists|i: int| 0 <= i < v.len() && is_control_char(#[trigger] v[i]))) by {
        if exists|i: int| 0 <= i < v.len() && is_control_char(#[trigger] v[i]) {
            let i = choose|i: int| 0 <= i < v.len() && is_control_char(#[trigger] v[i]);
            assert(digit_or_dot(v[i]));
        }
    }
    assert(required_text_fault(TextField::Version, v, 64) is None);
    assert(version_part_ok(parts[0]) && version_part_ok(parts[1]) && version_part_ok(parts[2]));
    assert(first_version_part_fault(parts, 3) is None);
    assert(first_version_part_fault(parts, 2) is None);
    assert(first_version_part_fault(parts, 1) is None);
    assert(first_version_part_fault(parts, 0) is None);
    assert((p / 65536) * 65536 + ((p / 256) % 256) * 256 + p % 256 == p) by (bit_vector);
    assert(p / 65536 <= 0xffff) by (bit_vector);
}

proof fn lemma_hex_char_plain(c: char)
    requires
        digit_in_radix(c, 16) is Some,
    ensures
        c != '.' && c != '_' && c != '+' && c != '-' && !is_unicode_whitespace(c),
{
}

/// Text made of a prefix of plain chars and hex digits reads, after the
/// prefix, as those digits.
proof fn lemma_prefixed_digits(raw: Seq<char>, x: char, h: Seq<char>)
    requires
        raw == seq!['0', x] + h,
        x == 'x' || x == 'X',
        h.len() > 0,
        forall|i: int| 0 <= i < h.len() ==> #[trigger] digit_in_radix(h[i], 16) is Some,
    ensures
        !raw.contains('.'),
        remove_char(trim(raw), '_') == raw,
        raw.skip(2) == h,
        h[0] != '+',
        h != seq!['+'] && h != seq!['-'],
{
    assert forall|i: int| 0 <= i < raw.len() implies raw[i] != '.' && raw[i] != '_'
        && !is_unicode_whitespace(#[trigger] raw[i]) by {
        if i >= 2 {
            assert(raw[i] == h[i - 2]);
            lemma_hex_char_plain(h[i - 2]);
        }
    }
    assert(!raw.contains('.'));
    assert(!raw.contains('_'));
    assert(raw.last() == raw[raw.len() - 1]);
    lemma_trim_identity(raw);
    lemma_remove_absent_char(raw, '_');
    assert(raw.skip(2) =~= h);
    lemma_hex_char_plain(h[0]);
    if h.len() == 1 {
        assert(h != seq!['+'] && h != seq!['-']);
    }
}

/// The number hex digits spell, in any mix of upper and lower case, most
/// significant first.
pub open spec fn hex_value(ds: Seq<char>) -> nat
    decreases ds.len(),
{
    if ds.len() == 0 {
        0
    } else {
        hex_value(ds.drop_last()) * 16 + match digit_in_radix(ds.last(), 16) {
            Some(d) => d,
            None => 0,
        }
    }
}

/// Digits whose spelled number fits `u32` read as that number.
proof fn lemma_radix_value_hex(ds: Seq<char>)
    requires
        forall|i: int| 0 <= i < ds.len() ==> #[trigger] digit_in_radix(ds[i], 16) is Some,
        hex_value(ds) <= u32::MAX,
    ensures
        radix_value(ds, 16) == Ok::<nat, ParseIntFault>(hex_value(ds)),
    decreases ds.len(),
{
    if ds.len() > 0 {
        let p = ds.drop_last();
        assert forall|i: int| 0 <= i < p.len() implies #[trigger] digit_in_radix(p[i], 16) is Some by {
            assert(p[i] == ds[i]);
        }
        assert(digit_in_radix(ds[ds.len() - 1], 16) is Some);
        assert(hex_value(p) <= hex_value(ds)) by (nonlinear_arith)
            requires
                hex_value(ds) >= hex_value(p) * 16,
        ;
        lemma_radix_value_hex(p);
    }
}

/// A legacy packed version spelled as `0x` (or `0X`) and hex digits in any
/// mix of upper and lower case, such as `0x00AbCd`, comes out of normalizing
/// and parsing as the three fields of the number it spells, and packing
/// those gives that number back.
pub proof fn hex_spelled_version_round_trip(ds: Seq<char>, capital_x: bool)
    requires
        ds.len() > 0,
        forall|i: int| 0 <= i < ds.len() ==> #[trigger] digit_in_radix(ds[i], 16) is Some,
        hex_value(ds) <= u32::MAX,
    ensures
        ({
            let raw = seq!['0', if capital_x { 'X' } else { 'x' }] + ds;
            let p = hex_value(ds) as u32;
            &&& normalized_version(raw) == Ok::<Seq<char>, Seq<char>>(unpacked_version(p))
            &&& version_spec(unpacked_version(p)) == Ok::<Seq<u32>, PackageFault>(
                seq![p / 65536, (p / 256) % 256, p % 256],
            )
            &&& au_version_fits(seq![p / 65536, (p / 256) % 256, p % 256])
            &&& au_version_value(p / 65536, (p / 256) % 256, p % 256) == p
        }),
{
    let raw = seq!['0', if capital_x { 'X' } else { 'x' }] + ds;
    let p = hex_value(ds) as u32;
    lemma_prefixed_digits(raw, raw[1], ds);
    lemma_radix_value_hex(ds);
    let t = remove_char(trim(raw), '_');
    assert(t.len() >= 2 && t[0] == '0' && (t[1] == 'x' || t[1] == 'X'));
    assert(packed_version(raw) == Ok::<u32, ParseIntFault>(p));
    lemma_unpacked_version_parses(p);
}


/// An `--executable` override is accepted only when it is the name the
/// bundle's module gets: whenever the AU packager succeeds with one, the
/// plan copies the module to `Contents/MacOS/<executable>`.
pub proof fn executable_override_names_the_module(
    args: AuArgs,
    host: Target,
    binary: BinaryFacts,
    output: OutputFacts,
)
    requires
        args.executable is Some,
    ensures
        package_au_spec(args, host, binary, output) matches Ok(plan) ==> plan.steps.len() == 5
            && plan.steps[2] == Step::CopyBinary(MACOS_MODULE_PREFIX@ + args.executable->0@),
{
    if package_au_spec(args, host, binary, output) is Ok {
        let v = normalized_version(args.version@)->Ok_0;
        let req = au_request_view(args, v);
        assert(validated_spec(req, host, host.platform, binary, output) is Ok);
        let (path, stem, version) = validated_spec(req, host, host.platform, binary, output)->Ok_0;
        assert(host.platform == TargetPlatform::Macos);
        assert(artifact_spec(args.out@, PackageFormat::Au, TargetPlatform::Macos) == Ok::<
            (Seq<char>, Seq<char>),
            PackageFault,
        >((path, stem)));
        assert(artifact_extension(PackageFormat::Au, TargetPlatform::Macos) == "component"@);
    }
}

} // verus!
