//! How the test host finds plug-ins: extensions, bundle layouts, the
//! `Info.plist` values it reads, and AudioComponent codes.
use vstd::prelude::*;
use crate::host::{vst3_module, is_vst3_module, PluginFormat, PluginInfo};
use crate::paths::{
    file_name, is_single_path_component, path_ext, path_extension, path_file_name,
    path_file_stem, path_stem, single_normal_component,
};
use crate::text::{
    char_len, decimal, eq_ignore_ascii_case, lemma_trim_identity, push_char_at,
    push_signed_decimal, signed_decimal, str_eq, str_eq_ignore_ascii_case, trim, trim_str,
};
use crate::xml::{
    escape_char, escape_then_unescape_is_identity, xml_escaped, xml_unescape, xml_unescaped,
};
use crate::plist::{
    au_plist_tail, au_plist_text, bundle_plist_tail, bundle_plist_text, plist_identity,
    sandbox_word, standalone_plist_tail, standalone_plist_text, AU_DESCRIPTION, AU_END, AU_FACTORY,
    AU_MANUFACTURER, AU_NAME, AU_SANDBOX, AU_SUBTYPE, AU_TYPE, AU_VERSION, PLIST_AFTER_EXECUTABLE,
    PLIST_AFTER_IDENTIFIER, PLIST_BUNDLE_TYPE, PLIST_HEAD, PLIST_SHORT_VERSION,
};
use crate::packager::{
    package_spec, plan_steps, validated_spec, vst3_directory, BinaryFacts, OutputFacts, Step,
    CONTENTS_PREFIX, INFO_PLIST, MACOS_DIR, MACOS_MODULE_PREFIX,
};
use crate::request::{
    au_version_value, fourcc_ok, AuMetadataView, PackageFault, PackageFormat, RequestView, Target,
    TargetPlatform,
};
use crate::packager::{artifact_spec, au_fault, request_fault, vst3_dir_of};
use crate::text::is_ascii_graphic;

verus! {

/// Whether a path's extension is `expected`, ignoring ASCII case.
pub open spec fn has_extension_spec(path: Seq<char>, expected: Seq<char>) -> bool {
    match path_extension(path) {
        None => false,
        Some(ext) => eq_ignore_ascii_case(ext, expected),
    }
}

pub fn has_extension(path: &str, expected: &str) -> (b: bool)
    ensures
        b == has_extension_spec(path@, expected@),
{
    match path_ext(path) {
        None => false,
        Some(ext) => str_eq_ignore_ascii_case(ext.as_str(), expected),
    }
}

/// Module suffixes a CLAP bundle may hold.
pub open spec fn clap_module_extension(ext: Seq<char>) -> bool {
    eq_ignore_ascii_case(ext, "clap"@) || eq_ignore_ascii_case(ext, "dylib"@) || eq_ignore_ascii_case(
        ext,
        "so"@,
    ) || eq_ignore_ascii_case(ext, "dll"@)
}

/// Whether a file can be the module of a CLAP bundle: a known suffix in any
/// case, or no extension at all.
pub open spec fn clap_bundle_module(path: Seq<char>) -> bool {
    match path_extension(path) {
        None => file_name(path) is Some,
        Some(ext) => clap_module_extension(ext),
    }
}

pub fn is_clap_bundle_module(path: &str) -> (b: bool)
    ensures
        b == clap_bundle_module(path@),
{
    match path_ext(path) {
        None => path_file_name(path).is_some(),
        Some(ext) => {
            let e = ext.as_str();
            str_eq_ignore_ascii_case(e, "clap") || str_eq_ignore_ascii_case(e, "dylib")
                || str_eq_ignore_ascii_case(e, "so") || str_eq_ignore_ascii_case(e, "dll")
        },
    }
}

// ------------------------------------------------------------ bundle layout

/// The directory under `Contents` that holds a VST3 module for an operating
/// system and architecture, as Rust names them.
pub open spec fn vst3_directory_for(os: Seq<char>, arch: Seq<char>) -> Option<Seq<char>> {
    if os == "macos"@ {
        Some("MacOS"@)
    } else if os == "windows"@ {
        if arch == "x86"@ {
            Some("x86-win"@)
        } else if arch == "x86_64"@ {
            Some("x86_64-win"@)
        } else if arch == "aarch64"@ {
            Some("arm_64-win"@)
        } else {
            None
        }
    } else if os == "linux"@ {
        if arch == "x86"@ {
            Some("i386-linux"@)
        } else if arch == "x86_64"@ {
            Some("x86_64-linux"@)
        } else if arch == "aarch64"@ {
            Some("aarch64-linux"@)
        } else if arch == "riscv64"@ {
            Some("riscv64-linux"@)
        } else {
            None
        }
    } else {
        None
    }
}

pub fn vst3_architecture_directory(target_os: &str, target_arch: &str) -> (r: Option<&'static str>)
    ensures
        match r {
            None => vst3_directory_for(target_os@, target_arch@) is None,
            Some(d) => vst3_directory_for(target_os@, target_arch@) == Some(d@),
        },
{
    if str_eq(target_os, "macos") {
        Some("MacOS")
    } else if str_eq(target_os, "windows") {
        if str_eq(target_arch, "x86") {
            Some("x86-win")
        } else if str_eq(target_arch, "x86_64") {
            Some("x86_64-win")
        } else if str_eq(target_arch, "aarch64") {
            Some("arm_64-win")
        } else {
            None
        }
    } else if str_eq(target_os, "linux") {
        if str_eq(target_arch, "x86") {
            Some("i386-linux")
        } else if str_eq(target_arch, "x86_64") {
            Some("x86_64-linux")
        } else if str_eq(target_arch, "aarch64") {
            Some("aarch64-linux")
        } else if str_eq(target_arch, "riscv64") {
            Some("riscv64-linux")
        } else {
            None
        }
    } else {
        None
    }
}

/// The module names a VST3 bundle is expected to hold, in the order tried:
/// the bundle's stem with the platform's module suffix.
pub open spec fn preferred_module_names(bundle: Seq<char>, os: Seq<char>) -> Seq<Seq<char>> {
    match path_file_stem(bundle) {
        None => Seq::empty(),
        Some(stem) => if os == "macos"@ {
            seq![stem]
        } else if os == "windows"@ {
            seq![stem + ".vst3"@, stem + ".dll"@]
        } else if os == "linux"@ {
            seq![stem + ".so"@]
        } else {
            Seq::empty()
        },
    }
}

pub open spec fn string_seq_view(v: Seq<String>) -> Seq<Seq<char>> {
    v.map_values(|s: String| s@)
}

fn with_suffix(stem: &str, suffix: &str) -> (s: String)
    ensures
        s@ == stem@ + suffix@,
{
    let mut s = stem.to_owned();
    s.append(suffix);
    s
}

pub fn vst3_preferred_module_names(bundle: &str, target_os: &str) -> (names: Vec<String>)
    ensures
        string_seq_view(names@) == preferred_module_names(bundle@, target_os@),
{
    let mut names: Vec<String> = Vec::new();
    match path_stem(bundle) {
        None => {},
        Some(stem) => {
            let st = stem.as_str();
            if str_eq(target_os, "macos") {
                names.push(stem);
            } else if str_eq(target_os, "windows") {
                names.push(with_suffix(st, ".vst3"));
                names.push(with_suffix(st, ".dll"));
            } else if str_eq(target_os, "linux") {
                names.push(with_suffix(st, ".so"));
            }
        },
    }
    assert(string_seq_view(names@) =~= preferred_module_names(bundle@, target_os@));
    names
}

/// `Path::join` with a relative path: a separator between the two unless
/// the first is empty or already ends with one.
pub open spec fn path_join(a: Seq<char>, b: Seq<char>) -> Seq<char> {
    if a.len() == 0 {
        b
    } else if a.last() == '/' {
        a + b
    } else {
        a + "/"@ + b
    }
}

fn join_path(a: &str, b: &str) -> (s: String)
    ensures
        s@ == path_join(a@, b@),
{
    let n = char_len(a);
    let mut s = a.to_owned();
    if n > 0 && a.get_char(n - 1) != '/' {
        s.append("/");
    }
    s.append(b);
    proof {
        if n > 0 {
            assert(a@.last() == a@[n - 1]);
        }
    }
    s
}

/// Where a VST3 bundle's module is sought for an operating system and
/// architecture: its `Contents/<architecture>` directory and the preferred
/// module names; none for a platform without such a directory.
pub open spec fn vst3_search(bundle: Seq<char>, os: Seq<char>, arch: Seq<char>) -> Option<
    (Seq<char>, Seq<Seq<char>>),
> {
    match vst3_directory_for(os, arch) {
        None => None,
        Some(d) => Some(
            (path_join(path_join(bundle, "Contents"@), d), preferred_module_names(bundle, os)),
        ),
    }
}

pub fn vst3_module_search(bundle: &str, target_os: &str, target_arch: &str) -> (r: Option<
    (String, Vec<String>),
>)
    ensures
        match r {
            None => vst3_search(bundle@, target_os@, target_arch@) is None,
            Some((dir, names)) => vst3_search(bundle@, target_os@, target_arch@) == Some(
                (dir@, string_seq_view(names@)),
            ),
        },
{
    let directory = match vst3_architecture_directory(target_os, target_arch) {
        None => {
            return None;
        },
        Some(d) => d,
    };
    let contents = join_path(bundle, "Contents");
    let module_dir = join_path(contents.as_str(), directory);
    let names = vst3_preferred_module_names(bundle, target_os);
    Some((module_dir, names))
}

/// Where a CLAP bundle's module is sought: its `Contents/MacOS` directory,
/// preferring a module named after the bundle's stem.
pub open spec fn clap_search(bundle: Seq<char>) -> (Seq<char>, Seq<Seq<char>>) {
    (
        path_join(path_join(bundle, "Contents"@), "MacOS"@),
        match path_file_stem(bundle) {
            Some(stem) => seq![stem],
            None => Seq::empty(),
        },
    )
}

pub fn clap_module_search(bundle: &str) -> (r: (String, Vec<String>))
    ensures
        (r.0@, string_seq_view(r.1@)) == clap_search(bundle@),
{
    let contents = join_path(bundle, "Contents");
    let module_dir = join_path(contents.as_str(), "MacOS");
    let mut names: Vec<String> = Vec::new();
    match path_stem(bundle) {
        Some(stem) => names.push(stem),
        None => {},
    }
    assert(string_seq_view(names@) =~= clap_search(bundle@).1);
    (module_dir, names)
}

/// Which module test a bundle's files are held to.
#[derive(Copy, Clone, Debug, PartialEq, Eq, Structural)]
pub enum BundleKind {
    Vst3,
    Clap,
}

pub open spec fn bundle_module(kind: BundleKind, name: Seq<char>) -> bool {
    match kind {
        BundleKind::Vst3 => vst3_module(name),
        BundleKind::Clap => clap_bundle_module(name),
    }
}

fn is_bundle_module(kind: BundleKind, name: &str) -> (b: bool)
    ensures
        b == bundle_module(kind, name@),
{
    match kind {
        BundleKind::Vst3 => is_vst3_module(name),
        BundleKind::Clap => is_clap_bundle_module(name),
    }
}

/// The names to try inside a bundle's module directory, in order: the
/// `CFBundleExecutable` of its `Info.plist`, then the preferred names,
/// keeping only those that are a single plain path component.
pub open spec fn candidate_names(executable: Option<Seq<char>>, preferred: Seq<Seq<char>>) -> Seq<
    Seq<char>,
> {
    let all = match executable {
        Some(e) => seq![e] + preferred,
        None => preferred,
    };
    all.filter(|n: Seq<char>| single_normal_component(n))
}

pub fn module_candidates(executable: Option<String>, preferred: &Vec<String>) -> (names: Vec<
    String,
>)
    ensures
        string_seq_view(names@) == candidate_names(
            match executable {
                Some(e) => Some(e@),
                None => None,
            },
            string_seq_view(preferred@),
        ),
{
    let ghost exec_view = match &executable {
        Some(e) => Some(e@),
        None => None,
    };
    let ghost pv = string_seq_view(preferred@);
    let mut all: Vec<String> = Vec::new();
    match executable {
        Some(e) => all.push(e),
        None => {},
    }
    let mut i: usize = 0;
    while i < preferred.len()
        invariant
            i <= preferred@.len(),
            pv == string_seq_view(preferred@),
            string_seq_view(all@) == match exec_view {
                Some(e) => seq![e] + pv.take(i as int),
                None => pv.take(i as int),
            },
        decreases preferred@.len() - i,
    {
        let item = preferred[i].clone();
        let ghost before = string_seq_view(all@);
        assert(item@ == pv[i as int]);
        all.push(item);
        assert(string_seq_view(all@) =~= before.push(pv[i as int]));
        assert(pv.take(i + 1) =~= pv.take(i as int).push(pv[i as int]));
        assert(string_seq_view(all@) =~= match exec_view {
            Some(e) => seq![e] + pv.take(i + 1),
            None => pv.take(i + 1),
        });
        i = i + 1;
    }
    assert(pv.take(preferred@.len() as int) =~= pv);
    let ghost av = string_seq_view(all@);
    let mut names: Vec<String> = Vec::new();
    let mut k: usize = 0;
    while k < all.len()
        invariant
            k <= all@.len(),
            av == string_seq_view(all@),
            string_seq_view(names@) == av.take(k as int).filter(
                |n: Seq<char>| single_normal_component(n),
            ),
        decreases all@.len() - k,
    {
        let keep = is_single_path_component(all[k].as_str());
        proof {
            reveal(Seq::filter);
            assert(av.take(k + 1).drop_last() =~= av.take(k as int));
            assert(av.take(k + 1).last() == av[k as int]);
        }
        if keep {
            let item = all[k].clone();
            let ghost before = string_seq_view(names@);
            assert(item@ == av[k as int]);
            names.push(item);
            assert(string_seq_view(names@) =~= before.push(av[k as int]));
            assert(string_seq_view(names@) =~= av.take(k + 1).filter(
                |n: Seq<char>| single_normal_component(n),
            ));
        } else {
            assert(string_seq_view(names@) =~= av.take(k + 1).filter(
                |n: Seq<char>| single_normal_component(n),
            ));
        }
        k = k + 1;
    }
    assert(av.take(all@.len() as int) =~= av);
    names
}

/// The first candidate that is a file and a module of the bundle's kind.
pub open spec fn first_present_module(
    candidates: Seq<Seq<char>>,
    present: Seq<bool>,
    kind: BundleKind,
    i: int,
) -> Option<Seq<char>>
    decreases candidates.len() - i,
{
    if i < 0 || i >= candidates.len() {
        None
    } else if i < present.len() && present[i] && bundle_module(kind, candidates[i]) {
        Some(candidates[i])
    } else {
        first_present_module(candidates, present, kind, i + 1)
    }
}

/// The module a bundle's module directory holds: the first candidate name
/// that is present as a file and is a module; else, the directory's only
/// module file; else none, and none when there is no module directory.
pub open spec fn bundle_module_choice(
    is_directory: bool,
    candidates: Seq<Seq<char>>,
    present: Seq<bool>,
    listing: Option<Seq<Seq<char>>>,
    kind: BundleKind,
) -> Option<Seq<char>> {
    if !is_directory {
        None
    } else {
        match first_present_module(candidates, present, kind, 0) {
            Some(n) => Some(n),
            None => match listing {
                None => None,
                Some(files) => {
                    let modules = files.filter(|f: Seq<char>| bundle_module(kind, f));
                    if modules.len() == 1 {
                        Some(modules[0])
                    } else {
                        None
                    }
                },
            },
        }
    }
}

pub open spec fn option_string_view(o: Option<String>) -> Option<Seq<char>> {
    match o {
        Some(s) => Some(s@),
        None => None,
    }
}

pub open spec fn option_strings_view(o: Option<Vec<String>>) -> Option<Seq<Seq<char>>> {
    match o {
        Some(v) => Some(string_seq_view(v@)),
        None => None,
    }
}

/// Picks the module file of a bundle. `is_directory` says whether the
/// module directory exists, `present[i]` whether `candidates[i]` (from
/// [`module_candidates`]) is a regular file in it, and `listing` names the
/// regular files in it, if it could be read.
pub fn find_bundle_module(
    is_directory: bool,
    candidates: &Vec<String>,
    present: &Vec<bool>,
    listing: Option<Vec<String>>,
    kind: BundleKind,
) -> (r: Option<String>)
    ensures
        option_string_view(r) == bundle_module_choice(
            is_directory,
            string_seq_view(candidates@),
            present@,
            option_strings_view(listing),
            kind,
        ),
{
    if !is_directory {
        return None;
    }
    let ghost cv = string_seq_view(candidates@);
    let mut i: usize = 0;
    while i < candidates.len()
        invariant
            is_directory,
            i <= candidates@.len(),
            cv == string_seq_view(candidates@),
            first_present_module(cv, present@, kind, 0) == first_present_module(
                cv,
                present@,
                kind,
                i as int,
            ),
        decreases candidates@.len() - i,
    {
        let is_present = i < present.len() && present[i];
        if is_present && is_bundle_module(kind, candidates[i].as_str()) {
            let found = candidates[i].clone();
            assert(cv[i as int] == candidates@[i as int]@);
            assert(first_present_module(cv, present@, kind, i as int) == Some(cv[i as int]));
            return Some(found);
        }
        assert(cv[i as int] == candidates@[i as int]@);
        i = i + 1;
    }
    assert(first_present_module(cv, present@, kind, i as int) is None);
    let ghost lv = option_strings_view(listing);
    match listing {
        None => None,
        Some(files) => {
            let ghost fv = string_seq_view(files@);
            let mut found: Option<String> = None;
            let mut count: usize = 0;
            let mut k: usize = 0;
            while k < files.len()
                invariant
                    k <= files@.len(),
                    fv == string_seq_view(files@),
                    count == fv.take(k as int).filter(|f: Seq<char>| bundle_module(kind, f)).len(),
                    count <= k,
                    count >= 1 ==> found is Some && found->0@ == fv.take(k as int).filter(
                        |f: Seq<char>| bundle_module(kind, f),
                    )[0],
                decreases files@.len() - k,
            {
                proof {
                    reveal(Seq::filter);
                    assert(fv.take(k + 1).drop_last() =~= fv.take(k as int));
                    assert(fv.take(k + 1).last() == fv[k as int]);
                }
                if is_bundle_module(kind, files[k].as_str()) {
                    if count == 0 {
                        found = Some(files[k].clone());
                    }
                    count = count + 1;
                }
                k = k + 1;
            }
            assert(fv.take(files@.len() as int) =~= fv);
            if count == 1 {
                found
            } else {
                None
            }
        },
    }
}

// ------------------------------------------------------------ Info.plist

/// `pat` occurs in `hay` at char index `i`.
pub open spec fn occurs_at(hay: Seq<char>, pat: Seq<char>, i: int) -> bool {
    0 <= i && i + pat.len() <= hay.len() && hay.subrange(i, i + pat.len()) == pat
}

/// The first occurrence of `pat` in `hay` at or after `i`.
pub open spec fn find_from(hay: Seq<char>, pat: Seq<char>, i: int) -> Option<int>
    decreases hay.len() + 1 - i,
{
    if i < 0 || i + pat.len() > hay.len() {
        None
    } else if occurs_at(hay, pat, i) {
        Some(i)
    } else {
        find_from(hay, pat, i + 1)
    }
}

/// A found occurrence is an occurrence, at or after the start, with none
/// before it.
pub proof fn lemma_find_from_found(hay: Seq<char>, pat: Seq<char>, i: int)
    requires
        0 <= i,
    ensures
        find_from(hay, pat, i) matches Some(j) ==> i <= j && occurs_at(hay, pat, j) && forall|
            k: int,
        | i <= k < j ==> !occurs_at(hay, pat, k),
        find_from(hay, pat, i) is None ==> forall|k: int| i <= k ==> !occurs_at(hay, pat, k),
    decreases hay.len() + 1 - i,
{
    if !(i < 0 || i + pat.len() > hay.len()) && !occurs_at(hay, pat, i) {
        lemma_find_from_found(hay, pat, i + 1);
    }
}

/// `str::find` on the char view: where `pat` first occurs.
pub open spec fn find(hay: Seq<char>, pat: Seq<char>) -> Option<int> {
    find_from(hay, pat, 0)
}

fn occurs_at_exec(hay: &str, pat: &str, i: usize, n: usize, m: usize) -> (b: bool)
    requires
        n == hay@.len(),
        m == pat@.len(),
        i + m <= n,
    ensures
        b == occurs_at(hay@, pat@, i as int),
{
    let mut j: usize = 0;
    while j < m
        invariant
            n == hay@.len(),
            m == pat@.len(),
            i + m <= n,
            j <= m,
            forall|k: int| 0 <= k < j ==> hay@[i + k] == pat@[k],
        decreases m - j,
    {
        if hay.get_char(i + j) != pat.get_char(j) {
            assert(hay@.subrange(i as int, i + m)[j as int] != pat@[j as int]);
            return false;
        }
        j = j + 1;
    }
    assert(hay@.subrange(i as int, i + m) =~= pat@);
    true
}

/// Where `pat` first occurs in `hay`, as a char index.
pub fn find_str(hay: &str, pat: &str) -> (r: Option<usize>)
    ensures
        match r {
            None => find(hay@, pat@) is None,
            Some(i) => find(hay@, pat@) == Some(i as int),
        },
{
    let n = char_len(hay);
    let m = char_len(pat);
    if m > n {
        return None;
    }
    let last = n - m;
    let mut i: usize = 0;
    loop
        invariant
            n == hay@.len(),
            m == pat@.len(),
            last == n - m,
            i <= last,
            find(hay@, pat@) == find_from(hay@, pat@, i as int),
        decreases last - i,
    {
        if occurs_at_exec(hay, pat, i, n, m) {
            return Some(i);
        }
        if i == last {
            assert(find_from(hay@, pat@, i + 1) is None);
            return None;
        }
        i = i + 1;
    }
}

/// The `<key>` element of a key.
pub open spec fn key_tag(key: Seq<char>) -> Seq<char> {
    "<key>"@ + key + "</key>"@
}

/// The raw text of the first `<string>` element after the first `<key>`
/// element naming `key`.
pub open spec fn string_after_key(plist: Seq<char>, key: Seq<char>) -> Option<Seq<char>> {
    match find(plist, key_tag(key)) {
        None => None,
        Some(pos) => {
            let after = plist.skip(pos + key_tag(key).len());
            match find(after, "<string>"@) {
                None => None,
                Some(start) => {
                    let rest = after.skip(start + "<string>"@.len());
                    match find(rest, "</string>"@) {
                        None => None,
                        Some(end) => Some(rest.take(end)),
                    }
                },
            }
        },
    }
}

/// A key's string value with surrounding white space removed.
pub open spec fn plist_value(plist: Seq<char>, key: Seq<char>) -> Option<Seq<char>> {
    match string_after_key(plist, key) {
        None => None,
        Some(v) => Some(trim(v)),
    }
}

/// A key's string value, trimmed, with its XML entities decoded.
pub open spec fn plist_string(plist: Seq<char>, key: Seq<char>) -> Option<Seq<char>> {
    match string_after_key(plist, key) {
        None => None,
        Some(v) => Some(xml_unescaped(trim(v))),
    }
}

pub(crate) fn copy_range(s: &str, a: usize, b: usize) -> (out: String)
    requires
        a <= b <= s@.len(),
    ensures
        out@ == s@.subrange(a as int, b as int),
{
    let mut out = String::new();
    let mut i: usize = a;
    while i < b
        invariant
            a <= i <= b <= s@.len(),
            out@ == s@.subrange(a as int, i as int),
        decreases b - i,
    {
        push_char_at(&mut out, s, i);
        assert(s@.subrange(a as int, i + 1) =~= s@.subrange(a as int, i as int).push(s@[i as int]));
        i = i + 1;
    }
    out
}

fn raw_string_after_key(plist: &str, key: &str) -> (r: Option<String>)
    ensures
        option_string_view(r) == string_after_key(plist@, key@),
{
    let mut tag = String::new();
    tag.append("<key>");
    tag.append(key);
    tag.append("</key>");
    assert(tag@ =~= key_tag(key@));
    let n = char_len(plist);
    let pos = match find_str(plist, tag.as_str()) {
        None => {
            return None;
        },
        Some(p) => p,
    };
    let tag_len = char_len(tag.as_str());
    proof {
        lemma_find_from_found(plist@, tag@, 0);
    }
    let after = copy_range(plist, pos + tag_len, n);
    assert(after@ =~= plist@.skip(pos + key_tag(key@).len()));
    let open_tag = "<string>";
    let start = match find_str(after.as_str(), open_tag) {
        None => {
            return None;
        },
        Some(p) => p,
    };
    let after_len = char_len(after.as_str());
    let open_len = char_len(open_tag);
    proof {
        lemma_find_from_found(after@, open_tag@, 0);
    }
    let rest = copy_range(after.as_str(), start + open_len, after_len);
    assert(rest@ =~= after@.skip(start + "<string>"@.len()));
    let end = match find_str(rest.as_str(), "</string>") {
        None => {
            return None;
        },
        Some(e) => e,
    };
    proof {
        lemma_find_from_found(rest@, "</string>"@, 0);
    }
    let value = copy_range(rest.as_str(), 0, end);
    assert(value@ =~= rest@.take(end as int));
    Some(value)
}

/// The trimmed string value of a key, entities left as written.
pub fn extract_plist_value(plist: &str, key: &str) -> (r: Option<String>)
    ensures
        option_string_view(r) == plist_value(plist@, key@),
{
    match raw_string_after_key(plist, key) {
        None => None,
        Some(v) => Some(trim_str(v.as_str())),
    }
}

/// The trimmed string value of a key, with XML entities decoded once.
pub fn extract_plist_string(plist: &str, key: &str) -> (r: Option<String>)
    ensures
        option_string_view(r) == plist_string(plist@, key@),
{
    match raw_string_after_key(plist, key) {
        None => None,
        Some(v) => {
            let t = trim_str(v.as_str());
            Some(xml_unescape(t.as_str()))
        },
    }
}

// ------------------------------------------------------ AudioComponents

/// `s` with every leading `c` removed.
pub open spec fn trim_start_char(s: Seq<char>, c: char) -> Seq<char>
    decreases s.len(),
{
    if s.len() > 0 && s[0] == c {
        trim_start_char(s.drop_first(), c)
    } else {
        s
    }
}

/// `s` with every trailing `c` removed.
pub open spec fn trim_end_char(s: Seq<char>, c: char) -> Seq<char>
    decreases s.len(),
{
    if s.len() > 0 && s.last() == c {
        trim_end_char(s.drop_last(), c)
    } else {
        s
    }
}

/// `str::trim_matches(c)`: leading and trailing `c` removed.
pub open spec fn trim_matches_char(s: Seq<char>, c: char) -> Seq<char> {
    trim_end_char(trim_start_char(s, c), c)
}

proof fn lemma_trim_start_char_skip(s: Seq<char>, c: char, a: int)
    requires
        0 <= a <= s.len(),
        forall|j: int| 0 <= j < a ==> #[trigger] s[j] == c,
    ensures
        trim_start_char(s, c) == trim_start_char(s.skip(a), c),
    decreases a,
{
    if a > 0 {
        assert(s.drop_first().skip(a - 1) =~= s.skip(a));
        assert forall|j: int| 0 <= j < a - 1 implies #[trigger] s.drop_first()[j] == c by {
            assert(s.drop_first()[j] == s[j + 1]);
        }
        lemma_trim_start_char_skip(s.drop_first(), c, a - 1);
        assert(s[0] == c);
    } else {
        assert(s.skip(0) =~= s);
    }
}

proof fn lemma_trim_end_char_take(s: Seq<char>, c: char, b: int)
    requires
        0 <= b <= s.len(),
        forall|j: int| b <= j < s.len() ==> #[trigger] s[j] == c,
    ensures
        trim_end_char(s, c) == trim_end_char(s.take(b), c),
    decreases s.len() - b,
{
    if b < s.len() {
        assert(s.drop_last().take(b) =~= s.take(b));
        assert forall|j: int| b <= j < s.drop_last().len() implies #[trigger] s.drop_last()[j] == c by {
            assert(s.drop_last()[j] == s[j]);
        }
        assert(s[s.len() - 1] == c);
        lemma_trim_end_char_take(s.drop_last(), c, b);
    } else {
        assert(s.take(b) =~= s);
    }
}

fn trim_matches_str(s: &str, c: char) -> (out: String)
    ensures
        out@ == trim_matches_char(s@, c),
{
    let n = char_len(s);
    let mut a: usize = 0;
    while a < n && s.get_char(a) == c
        invariant
            n == s@.len(),
            a <= n,
            forall|j: int| 0 <= j < a ==> #[trigger] s@[j] == c,
        decreases n - a,
    {
        a = a + 1;
    }
    proof {
        lemma_trim_start_char_skip(s@, c, a as int);
    }
    let ghost t = s@.skip(a as int);
    assert(trim_start_char(t, c) == t);
    let mut b: usize = n;
    while b > a && s.get_char(b - 1) == c
        invariant
            n == s@.len(),
            a <= b <= n,
            t == s@.skip(a as int),
            forall|j: int| b <= j < n ==> #[trigger] s@[j] == c,
        decreases b - a,
    {
        b = b - 1;
    }
    proof {
        assert forall|j: int| b - a <= j < t.len() implies #[trigger] t[j] == c by {
            assert(t[j] == s@[j + a]);
        }
        lemma_trim_end_char_take(t, c, b - a);
        let u = t.take(b - a);
        if u.len() > 0 {
            assert(u.last() == s@[b - 1]);
        }
        assert(trim_end_char(u, c) == u);
    }
    let out = copy_range(s, a, b);
    assert(out@ =~= t.take(b - a));
    out
}

/// Four bytes read as a big-endian integer.
pub open spec fn big_endian_u32(b: Seq<u8>) -> int {
    b[0] * 16777216 + b[1] * 65536 + b[2] * 256 + b[3]
}

/// The code of a plist four-character-code string such as `'aufx'` or
/// `aufx`: quotes trimmed, exactly four bytes left, read big-endian.
pub open spec fn fourcc_value(s: Seq<char>) -> Option<u32> {
    let b = vstd::utf8::encode_utf8(trim_matches_char(s, '\''));
    if b.len() != 4 {
        None
    } else {
        Some(big_endian_u32(b) as u32)
    }
}

pub fn plist_fourcc(s: &str) -> (r: Option<u32>)
    ensures
        r == fourcc_value(s@),
{
    let t = trim_matches_str(s, '\'');
    let bytes = t.as_str().as_bytes();
    if bytes.len() != 4 {
        return None;
    }
    let v = (bytes[0] as u32) * 16777216 + (bytes[1] as u32) * 65536 + (bytes[2] as u32) * 256
        + (bytes[3] as u32);
    Some(v)
}

/// The codes of three plist four-character-code strings, if each is one.
pub open spec fn fourcc_codes(t: Seq<char>, st: Seq<char>, m: Seq<char>) -> Option<(u32, u32, u32)> {
    match (fourcc_value(t), fourcc_value(st), fourcc_value(m)) {
        (Some(a), Some(b), Some(c)) => Some((a, b, c)),
        _ => None,
    }
}

/// The type, subtype and manufacturer codes of an AU bundle's
/// `AudioComponents` entry.
pub open spec fn au_description(plist: Seq<char>) -> Option<(u32, u32, u32)> {
    match (
        plist_value(plist, "type"@),
        plist_value(plist, "subtype"@),
        plist_value(plist, "manufacturer"@),
    ) {
        (Some(t), Some(st), Some(m)) => fourcc_codes(t, st, m),
        _ => None,
    }
}

pub fn extract_au_description(plist: &str) -> (r: Option<(u32, u32, u32)>)
    ensures
        r == au_description(plist@),
{
    let type_str = match extract_plist_value(plist, "type") {
        Some(v) => v,
        None => {
            return None;
        },
    };
    let subtype_str = match extract_plist_value(plist, "subtype") {
        Some(v) => v,
        None => {
            return None;
        },
    };
    let manufacturer_str = match extract_plist_value(plist, "manufacturer") {
        Some(v) => v,
        None => {
            return None;
        },
    };
    let component_type = match plist_fourcc(type_str.as_str()) {
        Some(v) => v,
        None => {
            return None;
        },
    };
    let component_subtype = match plist_fourcc(subtype_str.as_str()) {
        Some(v) => v,
        None => {
            return None;
        },
    };
    let component_manufacturer = match plist_fourcc(manufacturer_str.as_str()) {
        Some(v) => v,
        None => {
            return None;
        },
    };
    Some((component_type, component_subtype, component_manufacturer))
}

/// The four bytes of a code, most significant first.
pub open spec fn fourcc_bytes(fourcc: u32) -> Seq<u8> {
    seq![
        (fourcc / 16777216) as u8,
        ((fourcc / 65536) % 256) as u8,
        ((fourcc / 256) % 256) as u8,
        (fourcc % 256) as u8,
    ]
}

/// Names the text that `String::from_utf8_lossy` makes of some bytes.
pub uninterp spec fn utf8_lossy(bytes: Seq<u8>) -> Seq<char>;

/// `String::from_utf8_lossy`, owned. Its result is named by `utf8_lossy`;
/// bytes that are valid UTF-8 are decoded as they are.
#[verifier::external_body]
fn lossy_string(bytes: &[u8]) -> (s: String)
    ensures
        s@ == utf8_lossy(bytes@),
        vstd::utf8::valid_utf8(bytes@) ==> s@ == vstd::utf8::decode_utf8(bytes@),
{
    String::from_utf8_lossy(bytes).into_owned()
}

/// A four-character code as text, invalid UTF-8 replaced.
pub fn fourcc_str(fourcc: u32) -> (s: String)
    ensures
        s@ == utf8_lossy(fourcc_bytes(fourcc)),
        vstd::utf8::valid_utf8(fourcc_bytes(fourcc)) ==> s@ == vstd::utf8::decode_utf8(
            fourcc_bytes(fourcc),
        ),
{
    let mut bytes: Vec<u8> = Vec::new();
    bytes.push((fourcc / 16777216) as u8);
    bytes.push(((fourcc / 65536) % 256) as u8);
    bytes.push(((fourcc / 256) % 256) as u8);
    bytes.push((fourcc % 256) as u8);
    assert(bytes@ =~= fourcc_bytes(fourcc));
    lossy_string(bytes.as_slice())
}

/// An AudioComponent found on the system: its codes and its name.
#[derive(Clone, Debug)]
pub struct AuComponent {
    pub component_type: u32,
    pub component_subtype: u32,
    pub manufacturer: u32,
    pub name: String,
}

/// The id the host gives an AU: its three codes as text, joined by `-`.
pub open spec fn au_id_text(type_text: Seq<char>, subtype_text: Seq<char>, manufacturer_text: Seq<
    char,
>) -> Seq<char> {
    type_text + "-"@ + subtype_text + "-"@ + manufacturer_text
}

pub fn au_component_id(type_text: &str, subtype_text: &str, manufacturer_text: &str) -> (s: String)
    ensures
        s@ == au_id_text(type_text@, subtype_text@, manufacturer_text@),
{
    let mut s = type_text.to_owned();
    s.append("-");
    s.append(subtype_text);
    s.append("-");
    s.append(manufacturer_text);
    s
}

/// The `aumu` type code of music devices (instruments).
pub const MUSIC_DEVICE_TYPE: u32 = 0x61756D75;

/// What the host reports of a system AudioComponent.
pub open spec fn is_au_info(info: PluginInfo, c: AuComponent) -> bool {
    &&& info.name@ == c.name@
    &&& info.vendor@ == Seq::<char>::empty()
    &&& info.version@ == Seq::<char>::empty()
    &&& info.id@ == au_id_text(
        utf8_lossy(fourcc_bytes(c.component_type)),
        utf8_lossy(fourcc_bytes(c.component_subtype)),
        utf8_lossy(fourcc_bytes(c.manufacturer)),
    )
    &&& info.path@ == Seq::<char>::empty()
    &&& info.format == PluginFormat::AU
    &&& info.class_index == 0
    &&& info.input_channels == 0
    &&& info.output_channels == 0
    &&& info.is_synth == (c.component_type == MUSIC_DEVICE_TYPE)
}

fn au_info(c: &AuComponent) -> (info: PluginInfo)
    ensures
        is_au_info(info, *c),
{
    let t = fourcc_str(c.component_type);
    let st = fourcc_str(c.component_subtype);
    let m = fourcc_str(c.manufacturer);
    let id = au_component_id(t.as_str(), st.as_str(), m.as_str());
    PluginInfo {
        name: c.name.clone(),
        vendor: String::new(),
        version: String::new(),
        id,
        path: String::new(),
        format: PluginFormat::AU,
        class_index: 0,
        input_channels: 0,
        output_channels: 0,
        is_synth: c.component_type == MUSIC_DEVICE_TYPE,
    }
}

/// The plug-in records of the AudioComponents the system lists, in order.
pub fn scan_au_system(components: &Vec<AuComponent>) -> (infos: Vec<PluginInfo>)
    ensures
        infos@.len() == components@.len(),
        forall|i: int| 0 <= i < components@.len() ==> is_au_info(#[trigger] infos@[i], components@[i]),
{
    let mut infos: Vec<PluginInfo> = Vec::new();
    let mut i: usize = 0;
    while i < components.len()
        invariant
            i <= components@.len(),
            infos@.len() == i,
            forall|j: int| 0 <= j < i ==> is_au_info(#[trigger] infos@[j], components@[j]),
        decreases components@.len() - i,
    {
        let info = au_info(&components[i]);
        infos.push(info);
        i = i + 1;
    }
    infos
}

/// The bytes of a C `char` buffer.
pub open spec fn c_char_bytes(buf: Seq<i8>) -> Seq<u8> {
    buf.map_values(|b: i8| b as u8)
}

/// Where the first NUL byte at or after `k` is, or the length if none is.
pub open spec fn nul_from(b: Seq<u8>, k: int) -> int
    decreases b.len() - k,
{
    if k < 0 || k >= b.len() {
        b.len() as int
    } else if b[k] == 0 {
        k
    } else {
        nul_from(b, k + 1)
    }
}

/// The text of a fixed-size C `char` buffer: its bytes up to the first NUL,
/// invalid UTF-8 replaced.
pub open spec fn c_text(buf: Seq<i8>) -> Seq<char> {
    let b = c_char_bytes(buf);
    utf8_lossy(b.take(nul_from(b, 0)))
}

/// The text of a fixed-size C `char` buffer, as a VST3 factory fills its
/// vendor, category and class names.
pub fn cstr_from_char8(buf: &[i8]) -> (s: String)
    ensures
        s@ == c_text(buf@),
        ({
            let b = c_char_bytes(buf@);
            let text = b.take(nul_from(b, 0));
            vstd::utf8::valid_utf8(text) ==> s@ == vstd::utf8::decode_utf8(text)
        }),
{
    let ghost b = c_char_bytes(buf@);
    let mut bytes: Vec<u8> = Vec::new();
    let mut i: usize = 0;
    while i < buf.len() && buf[i] != 0
        invariant
            i <= buf@.len(),
            b == c_char_bytes(buf@),
            bytes@ == b.take(i as int),
            nul_from(b, 0) == nul_from(b, i as int),
        decreases buf.len() - i,
    {
        let x = buf[i];
        assert(x as u8 != 0) by (bit_vector)
            requires
                x != 0,
        ;
        assert(b[i as int] == x as u8);
        bytes.push(x as u8);
        i = i + 1;
        assert(bytes@ =~= b.take(i as int));
    }
    assert(nul_from(b, i as int) == i);
    lossy_string(bytes.as_slice())
}

/// `{:?}` of signed bytes: each in decimal, `, ` between, in brackets.
pub open spec fn debug_list(b: Seq<i8>) -> Seq<char> {
    "["@ + debug_items(b) + "]"@
}

/// The items of `debug_list`.
pub open spec fn debug_items(b: Seq<i8>) -> Seq<char>
    decreases b.len(),
{
    if b.len() == 0 {
        Seq::empty()
    } else if b.len() == 1 {
        signed_decimal(b[0] as int)
    } else {
        debug_items(b.drop_last()) + ", "@ + signed_decimal(b.last() as int)
    }
}

fn debug_id(cid: &[i8; 16]) -> (s: String)
    ensures
        s@ == debug_list(cid@),
{
    let mut s = String::new();
    s.append("[");
    let mut i: usize = 0;
    while i < 16
        invariant
            i <= 16,
            cid@.len() == 16,
            s@ == "["@ + debug_items(cid@.take(i as int)),
        decreases 16 - i,
    {
        if i > 0 {
            s.append(", ");
        }
        push_signed_decimal(&mut s, cid[i] as i64);
        proof {
            let t = cid@.take(i + 1);
            assert(t.drop_last() =~= cid@.take(i as int));
            if i == 0 {
                assert(cid@.take(0) =~= Seq::<i8>::empty());
            }
        }
        i = i + 1;
    }
    s.append("]");
    assert(cid@.take(16) =~= cid@);
    s
}

/// One class that a VST3 factory lists, as its C buffers hold it.
#[derive(Clone, Debug)]
pub struct Vst3ClassInfo {
    pub cid: [i8; 16],
    pub category: Vec<i8>,
    pub name: Vec<i8>,
}

/// The category of the classes that are audio processors.
pub open spec fn audio_module_category() -> Seq<char> {
    "Audio Module Class"@
}

/// The positions of the audio-processor classes among the first `k`.
pub open spec fn audio_module_positions(classes: Seq<Vst3ClassInfo>, k: int) -> Seq<int>
    decreases k,
{
    if k <= 0 {
        Seq::empty()
    } else if c_text(classes[k - 1].category@) == audio_module_category() {
        audio_module_positions(classes, k - 1).push(k - 1)
    } else {
        audio_module_positions(classes, k - 1)
    }
}

/// The record the host makes of the audio-processor class at `index`.
pub open spec fn is_vst3_class_record(
    info: PluginInfo,
    vendor: Seq<i8>,
    class: Vst3ClassInfo,
    path: Seq<char>,
    index: int,
) -> bool {
    &&& info.name@ == c_text(class.name@)
    &&& info.vendor@ == c_text(vendor)
    &&& info.version@ == Seq::<char>::empty()
    &&& info.id@ == debug_list(class.cid@)
    &&& info.path@ == path
    &&& info.format == PluginFormat::VST3
    &&& info.class_index == index
    &&& info.input_channels == 0
    &&& info.output_channels == 0
    &&& !info.is_synth
}

/// The plug-in records of a VST3 factory's audio-processor classes, in the
/// factory's order, each with its position in the factory; buses and the
/// instrument flag come later, from loading each class.
pub fn vst3_class_records(vendor: &[i8], classes: &Vec<Vst3ClassInfo>, path: &str) -> (infos: Vec<
    PluginInfo,
>)
    requires
        classes@.len() <= i32::MAX,
    ensures
        infos@.len() == audio_module_positions(classes@, classes@.len() as int).len(),
        forall|j: int|
            0 <= j < infos@.len() ==> is_vst3_class_record(
                #[trigger] infos@[j],
                vendor@,
                classes@[audio_module_positions(classes@, classes@.len() as int)[j]],
                path@,
                audio_module_positions(classes@, classes@.len() as int)[j],
            ),
{
    proof {
        reveal_strlit("Audio Module Class");
    }
    let vendor_text = cstr_from_char8(vendor);
    let mut infos: Vec<PluginInfo> = Vec::new();
    let mut i: usize = 0;
    while i < classes.len()
        invariant
            i <= classes@.len() <= i32::MAX,
            vendor_text@ == c_text(vendor@),
            infos@.len() == audio_module_positions(classes@, i as int).len(),
            forall|k: int|
                0 <= k < audio_module_positions(classes@, i as int).len() ==> 0 <= #[trigger] audio_module_positions(
                    classes@,
                    i as int,
                )[k] < i,
            forall|j: int|
                0 <= j < infos@.len() ==> is_vst3_class_record(
                    #[trigger] infos@[j],
                    vendor@,
                    classes@[audio_module_positions(classes@, i as int)[j]],
                    path@,
                    audio_module_positions(classes@, i as int)[j],
                ),
        decreases classes@.len() - i,
    {
        let class = &classes[i];
        let category = cstr_from_char8(class.category.as_slice());
        if str_eq(category.as_str(), "Audio Module Class") {
            let name = cstr_from_char8(class.name.as_slice());
            let id = debug_id(&class.cid);
            let info = PluginInfo {
                name,
                vendor: vendor_text.clone(),
                version: String::new(),
                id,
                path: path.to_owned(),
                format: PluginFormat::VST3,
                class_index: i as u32,
                input_channels: 0,
                output_channels: 0,
                is_synth: false,
            };
            infos.push(info);
        }
        i = i + 1;
    }
    infos
}

/// Whether a component has the three codes.
pub open spec fn au_matches(c: AuComponent, t: u32, st: u32, m: u32) -> bool {
    c.component_type == t && c.component_subtype == st && c.manufacturer == m
}

/// The record of the first listed component with the three codes.
pub fn find_au_component(
    components: &Vec<AuComponent>,
    component_type: u32,
    component_subtype: u32,
    component_manufacturer: u32,
) -> (r: Option<PluginInfo>)
    ensures
        r is None <==> forall|i: int|
            0 <= i < components@.len() ==> !au_matches(
                #[trigger] components@[i],
                component_type,
                component_subtype,
                component_manufacturer,
            ),
        r matches Some(info) ==> exists|i: int|
            0 <= i < components@.len() && au_matches(
                #[trigger] components@[i],
                component_type,
                component_subtype,
                component_manufacturer,
            ) && is_au_info(info, components@[i]) && forall|j: int|
                0 <= j < i ==> !au_matches(
                    components@[j],
                    component_type,
                    component_subtype,
                    component_manufacturer,
                ),
{
    let mut i: usize = 0;
    while i < components.len()
        invariant
            i <= components@.len(),
            forall|j: int|
                0 <= j < i ==> !au_matches(
                    #[trigger] components@[j],
                    component_type,
                    component_subtype,
                    component_manufacturer,
                ),
        decreases components@.len() - i,
    {
        let c = &components[i];
        if c.component_type == component_type && c.component_subtype == component_subtype
            && c.manufacturer == component_manufacturer {
            let info = au_info(c);
            assert(au_matches(components@[i as int], component_type, component_subtype, component_manufacturer));
            return Some(info);
        }
        i = i + 1;
    }
    None
}

/// The directory a VST3 module is sought in.
pub open spec fn ok_dir(r: Result<Seq<char>, PackageFault>) -> Option<Seq<char>> {
    match r {
        Ok(d) => Some(d),
        Err(_) => None,
    }
}

/// The host looks for a VST3 module in the architecture directory that the
/// packager lays it out in: on Windows and Linux for every architecture
/// name, and on macOS in the bundle's `Contents/MacOS`.
pub proof fn vst3_directories_match_packager_layouts(arch: Seq<char>)
    ensures
        vst3_directory_for("windows"@, arch) == ok_dir(vst3_directory(TargetPlatform::Windows, arch)),
        vst3_directory_for("linux"@, arch) == ok_dir(vst3_directory(TargetPlatform::Linux, arch)),
        CONTENTS_PREFIX@ + vst3_directory_for("macos"@, arch)->0 == MACOS_DIR@,
{
    reveal_strlit("windows");
    reveal_strlit("linux");
    reveal_strlit("macos");
    reveal_strlit("MacOS");
    reveal_strlit("Contents/");
    reveal_strlit("Contents/MacOS");
    assert("windows"@[0] != "macos"@[0]);
    assert("linux"@[0] != "macos"@[0]);
    assert("linux"@[0] != "windows"@[0]);
    assert(CONTENTS_PREFIX@ + "MacOS"@ =~= MACOS_DIR@);
}

/// The operating-system name under which the host looks for a platform's
/// VST3 module.
pub open spec fn os_name(platform: TargetPlatform) -> Seq<char> {
    match platform {
        TargetPlatform::Macos => "macos"@,
        TargetPlatform::Windows => "windows"@,
        TargetPlatform::Linux => "linux"@,
    }
}

/// On Windows and Linux, every VST3 bundle the packager lays out holds its
/// module in the directory where the host looks, under the first name the
/// host looks for.
pub proof fn vst3_bundles_lead_the_host_to_their_module(
    req: RequestView,
    target: Target,
    host: TargetPlatform,
    binary: BinaryFacts,
    output: OutputFacts,
)
    requires
        req.format == PackageFormat::Vst3,
        target.platform != TargetPlatform::Macos,
    ensures
        match package_spec(req, target, host, binary, output) {
            Ok(plan) => {
                let os = os_name(target.platform);
                let dir = vst3_directory_for(os, target.architecture@)->0;
                let names = preferred_module_names(plan.output, os);
                &&& vst3_search(plan.output, os, target.architecture@) == Some(
                    (path_join(path_join(plan.output, "Contents"@), dir), names),
                )
                &&& names.len() > 0
                &&& plan.steps == seq![
                    Step::CreateDir(CONTENTS_PREFIX@ + dir),
                    Step::CopyBinary(CONTENTS_PREFIX@ + dir + "/"@ + names[0]),
                ]
            },
            Err(_) => true,
        },
{
    reveal_strlit("windows");
    reveal_strlit("linux");
    reveal_strlit("macos");
    match validated_spec(req, target, host, binary, output) {
        Err(_) => {},
        Ok((path, stem, version)) => {
            vst3_directories_match_packager_layouts(target.architecture@);
            assert(artifact_spec(req.out, req.format, target.platform) == Ok::<
                (Seq<char>, Seq<char>),
                PackageFault,
            >((path, stem)));
            assert(path_file_stem(path) == Some(stem));
            assert(vst3_directory(target.platform, target.architecture@) is Ok);
            assert("windows"@[0] != "macos"@[0]);
            assert("linux"@[0] != "macos"@[0]);
            assert("linux"@[0] != "windows"@[0]);
        },
    }
}

// ------------------------------------------------------ reading back

/// A found occurrence with none before it is what `find_from` returns.
proof fn lemma_find_from_first(h: Seq<char>, p: Seq<char>, i: int, j: int)
    requires
        0 <= i <= j,
        occurs_at(h, p, j),
        forall|k: int| i <= k < j ==> !occurs_at(h, p, k),
    ensures
        find_from(h, p, i) == Some(j),
    decreases j - i,
{
    if i < j {
        assert(!occurs_at(h, p, i));
        lemma_find_from_first(h, p, i + 1, j);
    }
}

proof fn lemma_escaped_has_no_lt(s: Seq<char>)
    ensures
        forall|i: int| 0 <= i < xml_escaped(s).len() ==> xml_escaped(s)[i] != '<',
    decreases s.len(),
{
    if s.len() > 0 {
        lemma_escaped_has_no_lt(s.drop_first());
        let e = escape_char(s[0]);
        let t = xml_escaped(s.drop_first());
        assert forall|i: int| 0 <= i < (e + t).len() implies (e + t)[i] != '<' by {
            if i >= e.len() {
                assert((e + t)[i] == t[i - e.len()]);
            }
        }
    }
}

proof fn lemma_escaped_ends(s: Seq<char>)
    requires
        s.len() > 0,
    ensures
        xml_escaped(s).len() > 0,
        xml_escaped(s)[0] == escape_char(s[0])[0],
        xml_escaped(s).last() == escape_char(s.last()).last(),
        escape_char(s[0]).len() > 0,
        escape_char(s.last()).len() > 0,
    decreases s.len(),
{
    let e = escape_char(s[0]);
    let t = xml_escaped(s.drop_first());
    assert(e.len() > 0);
    assert(escape_char(s.last()).len() > 0);
    if s.len() > 1 {
        lemma_escaped_ends(s.drop_first());
        assert(s.drop_first().last() == s.last());
        assert((e + t).last() == t.last());
    } else {
        assert(t =~= Seq::<char>::empty());
        assert(s.last() == s[0]);
        assert((e + t) =~= e);
    }
}

proof fn lemma_escape_keeps_trim(s: Seq<char>)
    requires
        trim(s) == s,
    ensures
        trim(xml_escaped(s)) == xml_escaped(s),
{
    lemma_trim_identity(s);
    lemma_trim_identity(xml_escaped(s));
    if s.len() > 0 {
        lemma_escaped_ends(s);
    } else {
        assert(xml_escaped(s) =~= Seq::<char>::empty());
    }
}

/// The host finds the module the packager named: reading
/// `CFBundleExecutable` back from a bundle property list written by the
/// packager (any of the three kinds, which all begin with the same entries)
/// gives the module's name exactly, whatever XML-special chars it holds,
/// for names without leading or trailing white space.
pub proof fn packaged_executable_reads_back(
    stem: Seq<char>,
    bundle_id: Seq<char>,
    name: Seq<char>,
    rest: Seq<char>,
)
    requires
        trim(stem) == stem,
    ensures
        plist_string(plist_identity(stem, bundle_id, name) + rest, "CFBundleExecutable"@) == Some(
            stem,
        ),
{
    reveal_strlit("<?xml version=\"1.0\" encoding=\"UTF-8\"?>\n<!DOCTYPE plist PUBLIC \"-//Apple//DTD PLIST 1.0//EN\" \"http://www.apple.com/DTDs/PropertyList-1.0.dtd\">\n<plist version=\"1.0\">\n<dict>\n    <key>CFBundleDevelopmentRegion</key>\n    <string>English</string>\n    <key>CFBundleExecutable</key>\n    <string>");
    reveal_strlit("</string>\n    <key>CFBundleIdentifier</key>\n    <string>");
    reveal_strlit("<key>");
    reveal_strlit("</key>");
    reveal_strlit("CFBundleExecutable");
    reveal_strlit("<string>");
    reveal_strlit("</string>");
    let head = PLIST_HEAD@;
    let esc = xml_escaped(stem);
    let t = plist_identity(stem, bundle_id, name) + rest;
    let tail = esc + PLIST_AFTER_EXECUTABLE@ + xml_escaped(bundle_id) + PLIST_AFTER_IDENTIFIER@
        + xml_escaped(name) + rest;
    assert(t =~= head + tail);
    assert(head.len() == 287);
    assert forall|i: int| 0 <= i < 287 implies #[trigger] t[i] == head[i] by {}
    assert(forall|j: int|
        0 <= j < head.len() - 1 && head[j] == 'E' && #[trigger] head[j + 1] == 'x' ==> j == 258);
    // The key's first occurrence is the one the packager wrote.
    let key = key_tag("CFBundleExecutable"@);
    assert(key.len() == 29);
    assert(key[13] == 'E' && key[14] == 'x');
    assert(t.subrange(245, 274) =~= key);
    assert forall|k: int| 0 <= k < 245 implies !occurs_at(t, key, k) by {
        if occurs_at(t, key, k) {
            assert(t.subrange(k, k + 29)[13] == key[13]);
            assert(t.subrange(k, k + 29)[14] == key[14]);
            assert(t[k + 13] == head[k + 13]);
            assert(t[k + 14] == head[k + 14]);
        }
    }
    lemma_find_from_first(t, key, 0, 245);
    // Then the `<string>` that follows it.
    let after = t.skip(274);
    let open = "<string>"@;
    assert(after.subrange(5, 13) =~= open) by {
        assert forall|i: int| 0 <= i < 8 implies after.subrange(5, 13)[i] == open[i] by {
            assert(after[5 + i] == t[279 + i]);
        }
    }
    assert forall|k: int| 0 <= k < 5 implies !occurs_at(after, open, k) by {
        if occurs_at(after, open, k) {
            assert(after.subrange(k, k + 8)[0] == open[0]);
            assert(after[k] == t[274 + k]);
        }
    }
    lemma_find_from_first(after, open, 0, 5);
    // The value runs to the `</string>` that ends the escaped name.
    let value_and_rest = after.skip(13);
    assert(value_and_rest =~= tail);
    let close = "</string>"@;
    lemma_escaped_has_no_lt(stem);
    assert(tail.subrange(esc.len() as int, esc.len() + 9int) =~= close);
    assert forall|k: int| 0 <= k < esc.len() implies !occurs_at(tail, close, k) by {
        if occurs_at(tail, close, k) {
            assert(tail.subrange(k, k + 9)[0] == close[0]);
            assert(tail[k] == esc[k]);
        }
    }
    lemma_find_from_first(tail, close, 0, esc.len() as int);
    assert(tail.take(esc.len() as int) =~= esc);
    assert(string_after_key(t, "CFBundleExecutable"@) == Some(esc));
    lemma_escape_keeps_trim(stem);
    escape_then_unescape_is_identity(stem);
}

/// Reading `CFBundleExecutable` back from each kind of property list the
/// packager writes gives the module name it was written with.
pub proof fn bundle_documents_name_their_module(
    stem: Seq<char>,
    bundle_id: Seq<char>,
    name: Seq<char>,
    version: Seq<char>,
    au: AuMetadataView,
    packed_version: nat,
)
    requires
        trim(stem) == stem,
    ensures
        plist_string(bundle_plist_text(stem, bundle_id, name, version), "CFBundleExecutable"@)
            == Some(stem),
        plist_string(standalone_plist_text(stem, bundle_id, name, version), "CFBundleExecutable"@)
            == Some(stem),
        plist_string(
            au_plist_text(stem, bundle_id, name, version, au, packed_version),
            "CFBundleExecutable"@,
        ) == Some(stem),
{
    packaged_executable_reads_back(stem, bundle_id, name, bundle_plist_tail(version));
    packaged_executable_reads_back(stem, bundle_id, name, standalone_plist_tail(name, version));
    packaged_executable_reads_back(
        stem,
        bundle_id,
        name,
        au_plist_tail(name, version, au, packed_version),
    );
}

/// Every macOS bundle the packager lays out copies the module to
/// `Contents/MacOS/<name>` and writes an `Info.plist` from which the host
/// reads that same name back as the bundle's executable, for names without
/// leading or trailing white space.
pub proof fn macos_bundles_lead_the_host_to_their_module(
    req: RequestView,
    target: Target,
    host: TargetPlatform,
    binary: BinaryFacts,
    output: OutputFacts,
)
    requires
        target.platform == TargetPlatform::Macos,
    ensures
        match package_spec(req, target, host, binary, output) {
            Ok(plan) => exists|name: Seq<char>|
                #![trigger MACOS_MODULE_PREFIX@ + name]
                plan.steps.len() == 5 && plan.steps[2] == Step::CopyBinary(MACOS_MODULE_PREFIX@ + name)
                    && (trim(name) == name ==> (plan.steps[3] matches Step::WriteFile(path, text)
                    && path == INFO_PLIST@ && plist_string(text, "CFBundleExecutable"@) == Some(name))),
            Err(_) => true,
        },
{
    match validated_spec(req, target, host, binary, output) {
        Err(_) => {},
        Ok((path, stem, version)) => {
            let plan = package_spec(req, target, host, binary, output)->Ok_0;
            assert(plan.steps == plan_steps(req, target, stem, version));
            if trim(stem) == stem {
                bundle_documents_name_their_module(
                    stem,
                    req.bundle_id,
                    req.name,
                    req.version,
                    req.au->0,
                    au_version_value(version[0], version[1], version[2]) as nat,
                );
            }
            assert(plan.steps.len() == 5 && plan.steps[2] == Step::CopyBinary(
                MACOS_MODULE_PREFIX@ + stem,
            ));
        },
    }
}

// ------------------------------------------------ AU registration read-back

/// No `<key>` tag naming `x` begins at `k`: `c[k]` is not `<`, or the char
/// after it, or the fifth and sixth after it, rule such a tag out.
spec fn key_guard(c: Seq<char>, k: int, x: Seq<char>) -> bool {
    c[k] != '<' || (k + 1 < c.len() && c[k + 1] != 'k') || (k + 6 < c.len() && !(c[k + 5]
        == x[0] && c[k + 6] == x[1]))
}

/// Text in which no `<key>` tag naming `x` begins, whatever follows it.
spec fn key_free(c: Seq<char>, x: Seq<char>) -> bool {
    forall|k: int| 0 <= k < c.len() ==> #[trigger] key_guard(c, k, x)
}

/// The keys under which an AU bundle registers its codes.
spec fn is_code_key(x: Seq<char>) -> bool {
    x == "type"@ || x == "subtype"@ || x == "manufacturer"@
}

proof fn lemma_key_free_concat(a: Seq<char>, b: Seq<char>, x: Seq<char>)
    requires
        key_free(a, x),
        key_free(b, x),
    ensures
        key_free(a + b, x),
{
    let c = a + b;
    assert forall|k: int| 0 <= k < c.len() implies #[trigger] key_guard(c, k, x) by {
        if k < a.len() {
            assert(key_guard(a, k, x));
        } else {
            assert(key_guard(b, k - a.len(), x));
        }
    }
}

proof fn lemma_no_lt_key_free(s: Seq<char>, x: Seq<char>)
    requires
        forall|i: int| 0 <= i < s.len() ==> s[i] != '<',
    ensures
        key_free(s, x),
{
    assert forall|k: int| 0 <= k < s.len() implies #[trigger] key_guard(s, k, x) by {}
}

proof fn lemma_escaped_key_free(s: Seq<char>, x: Seq<char>)
    ensures
        key_free(xml_escaped(s), x),
{
    lemma_escaped_has_no_lt(s);
    lemma_no_lt_key_free(xml_escaped(s), x);
}

/// In text free of tags naming `x`, no such tag begins, whatever follows.
proof fn lemma_key_not_before(pre: Seq<char>, rest: Seq<char>, x: Seq<char>)
    requires
        key_free(pre, x),
        is_code_key(x),
    ensures
        forall|k: int| 0 <= k < pre.len() ==> !occurs_at(pre + rest, key_tag(x), k),
{
    reveal_strlit("<key>");
    reveal_strlit("</key>");
    reveal_strlit("type");
    reveal_strlit("subtype");
    reveal_strlit("manufacturer");
    let t = pre + rest;
    let p = key_tag(x);
    assert(p.len() >= 7);
    assert(p[0] == '<' && p[1] == 'k' && p[5] == x[0] && p[6] == x[1]);
    assert forall|k: int| 0 <= k < pre.len() implies !occurs_at(t, p, k) by {
        assert(key_guard(pre, k, x));
        if occurs_at(t, p, k) {
            let w = t.subrange(k, k + p.len());
            assert(w[0] == t[k] && w[1] == t[k + 1] && w[5] == t[k + 5] && w[6] == t[k + 6]);
        }
    }
}

proof fn lemma_plist_head_key_free(x: Seq<char>)
    requires
        is_code_key(x),
    ensures
        key_free(PLIST_HEAD@, x),
{
    reveal_strlit("<?xml version=\"1.0\" encoding=\"UTF-8\"?>\n<!DOCTYPE plist PUBLIC \"-//Apple//DTD PLIST 1.0//EN\" \"http://www.apple.com/DTDs/PropertyList-1.0.dtd\">\n<plist version=\"1.0\">\n<dict>\n    <key>CFBundleDevelopmentRegion</key>\n    <string>English</string>\n    <key>CFBundleExecutable</key>\n    <string>");
    reveal_strlit("type");
    reveal_strlit("subtype");
    reveal_strlit("manufacturer");
    let c = PLIST_HEAD@;
    assert forall|k: int| 0 <= k < c.len() implies #[trigger] key_guard(c, k, x) by {}
}

proof fn lemma_plist_after_executable_key_free(x: Seq<char>)
    requires
        is_code_key(x),
    ensures
        key_free(PLIST_AFTER_EXECUTABLE@, x),
{
    reveal_strlit("</string>\n    <key>CFBundleIdentifier</key>\n    <string>");
    reveal_strlit("type");
    reveal_strlit("subtype");
    reveal_strlit("manufacturer");
    let c = PLIST_AFTER_EXECUTABLE@;
    assert forall|k: int| 0 <= k < c.len() implies #[trigger] key_guard(c, k, x) by {}
}

proof fn lemma_plist_after_identifier_key_free(x: Seq<char>)
    requires
        is_code_key(x),
    ensures
        key_free(PLIST_AFTER_IDENTIFIER@, x),
{
    reveal_strlit("</string>\n    <key>CFBundleInfoDictionaryVersion</key>\n    <string>6.0</string>\n    <key>CFBundleName</key>\n    <string>");
    reveal_strlit("type");
    reveal_strlit("subtype");
    reveal_strlit("manufacturer");
    let c = PLIST_AFTER_IDENTIFIER@;
    assert forall|k: int| 0 <= k < c.len() implies #[trigger] key_guard(c, k, x) by {}
}

proof fn lemma_plist_bundle_type_key_free(x: Seq<char>)
    requires
        is_code_key(x),
    ensures
        key_free(PLIST_BUNDLE_TYPE@, x),
{
    reveal_strlit("</string>\n    <key>CFBundlePackageType</key>\n    <string>BNDL</string>\n    <key>CFBundleSignature</key>\n    <string>????</string>\n    <key>CFBundleVersion</key>\n    <string>");
    reveal_strlit("type");
    reveal_strlit("subtype");
    reveal_strlit("manufacturer");
    let c = PLIST_BUNDLE_TYPE@;
    assert forall|k: int| 0 <= k < c.len() implies #[trigger] key_guard(c, k, x) by {}
}

proof fn lemma_plist_short_version_key_free(x: Seq<char>)
    requires
        is_code_key(x),
    ensures
        key_free(PLIST_SHORT_VERSION@, x),
{
    reveal_strlit("</string>\n    <key>CFBundleShortVersionString</key>\n    <string>");
    reveal_strlit("type");
    reveal_strlit("subtype");
    reveal_strlit("manufacturer");
    let c = PLIST_SHORT_VERSION@;
    assert forall|k: int| 0 <= k < c.len() implies #[trigger] key_guard(c, k, x) by {}
}

proof fn lemma_au_description_key_free(x: Seq<char>)
    requires
        is_code_key(x),
    ensures
        key_free(AU_DESCRIPTION@, x),
{
    reveal_strlit("</string>\n    <key>AudioComponents</key>\n    <array>\n        <dict>\n            <key>description</key>\n            <string>");
    reveal_strlit("type");
    reveal_strlit("subtype");
    reveal_strlit("manufacturer");
    let c = AU_DESCRIPTION@;
    assert forall|k: int| 0 <= k < c.len() implies #[trigger] key_guard(c, k, x) by {}
}

proof fn lemma_au_factory_key_free(x: Seq<char>)
    requires
        is_code_key(x),
    ensures
        key_free(AU_FACTORY@, x),
{
    reveal_strlit("</string>\n            <key>factoryFunction</key>\n            <string>");
    reveal_strlit("type");
    reveal_strlit("subtype");
    reveal_strlit("manufacturer");
    let c = AU_FACTORY@;
    assert forall|k: int| 0 <= k < c.len() implies #[trigger] key_guard(c, k, x) by {}
}

proof fn lemma_au_name_key_free(x: Seq<char>)
    requires
        is_code_key(x),
    ensures
        key_free(AU_NAME@, x),
{
    reveal_strlit("</string>\n            <key>name</key>\n            <string>");
    reveal_strlit("type");
    reveal_strlit("subtype");
    reveal_strlit("manufacturer");
    let c = AU_NAME@;
    assert forall|k: int| 0 <= k < c.len() implies #[trigger] key_guard(c, k, x) by {}
}

proof fn lemma_au_sandbox_key_free(safe: bool, x: Seq<char>)
    requires
        is_code_key(x),
    ensures
        key_free(AU_SANDBOX@ + sandbox_word(safe), x),
{
    reveal_strlit("</string>\n            <key>sandboxSafe</key>\n            <");
    reveal_strlit("true");
    reveal_strlit("false");
    reveal_strlit("type");
    reveal_strlit("subtype");
    reveal_strlit("manufacturer");
    let c = AU_SANDBOX@ + sandbox_word(safe);
    assert forall|k: int| 0 <= k < c.len() implies #[trigger] key_guard(c, k, x) by {}
}

/// What stands between a code's `<key>` tag and its value.
spec fn value_gap() -> Seq<char> {
    "\n            <string>"@
}

/// The entry registering the manufacturer code, and what precedes it.
proof fn lemma_au_manufacturer_shape(x: Seq<char>)
    requires
        is_code_key(x),
    ensures
        AU_MANUFACTURER@ == AU_MANUFACTURER@.take(22) + key_tag("manufacturer"@) + value_gap(),
        key_free(AU_MANUFACTURER@.take(22), x),
        x != "manufacturer"@ ==> key_free(AU_MANUFACTURER@, x),
{
    reveal_strlit("</string>\n            <key>manufacturer</key>\n            <string>");
    reveal_strlit("\n            <string>");
    reveal_strlit("<key>");
    reveal_strlit("</key>");
    reveal_strlit("type");
    reveal_strlit("subtype");
    reveal_strlit("manufacturer");
    assert(AU_MANUFACTURER@ =~= AU_MANUFACTURER@.take(22) + key_tag("manufacturer"@) + value_gap());
    let c = AU_MANUFACTURER@.take(22);
    assert forall|k: int| 0 <= k < c.len() implies #[trigger] key_guard(c, k, x) by {}
    if x != "manufacturer"@ {
        let d = AU_MANUFACTURER@;
        assert forall|k: int| 0 <= k < d.len() implies #[trigger] key_guard(d, k, x) by {}
    }
}

/// The entry registering the subtype code, and what precedes it.
proof fn lemma_au_subtype_shape(x: Seq<char>)
    requires
        is_code_key(x),
    ensures
        AU_SUBTYPE@ == AU_SUBTYPE@.take(15) + key_tag("subtype"@) + value_gap(),
        key_free(AU_SUBTYPE@.take(15), x),
        x == "type"@ ==> key_free(AU_SUBTYPE@, x),
{
    reveal_strlit("/>\n            <key>subtype</key>\n            <string>");
    reveal_strlit("\n            <string>");
    reveal_strlit("<key>");
    reveal_strlit("</key>");
    reveal_strlit("type");
    reveal_strlit("subtype");
    reveal_strlit("manufacturer");
    assert(AU_SUBTYPE@ =~= AU_SUBTYPE@.take(15) + key_tag("subtype"@) + value_gap());
    let c = AU_SUBTYPE@.take(15);
    assert forall|k: int| 0 <= k < c.len() implies #[trigger] key_guard(c, k, x) by {}
    if x == "type"@ {
        let d = AU_SUBTYPE@;
        assert forall|k: int| 0 <= k < d.len() implies #[trigger] key_guard(d, k, x) by {}
    }
}

/// The entry registering the type code, and what precedes it.
proof fn lemma_au_type_shape()
    ensures
        AU_TYPE@ == AU_TYPE@.take(22) + key_tag("type"@) + value_gap(),
        key_free(AU_TYPE@.take(22), "type"@),
        AU_TYPE@ == "</string>"@ + AU_TYPE@.skip(9),
{
    reveal_strlit("</string>\n            <key>type</key>\n            <string>");
    reveal_strlit("\n            <string>");
    reveal_strlit("<key>");
    reveal_strlit("</key>");
    reveal_strlit("</string>");
    reveal_strlit("type");
    assert(AU_TYPE@ =~= AU_TYPE@.take(22) + key_tag("type"@) + value_gap());
    assert(AU_TYPE@ =~= "</string>"@ + AU_TYPE@.skip(9));
    let c = AU_TYPE@.take(22);
    assert forall|k: int| 0 <= k < c.len() implies #[trigger] key_guard(c, k, "type"@) by {}
}

/// The entries after the manufacturer and the type codes close their values.
proof fn lemma_au_value_ends()
    ensures
        AU_NAME@ == "</string>"@ + AU_NAME@.skip(9),
        AU_VERSION@ == "</string>"@ + AU_VERSION@.skip(9),
{
    reveal_strlit("</string>\n            <key>name</key>\n            <string>");
    reveal_strlit("</string>\n            <key>version</key>\n            <integer>");
    reveal_strlit("</string>");
    assert(AU_NAME@ =~= "</string>"@ + AU_NAME@.skip(9));
    assert(AU_VERSION@ =~= "</string>"@ + AU_VERSION@.skip(9));
}

/// A code written under key `x` after text holding no other tag of that key
/// reads back as written, when it has nothing to escape and no surrounding
/// white space.
proof fn lemma_code_value_reads_back(pre: Seq<char>, x: Seq<char>, code: Seq<char>, rest: Seq<char>)
    requires
        key_free(pre, x),
        is_code_key(x),
        forall|i: int| 0 <= i < code.len() ==> code[i] != '<',
        trim(code) == code,
    ensures
        plist_value(pre + key_tag(x) + value_gap() + code + "</string>"@ + rest, x) == Some(code),
{
    reveal_strlit("\n            <string>");
    reveal_strlit("<string>");
    reveal_strlit("</string>");
    let p = key_tag(x);
    let open = "<string>"@;
    let close = "</string>"@;
    let t = pre + p + value_gap() + code + close + rest;
    let from_key = p + value_gap() + code + close + rest;
    assert(t =~= pre + from_key);
    lemma_key_not_before(pre, from_key, x);
    assert(t.subrange(pre.len() as int, (pre.len() + p.len()) as int) =~= p);
    lemma_find_from_first(t, p, 0, pre.len() as int);
    let after = t.skip((pre.len() + p.len()) as int);
    assert(after =~= value_gap() + code + close + rest);
    assert(after.subrange(13, 21) =~= open);
    assert forall|k: int| 0 <= k < 13 implies !occurs_at(after, open, k) by {
        if occurs_at(after, open, k) {
            assert(after.subrange(k, k + 8)[0] == after[k]);
        }
    }
    lemma_find_from_first(after, open, 0, 13);
    let value_and_rest = after.skip(21);
    assert(value_and_rest =~= code + close + rest);
    assert(value_and_rest.subrange(code.len() as int, code.len() + 9int) =~= close);
    assert forall|k: int| 0 <= k < code.len() implies !occurs_at(value_and_rest, close, k) by {
        if occurs_at(value_and_rest, close, k) {
            assert(value_and_rest.subrange(k, k + 9)[0] == value_and_rest[k]);
        }
    }
    lemma_find_from_first(value_and_rest, close, 0, code.len() as int);
    assert(value_and_rest.take(code.len() as int) =~= code);
}

/// The part of an AU bundle's `Info.plist` before its component entries.
spec fn au_head(
    stem: Seq<char>,
    bundle_id: Seq<char>,
    name: Seq<char>,
    version: Seq<char>,
    factory: Seq<char>,
) -> Seq<char> {
    PLIST_HEAD@ + xml_escaped(stem) + PLIST_AFTER_EXECUTABLE@ + xml_escaped(bundle_id)
        + PLIST_AFTER_IDENTIFIER@ + xml_escaped(name) + PLIST_BUNDLE_TYPE@ + xml_escaped(version)
        + PLIST_SHORT_VERSION@ + xml_escaped(version) + AU_DESCRIPTION@ + xml_escaped(name)
        + AU_FACTORY@ + xml_escaped(factory)
}

/// From the start of an AU bundle's `Info.plist` up to its subtype entry.
spec fn au_up_to_subtype(
    stem: Seq<char>,
    bundle_id: Seq<char>,
    name: Seq<char>,
    version: Seq<char>,
    au: AuMetadataView,
) -> Seq<char> {
    au_head(stem, bundle_id, name, version, au.factory) + AU_MANUFACTURER@ + xml_escaped(
        au.manufacturer,
    ) + AU_NAME@ + xml_escaped(name) + AU_SANDBOX@ + sandbox_word(au.sandbox_safe)
}

/// Regrouping a document laid out as `i` and then the AU tail, around the
/// manufacturer entry.
proof fn lemma_manufacturer_layout(
    i: Seq<char>,
    x8: Seq<char>,
    am: Seq<char>,
    em: Seq<char>,
    an: Seq<char>,
    en: Seq<char>,
    sb: Seq<char>,
    w: Seq<char>,
    asub: Seq<char>,
    es: Seq<char>,
    at: Seq<char>,
    et: Seq<char>,
    av: Seq<char>,
    d: Seq<char>,
    ae: Seq<char>,
    am_pre: Seq<char>,
    key: Seq<char>,
    gap: Seq<char>,
    close: Seq<char>,
    an_rest: Seq<char>,
)
    requires
        am == am_pre + key + gap,
        an == close + an_rest,
    ensures
        i + (x8 + am + em + an + en + sb + w + asub + es + at + et + av + d + ae) == (i + x8 + am_pre)
            + key + gap + em + close + (an_rest + en + sb + w + asub + es + at + et + av + d + ae),
{
    assert(i + (x8 + am + em + an + en + sb + w + asub + es + at + et + av + d + ae) =~= (i + x8
        + am_pre) + key + gap + em + close + (an_rest + en + sb + w + asub + es + at + et + av + d
        + ae));
}

/// Regrouping around the subtype entry.
proof fn lemma_subtype_layout(
    i: Seq<char>,
    x8: Seq<char>,
    am: Seq<char>,
    em: Seq<char>,
    an: Seq<char>,
    en: Seq<char>,
    sb: Seq<char>,
    w: Seq<char>,
    asub: Seq<char>,
    es: Seq<char>,
    at: Seq<char>,
    et: Seq<char>,
    av: Seq<char>,
    d: Seq<char>,
    ae: Seq<char>,
    asub_pre: Seq<char>,
    key: Seq<char>,
    gap: Seq<char>,
    close: Seq<char>,
    at_rest: Seq<char>,
)
    requires
        asub == asub_pre + key + gap,
        at == close + at_rest,
    ensures
        i + (x8 + am + em + an + en + sb + w + asub + es + at + et + av + d + ae) == (i + x8 + am + em
            + an + en + sb + w + asub_pre) + key + gap + es + close + (at_rest + et + av + d + ae),
{
    assert(i + (x8 + am + em + an + en + sb + w + asub + es + at + et + av + d + ae) =~= (i + x8
        + am + em + an + en + sb + w + asub_pre) + key + gap + es + close + (at_rest + et + av + d
        + ae));
}

/// Regrouping around the type entry.
proof fn lemma_type_layout(
    i: Seq<char>,
    x8: Seq<char>,
    am: Seq<char>,
    em: Seq<char>,
    an: Seq<char>,
    en: Seq<char>,
    sb: Seq<char>,
    w: Seq<char>,
    asub: Seq<char>,
    es: Seq<char>,
    at: Seq<char>,
    et: Seq<char>,
    av: Seq<char>,
    d: Seq<char>,
    ae: Seq<char>,
    at_pre: Seq<char>,
    key: Seq<char>,
    gap: Seq<char>,
    close: Seq<char>,
    av_rest: Seq<char>,
)
    requires
        at == at_pre + key + gap,
        av == close + av_rest,
    ensures
        i + (x8 + am + em + an + en + sb + w + asub + es + at + et + av + d + ae) == (i + x8 + am + em
            + an + en + sb + w + asub + es + at_pre) + key + gap + et + close + (av_rest + d + ae),
{
    assert(i + (x8 + am + em + an + en + sb + w + asub + es + at + et + av + d + ae) =~= (i + x8
        + am + em + an + en + sb + w + asub + es + at_pre) + key + gap + et + close + (av_rest + d
        + ae));
}

/// Regrouping the part before the component entries.
proof fn lemma_head_layout(
    i: Seq<char>,
    bt: Seq<char>,
    ev: Seq<char>,
    sv: Seq<char>,
    ad: Seq<char>,
    en: Seq<char>,
    af: Seq<char>,
    ef: Seq<char>,
)
    ensures
        i + bt + ev + sv + ev + ad + en + af + ef == i + (bt + ev + sv + ev + ad + en + af + ef),
{
    assert(i + bt + ev + sv + ev + ad + en + af + ef =~= i + (bt + ev + sv + ev + ad + en + af
        + ef));
}

/// The part of an AU bundle's `Info.plist` before its component entries is
/// the bundle identity and then the start of the AU tail.
proof fn lemma_au_head_split(
    stem: Seq<char>,
    bundle_id: Seq<char>,
    name: Seq<char>,
    version: Seq<char>,
    factory: Seq<char>,
)
    ensures
        au_head(stem, bundle_id, name, version, factory) == plist_identity(stem, bundle_id, name)
            + (PLIST_BUNDLE_TYPE@ + xml_escaped(version) + PLIST_SHORT_VERSION@ + xml_escaped(
            version,
        ) + AU_DESCRIPTION@ + xml_escaped(name) + AU_FACTORY@ + xml_escaped(factory)),
{
    lemma_head_layout(
        plist_identity(stem, bundle_id, name),
        PLIST_BUNDLE_TYPE@,
        xml_escaped(version),
        PLIST_SHORT_VERSION@,
        AU_DESCRIPTION@,
        xml_escaped(name),
        AU_FACTORY@,
        xml_escaped(factory),
    );
}

proof fn lemma_manufacturer_reads_back(
    stem: Seq<char>,
    bundle_id: Seq<char>,
    name: Seq<char>,
    version: Seq<char>,
    au: AuMetadataView,
    packed_version: nat,
)
    requires
        xml_escaped(au.manufacturer) == au.manufacturer,
        trim(au.manufacturer) == au.manufacturer,
    ensures
        plist_value(
            au_plist_text(stem, bundle_id, name, version, au, packed_version),
            "manufacturer"@,
        ) == Some(au.manufacturer),
{
    let x = "manufacturer"@;
    let t = au_plist_text(stem, bundle_id, name, version, au, packed_version);
    let i = plist_identity(stem, bundle_id, name);
    let x8 = PLIST_BUNDLE_TYPE@ + xml_escaped(version) + PLIST_SHORT_VERSION@ + xml_escaped(version)
        + AU_DESCRIPTION@ + xml_escaped(name) + AU_FACTORY@ + xml_escaped(au.factory);
    let em = xml_escaped(au.manufacturer);
    let an_rest = AU_NAME@.skip(9);
    let rest = an_rest + xml_escaped(name) + AU_SANDBOX@ + sandbox_word(au.sandbox_safe)
        + AU_SUBTYPE@ + xml_escaped(au.component_subtype) + AU_TYPE@ + xml_escaped(
        au.component_type,
    ) + AU_VERSION@ + decimal(packed_version) + AU_END@;
    let am_pre = AU_MANUFACTURER@.take(22);
    lemma_au_manufacturer_shape(x);
    lemma_au_value_ends();
    lemma_manufacturer_layout(
        i,
        x8,
        AU_MANUFACTURER@,
        em,
        AU_NAME@,
        xml_escaped(name),
        AU_SANDBOX@,
        sandbox_word(au.sandbox_safe),
        AU_SUBTYPE@,
        xml_escaped(au.component_subtype),
        AU_TYPE@,
        xml_escaped(au.component_type),
        AU_VERSION@,
        decimal(packed_version),
        AU_END@,
        am_pre,
        key_tag(x),
        value_gap(),
        "</string>"@,
        an_rest,
    );
    let pre = i + x8 + am_pre;
    assert(t == pre + key_tag(x) + value_gap() + em + "</string>"@ + rest);
    lemma_au_head_split(stem, bundle_id, name, version, au.factory);
    head_key_free(stem, bundle_id, name, version, au.factory, x);
    lemma_key_free_concat(i + x8, am_pre, x);
    lemma_escaped_has_no_lt(au.manufacturer);
    lemma_code_value_reads_back(pre, x, em, rest);
}

/// Up to the subtype entry, an AU bundle's `Info.plist` names neither the
/// subtype nor the type key.
proof fn lemma_up_to_subtype_key_free(
    stem: Seq<char>,
    bundle_id: Seq<char>,
    name: Seq<char>,
    version: Seq<char>,
    au: AuMetadataView,
    x: Seq<char>,
)
    requires
        x == "subtype"@ || x == "type"@,
    ensures
        key_free(au_up_to_subtype(stem, bundle_id, name, version, au), x),
{
    reveal_strlit("type");
    reveal_strlit("subtype");
    reveal_strlit("manufacturer");
    let head = au_head(stem, bundle_id, name, version, au.factory);
    head_key_free(stem, bundle_id, name, version, au.factory, x);
    lemma_au_manufacturer_shape(x);
    lemma_escaped_key_free(au.manufacturer, x);
    lemma_au_name_key_free(x);
    lemma_escaped_key_free(name, x);
    lemma_au_sandbox_key_free(au.sandbox_safe, x);
    let s1 = head + AU_MANUFACTURER@;
    lemma_key_free_concat(head, AU_MANUFACTURER@, x);
    let s2 = s1 + xml_escaped(au.manufacturer);
    lemma_key_free_concat(s1, xml_escaped(au.manufacturer), x);
    let s3 = s2 + AU_NAME@;
    lemma_key_free_concat(s2, AU_NAME@, x);
    let s4 = s3 + xml_escaped(name);
    lemma_key_free_concat(s3, xml_escaped(name), x);
    let sandbox = AU_SANDBOX@ + sandbox_word(au.sandbox_safe);
    lemma_key_free_concat(s4, sandbox, x);
    assert(s4 + sandbox =~= au_up_to_subtype(stem, bundle_id, name, version, au));
}

proof fn lemma_subtype_reads_back(
    stem: Seq<char>,
    bundle_id: Seq<char>,
    name: Seq<char>,
    version: Seq<char>,
    au: AuMetadataView,
    packed_version: nat,
)
    requires
        xml_escaped(au.component_subtype) == au.component_subtype,
        trim(au.component_subtype) == au.component_subtype,
    ensures
        plist_value(au_plist_text(stem, bundle_id, name, version, au, packed_version), "subtype"@)
            == Some(au.component_subtype),
{
    let x = "subtype"@;
    let t = au_plist_text(stem, bundle_id, name, version, au, packed_version);
    let i = plist_identity(stem, bundle_id, name);
    let x8 = PLIST_BUNDLE_TYPE@ + xml_escaped(version) + PLIST_SHORT_VERSION@ + xml_escaped(version)
        + AU_DESCRIPTION@ + xml_escaped(name) + AU_FACTORY@ + xml_escaped(au.factory);
    let es = xml_escaped(au.component_subtype);
    let at_rest = AU_TYPE@.skip(9);
    let rest = at_rest + xml_escaped(au.component_type) + AU_VERSION@ + decimal(packed_version)
        + AU_END@;
    let asub_pre = AU_SUBTYPE@.take(15);
    lemma_au_subtype_shape(x);
    lemma_au_type_shape();
    lemma_subtype_layout(
        i,
        x8,
        AU_MANUFACTURER@,
        xml_escaped(au.manufacturer),
        AU_NAME@,
        xml_escaped(name),
        AU_SANDBOX@,
        sandbox_word(au.sandbox_safe),
        AU_SUBTYPE@,
        es,
        AU_TYPE@,
        xml_escaped(au.component_type),
        AU_VERSION@,
        decimal(packed_version),
        AU_END@,
        asub_pre,
        key_tag(x),
        value_gap(),
        "</string>"@,
        at_rest,
    );
    let mid = i + x8 + AU_MANUFACTURER@ + xml_escaped(au.manufacturer) + AU_NAME@ + xml_escaped(
        name,
    ) + AU_SANDBOX@ + sandbox_word(au.sandbox_safe);
    let pre = mid + asub_pre;
    assert(t == pre + key_tag(x) + value_gap() + es + "</string>"@ + rest);
    lemma_au_head_split(stem, bundle_id, name, version, au.factory);
    assert(mid == au_up_to_subtype(stem, bundle_id, name, version, au));
    lemma_up_to_subtype_key_free(stem, bundle_id, name, version, au, x);
    lemma_key_free_concat(mid, asub_pre, x);
    lemma_escaped_has_no_lt(au.component_subtype);
    lemma_code_value_reads_back(pre, x, es, rest);
}

proof fn lemma_type_reads_back(
    stem: Seq<char>,
    bundle_id: Seq<char>,
    name: Seq<char>,
    version: Seq<char>,
    au: AuMetadataView,
    packed_version: nat,
)
    requires
        xml_escaped(au.component_type) == au.component_type,
        trim(au.component_type) == au.component_type,
    ensures
        plist_value(au_plist_text(stem, bundle_id, name, version, au, packed_version), "type"@)
            == Some(au.component_type),
{
    let x = "type"@;
    let t = au_plist_text(stem, bundle_id, name, version, au, packed_version);
    let i = plist_identity(stem, bundle_id, name);
    let x8 = PLIST_BUNDLE_TYPE@ + xml_escaped(version) + PLIST_SHORT_VERSION@ + xml_escaped(version)
        + AU_DESCRIPTION@ + xml_escaped(name) + AU_FACTORY@ + xml_escaped(au.factory);
    let es = xml_escaped(au.component_subtype);
    let et = xml_escaped(au.component_type);
    let av_rest = AU_VERSION@.skip(9);
    let rest = av_rest + decimal(packed_version) + AU_END@;
    let at_pre = AU_TYPE@.take(22);
    lemma_au_subtype_shape(x);
    lemma_au_type_shape();
    lemma_au_value_ends();
    lemma_type_layout(
        i,
        x8,
        AU_MANUFACTURER@,
        xml_escaped(au.manufacturer),
        AU_NAME@,
        xml_escaped(name),
        AU_SANDBOX@,
        sandbox_word(au.sandbox_safe),
        AU_SUBTYPE@,
        es,
        AU_TYPE@,
        et,
        AU_VERSION@,
        decimal(packed_version),
        AU_END@,
        at_pre,
        key_tag(x),
        value_gap(),
        "</string>"@,
        av_rest,
    );
    let mid = i + x8 + AU_MANUFACTURER@ + xml_escaped(au.manufacturer) + AU_NAME@ + xml_escaped(
        name,
    ) + AU_SANDBOX@ + sandbox_word(au.sandbox_safe);
    let pre = mid + AU_SUBTYPE@ + es + at_pre;
    assert(t == pre + key_tag(x) + value_gap() + et + "</string>"@ + rest);
    lemma_au_head_split(stem, bundle_id, name, version, au.factory);
    assert(mid == au_up_to_subtype(stem, bundle_id, name, version, au));
    lemma_up_to_subtype_key_free(stem, bundle_id, name, version, au, x);
    lemma_escaped_key_free(au.component_subtype, x);
    lemma_key_free_concat(mid, AU_SUBTYPE@, x);
    lemma_key_free_concat(mid + AU_SUBTYPE@, es, x);
    lemma_key_free_concat(mid + AU_SUBTYPE@ + es, at_pre, x);
    lemma_escaped_has_no_lt(au.component_type);
    lemma_code_value_reads_back(pre, x, et, rest);
}

/// The host finds the AudioComponent the packager registered: from an AU
/// bundle's `Info.plist` it reads back the type, subtype and manufacturer
/// codes exactly as they were written, for codes with nothing to escape and
/// no surrounding white space.
pub proof fn au_registration_reads_back(
    stem: Seq<char>,
    bundle_id: Seq<char>,
    name: Seq<char>,
    version: Seq<char>,
    au: AuMetadataView,
    packed_version: nat,
)
    requires
        xml_escaped(au.component_type) == au.component_type,
        xml_escaped(au.component_subtype) == au.component_subtype,
        xml_escaped(au.manufacturer) == au.manufacturer,
        trim(au.component_type) == au.component_type,
        trim(au.component_subtype) == au.component_subtype,
        trim(au.manufacturer) == au.manufacturer,
    ensures
        ({
            let t = au_plist_text(stem, bundle_id, name, version, au, packed_version);
            &&& plist_value(t, "type"@) == Some(au.component_type)
            &&& plist_value(t, "subtype"@) == Some(au.component_subtype)
            &&& plist_value(t, "manufacturer"@) == Some(au.manufacturer)
            &&& au_description(t) == fourcc_codes(
                au.component_type,
                au.component_subtype,
                au.manufacturer,
            )
        }),
{
    lemma_manufacturer_reads_back(stem, bundle_id, name, version, au, packed_version);
    lemma_subtype_reads_back(stem, bundle_id, name, version, au, packed_version);
    lemma_type_reads_back(stem, bundle_id, name, version, au, packed_version);
}

/// The part of an AU bundle's `Info.plist` before its component entries
/// names no code key.
proof fn head_key_free(
    stem: Seq<char>,
    bundle_id: Seq<char>,
    name: Seq<char>,
    version: Seq<char>,
    factory: Seq<char>,
    x: Seq<char>,
)
    requires
        is_code_key(x),
    ensures
        key_free(au_head(stem, bundle_id, name, version, factory), x),
{
    lemma_plist_head_key_free(x);
    lemma_plist_after_executable_key_free(x);
    lemma_plist_after_identifier_key_free(x);
    lemma_plist_bundle_type_key_free(x);
    lemma_plist_short_version_key_free(x);
    lemma_au_description_key_free(x);
    lemma_au_factory_key_free(x);
    lemma_escaped_key_free(stem, x);
    lemma_escaped_key_free(bundle_id, x);
    lemma_escaped_key_free(name, x);
    lemma_escaped_key_free(version, x);
    lemma_escaped_key_free(factory, x);
    let s1 = PLIST_HEAD@ + xml_escaped(stem);
    lemma_key_free_concat(PLIST_HEAD@, xml_escaped(stem), x);
    let s2 = s1 + PLIST_AFTER_EXECUTABLE@;
    lemma_key_free_concat(s1, PLIST_AFTER_EXECUTABLE@, x);
    let s3 = s2 + xml_escaped(bundle_id);
    lemma_key_free_concat(s2, xml_escaped(bundle_id), x);
    let s4 = s3 + PLIST_AFTER_IDENTIFIER@;
    lemma_key_free_concat(s3, PLIST_AFTER_IDENTIFIER@, x);
    let s5 = s4 + xml_escaped(name);
    lemma_key_free_concat(s4, xml_escaped(name), x);
    let s6 = s5 + PLIST_BUNDLE_TYPE@;
    lemma_key_free_concat(s5, PLIST_BUNDLE_TYPE@, x);
    let s7 = s6 + xml_escaped(version);
    lemma_key_free_concat(s6, xml_escaped(version), x);
    let s8 = s7 + PLIST_SHORT_VERSION@;
    lemma_key_free_concat(s7, PLIST_SHORT_VERSION@, x);
    let s9 = s8 + xml_escaped(version);
    lemma_key_free_concat(s8, xml_escaped(version), x);
    let s10 = s9 + AU_DESCRIPTION@;
    lemma_key_free_concat(s9, AU_DESCRIPTION@, x);
    let s11 = s10 + xml_escaped(name);
    lemma_key_free_concat(s10, xml_escaped(name), x);
    let s12 = s11 + AU_FACTORY@;
    lemma_key_free_concat(s11, AU_FACTORY@, x);
    lemma_key_free_concat(s12, xml_escaped(factory), x);
}

/// A char that XML escaping replaces.
pub open spec fn xml_special(c: char) -> bool {
    c == '&' || c == '<' || c == '>' || c == '"' || c == '\''
}

/// A code with no char that XML escaping replaces.
pub open spec fn plain_code(code: Seq<char>) -> bool {
    forall|i: int| 0 <= i < code.len() ==> !xml_special(#[trigger] code[i])
}

/// A code as the host reads it from a bundle: its four bytes, big-endian.
pub open spec fn code_value(code: Seq<char>) -> u32 {
    big_endian_u32(vstd::utf8::encode_utf8(code)) as u32
}

proof fn lemma_plain_escapes_to_itself(s: Seq<char>)
    requires
        plain_code(s),
    ensures
        xml_escaped(s) == s,
    decreases s.len(),
{
    if s.len() > 0 {
        assert(!xml_special(s[0]));
        assert forall|i: int| 0 <= i < s.drop_first().len() implies !xml_special(
            #[trigger] s.drop_first()[i],
        ) by {
            assert(s.drop_first()[i] == s[i + 1]);
        }
        lemma_plain_escapes_to_itself(s.drop_first());
        assert(escape_char(s[0]) == seq![s[0]]);
        assert(xml_escaped(s) =~= seq![s[0]] + s.drop_first());
    }
}

/// Text whose UTF-8 bytes are all printable ASCII is printable ASCII, one
/// byte per char.
proof fn lemma_graphic_encoding(s: Seq<char>)
    requires
        forall|i: int|
            0 <= i < vstd::utf8::encode_utf8(s).len() ==> is_ascii_graphic(
                #[trigger] vstd::utf8::encode_utf8(s)[i],
            ),
    ensures
        vstd::utf8::encode_utf8(s).len() == s.len(),
        forall|i: int| 0 <= i < s.len() ==> 0x21 <= #[trigger] (s[i] as u32) <= 0x7e,
    decreases s.len(),
{
    if s.len() > 0 {
        let v = s[0] as u32;
        vstd::utf8::char_is_scalar(s[0]);
        let e = vstd::utf8::encode_scalar(v);
        let rest = vstd::utf8::encode_utf8(s.drop_first());
        assert(vstd::utf8::encode_utf8(s) == e + rest);
        assert(e.len() > 0);
        assert(is_ascii_graphic((e + rest)[0]));
        assert(e[0] == (e + rest)[0]);
        if vstd::utf8::has_width_2_encoding(v) {
            let b = vstd::utf8::leading_byte_width_2(v);
            assert(b >= 0xc0) by (bit_vector)
                requires
                    b == (0xC0 | ((v >> 6) & 0x1F) as u8),
            ;
        } else if vstd::utf8::has_width_3_encoding(v) {
            let b = vstd::utf8::leading_byte_width_3(v);
            assert(b >= 0xe0) by (bit_vector)
                requires
                    b == (0xE0 | ((v >> 12) & 0x0F) as u8),
            ;
        } else if !vstd::utf8::has_width_1_encoding(v) {
            let b = vstd::utf8::leading_byte_width_4(v);
            assert(b >= 0xf0) by (bit_vector)
                requires
                    b == (0xF0 | ((v >> 18) & 0x7) as u8),
            ;
        }
        assert(vstd::utf8::has_width_1_encoding(v));
        let b = vstd::utf8::leading_byte_width_1(v);
        assert(b == v) by (bit_vector)
            requires
                b == (v & 0x7F) as u8,
                v <= 0x7f,
        ;
        assert forall|i: int| 0 <= i < rest.len() implies is_ascii_graphic(#[trigger] rest[i]) by {
            assert(rest[i] == (e + rest)[i + 1]);
        }
        lemma_graphic_encoding(s.drop_first());
        assert forall|i: int| 0 <= i < s.len() implies 0x21 <= #[trigger] (s[i] as u32) <= 0x7e by {
            if i > 0 {
                assert(s[i] == s.drop_first()[i - 1]);
            }
        }
    }
}

/// A valid code with nothing to escape reads back as its own value.
proof fn lemma_valid_code_reads(code: Seq<char>)
    requires
        fourcc_ok(vstd::utf8::encode_utf8(code)),
        plain_code(code),
    ensures
        xml_escaped(code) == code,
        trim(code) == code,
        fourcc_value(code) == Some(code_value(code)),
{
    lemma_plain_escapes_to_itself(code);
    lemma_graphic_encoding(code);
    assert(code.len() == 4);
    assert(0x21 <= code[0] as u32 <= 0x7e);
    assert(0x21 <= code[3] as u32 <= 0x7e);
    lemma_trim_identity(code);
    assert(!xml_special(code[0]) && !xml_special(code[3]));
    assert(trim_start_char(code, '\'') == code);
    assert(code.last() == code[3]);
    assert(trim_end_char(code, '\'') == code);
}

/// An AU package registers the component its request describes: the
/// `Info.plist` the plan writes gives the host back the request's type,
/// subtype and manufacturer codes, for codes with nothing to escape.
pub proof fn au_packages_register_their_codes(
    req: RequestView,
    target: Target,
    host: TargetPlatform,
    binary: BinaryFacts,
    output: OutputFacts,
)
    requires
        req.format == PackageFormat::Au,
        req.au matches Some(a) ==> plain_code(a.component_type) && plain_code(a.component_subtype)
            && plain_code(a.manufacturer),
    ensures
        match package_spec(req, target, host, binary, output) {
            Ok(plan) => plan.steps.len() == 5 && (plan.steps[3] matches Step::WriteFile(path, text)
                && path == INFO_PLIST@ && au_description(text) == Some(
                (
                    code_value(req.au->0.component_type),
                    code_value(req.au->0.component_subtype),
                    code_value(req.au->0.manufacturer),
                ),
            )),
            Err(_) => true,
        },
{
    match validated_spec(req, target, host, binary, output) {
        Err(_) => {},
        Ok((path, stem, version)) => {
            assert(request_fault(req, target, host) is None);
            assert(au_fault(req.au, target.platform, version) is None);
            let a = req.au->0;
            lemma_valid_code_reads(a.component_type);
            lemma_valid_code_reads(a.component_subtype);
            lemma_valid_code_reads(a.manufacturer);
            au_registration_reads_back(
                stem,
                req.bundle_id,
                req.name,
                req.version,
                a,
                au_version_value(version[0], version[1], version[2]) as nat,
            );
        },
    }
}

} // verus!
