//! File names, stems and extensions of `/`-separated paths, with the
//! component rules of `std::path` on Unix: repeated separators and `.`
//! components after the first are ignored, and `..` is not a file name.
use vstd::prelude::*;
use crate::text::{char_len, push_char_at};

verus! {

/// The path with trailing separators and trailing `.` components removed.
pub open spec fn strip_tail(s: Seq<char>) -> Seq<char>
    decreases s.len(),
{
    if s.len() > 0 && s.last() == '/' {
        strip_tail(s.drop_last())
    } else if s.len() >= 2 && s[s.len() - 2] == '/' && s.last() == '.' {
        strip_tail(s.take(s.len() - 2))
    } else {
        s
    }
}

/// Where the last component of `t` starts: just after its last `/`.
pub open spec fn last_part_start(t: Seq<char>) -> int
    decreases t.len(),
{
    if t.len() == 0 {
        0
    } else if t.last() == '/' {
        t.len() as int
    } else {
        last_part_start(t.drop_last())
    }
}

/// The start and end of the file name within the path, if it has one.
pub open spec fn file_name_span(s: Seq<char>) -> Option<(int, int)> {
    let t = strip_tail(s);
    let start = last_part_start(t);
    let name = t.subrange(start, t.len() as int);
    if name.len() == 0 || name == seq!['.'] || name == seq!['.', '.'] {
        None
    } else {
        Some((start, t.len() as int))
    }
}

/// `Path::file_name`.
pub open spec fn file_name(s: Seq<char>) -> Option<Seq<char>> {
    match file_name_span(s) {
        None => None,
        Some((a, b)) => Some(s.subrange(a, b)),
    }
}

/// The index of the last `.` in a name.
pub open spec fn last_dot(name: Seq<char>) -> Option<int>
    decreases name.len(),
{
    if name.len() == 0 {
        None
    } else if name.last() == '.' {
        Some(name.len() - 1)
    } else {
        last_dot(name.drop_last())
    }
}

/// The extension of a file name: what follows its last `.`, unless that dot
/// is the name's first char.
pub open spec fn name_extension(name: Seq<char>) -> Option<Seq<char>> {
    match last_dot(name) {
        None => None,
        Some(i) => if i == 0 {
            None
        } else {
            Some(name.skip(i + 1))
        },
    }
}

/// The stem of a file name: the name without its extension and the dot.
pub open spec fn name_stem(name: Seq<char>) -> Seq<char> {
    match last_dot(name) {
        None => name,
        Some(i) => if i == 0 {
            name
        } else {
            name.take(i)
        },
    }
}

/// `Path::extension`.
pub open spec fn path_extension(s: Seq<char>) -> Option<Seq<char>> {
    match file_name(s) {
        None => None,
        Some(n) => name_extension(n),
    }
}

/// `Path::file_stem`.
pub open spec fn path_file_stem(s: Seq<char>) -> Option<Seq<char>> {
    match file_name(s) {
        None => None,
        Some(n) => Some(name_stem(n)),
    }
}

/// `PathBuf::set_extension`: the path cut right after the file stem, then
/// `.` and the extension unless it is empty; unchanged without a file name.
pub open spec fn set_extension(s: Seq<char>, ext: Seq<char>) -> Seq<char> {
    match file_name_span(s) {
        None => s,
        Some((a, b)) => {
            let kept = s.take(a + name_stem(s.subrange(a, b)).len());
            if ext.len() == 0 {
                kept
            } else {
                kept + seq!['.'] + ext
            }
        },
    }
}

/// `Path::with_extension`: the old extension, if any, is cut from the end
/// of the path (its dot stays), and the extension is then set on what is
/// left.
pub open spec fn with_extension(s: Seq<char>, ext: Seq<char>) -> Seq<char> {
    match path_extension(s) {
        None => set_extension(s, ext),
        Some(old) => set_extension(s.take(s.len() - old.len()), ext),
    }
}

proof fn lemma_strip_tail_prefix(s: Seq<char>)
    ensures
        strip_tail(s).len() <= s.len(),
        strip_tail(s) == s.take(strip_tail(s).len() as int),
    decreases s.len(),
{
    if s.len() > 0 && s.last() == '/' {
        lemma_strip_tail_prefix(s.drop_last());
        assert(s.drop_last().take(strip_tail(s).len() as int) =~= s.take(strip_tail(s).len() as int));
    } else if s.len() >= 2 && s[s.len() - 2] == '/' && s.last() == '.' {
        lemma_strip_tail_prefix(s.take(s.len() - 2));
        assert(s.take(s.len() - 2).take(strip_tail(s).len() as int) =~= s.take(strip_tail(s).len() as int));
    } else {
        assert(s.take(s.len() as int) =~= s);
    }
}

proof fn lemma_last_part_start_bounds(t: Seq<char>)
    ensures
        0 <= last_part_start(t) <= t.len(),
        forall|i: int| last_part_start(t) <= i < t.len() ==> t[i] != '/',
    decreases t.len(),
{
    if t.len() > 0 && t.last() != '/' {
        lemma_last_part_start_bounds(t.drop_last());
        assert forall|i: int| last_part_start(t) <= i < t.len() implies t[i] != '/' by {
            if i < t.len() - 1 {
                assert(t[i] == t.drop_last()[i]);
            }
        }
    }
}

/// The length of the path with its tail stripped.
fn stripped_len(s: &str, n: usize) -> (m: usize)
    requires
        n == s@.len(),
    ensures
        m == strip_tail(s@).len(),
        m <= n,
{
    let mut m = n;
    proof {
        lemma_strip_tail_prefix(s@);
        assert(s@.take(n as int) =~= s@);
    }
    while m > 0
        invariant
            m <= n,
            n == s@.len(),
            strip_tail(s@) == strip_tail(s@.take(m as int)),
        decreases m,
    {
        let t = Ghost(s@.take(m as int));
        if s.get_char(m - 1) == '/' {
            assert(t@.drop_last() =~= s@.take(m - 1));
            m = m - 1;
        } else if m >= 2 && s.get_char(m - 2) == '/' && s.get_char(m - 1) == '.' {
            assert(t@.take(t@.len() - 2) =~= s@.take(m - 2));
            m = m - 2;
        } else {
            return m;
        }
    }
    m
}

/// Where the last component of the first `m` chars starts.
fn part_start(s: &str, m: usize) -> (a: usize)
    requires
        m <= s@.len(),
    ensures
        a == last_part_start(s@.take(m as int)),
        a <= m,
{
    let mut k = m;
    while k > 0
        invariant
            k <= m <= s@.len(),
            last_part_start(s@.take(m as int)) == last_part_start(s@.take(k as int)),
        decreases k,
    {
        if s.get_char(k - 1) == '/' {
            return k;
        }
        assert(s@.take(k as int).drop_last() =~= s@.take(k - 1));
        k = k - 1;
    }
    k
}

/// The span of the file name within `s`, if it has one.
pub fn file_name_range(s: &str) -> (r: Option<(usize, usize)>)
    ensures
        match r {
            None => file_name_span(s@) is None,
            Some((a, b)) => file_name_span(s@) == Some((a as int, b as int)) && a <= b <= s@.len(),
        },
{
    let n = char_len(s);
    let m = stripped_len(s, n);
    proof {
        lemma_strip_tail_prefix(s@);
    }
    let a = part_start(s, m);
    let ghost t = strip_tail(s@);
    assert(t == s@.take(m as int));
    let len = m - a;
    let ghost name = t.subrange(a as int, m as int);
    if len == 0 {
        return None;
    }
    if len == 1 && s.get_char(a) == '.' {
        assert(name =~= seq!['.']);
        return None;
    }
    if len == 2 && s.get_char(a) == '.' && s.get_char(a + 1) == '.' {
        assert(name =~= seq!['.', '.']);
        return None;
    }
    assert(name.len() == len);
    assert(name != seq!['.']) by {
        if len == 1 {
            assert(name[0] == s@[a as int]);
        }
    }
    assert(name != seq!['.', '.']) by {
        if len == 2 {
            assert(name[0] == s@[a as int]);
            assert(name[1] == s@[a + 1]);
        }
    }
    Some((a, m))
}

/// The last `.` among chars `a..b`, as an index into `s`.
fn last_dot_in(s: &str, a: usize, b: usize) -> (r: Option<usize>)
    requires
        a <= b <= s@.len(),
    ensures
        match r {
            None => last_dot(s@.subrange(a as int, b as int)) is None,
            Some(i) => a <= i < b && last_dot(s@.subrange(a as int, b as int)) == Some(
                i - a,
            ),
        },
{
    let mut k = b;
    while k > a
        invariant
            a <= k <= b <= s@.len(),
            last_dot(s@.subrange(a as int, b as int)) == last_dot(s@.subrange(a as int, k as int)),
        decreases k - a,
    {
        if s.get_char(k - 1) == '.' {
            return Some(k - 1);
        }
        assert(s@.subrange(a as int, k as int).drop_last() =~= s@.subrange(a as int, k - 1));
        k = k - 1;
    }
    None
}

/// Copies chars `a..b` of `s`.
pub fn substring(s: &str, a: usize, b: usize) -> (out: String)
    requires
        a <= b <= s@.len(),
    ensures
        out@ == s@.subrange(a as int, b as int),
{
    let mut out = String::new();
    let mut i = a;
    while i < b
        invariant
            a <= i <= b <= s@.len(),
            out@ == s@.subrange(a as int, i as int),
        decreases b - i,
    {
        push_char_at(&mut out, s, i);
        assert(s@.subrange(a as int, i + 1) =~= s@.subrange(a as int, i as int).push(s@[i as int]));
        i = i + 1;
    }
    out
}

/// `Path::file_name`.
pub fn path_file_name(s: &str) -> (r: Option<String>)
    ensures
        match r {
            None => file_name(s@) is None,
            Some(v) => file_name(s@) == Some(v@),
        },
{
    match file_name_range(s) {
        None => None,
        Some((a, b)) => Some(substring(s, a, b)),
    }
}

/// `Path::extension`.
pub fn path_ext(s: &str) -> (r: Option<String>)
    ensures
        match r {
            None => path_extension(s@) is None,
            Some(v) => path_extension(s@) == Some(v@),
        },
{
    match file_name_range(s) {
        None => None,
        Some((a, b)) => match last_dot_in(s, a, b) {
            None => None,
            Some(i) => {
                if i == a {
                    None
                } else {
                    let e = substring(s, i + 1, b);
                    assert(s@.subrange(a as int, b as int).skip(i - a + 1) =~= s@.subrange(
                        i + 1,
                        b as int,
                    ));
                    Some(e)
                }
            },
        },
    }
}

/// `Path::file_stem`.
pub fn path_stem(s: &str) -> (r: Option<String>)
    ensures
        match r {
            None => path_file_stem(s@) is None,
            Some(v) => path_file_stem(s@) == Some(v@),
        },
{
    match file_name_range(s) {
        None => None,
        Some((a, b)) => match last_dot_in(s, a, b) {
            Some(i) => {
                if i == a {
                    Some(substring(s, a, b))
                } else {
                    assert(s@.subrange(a as int, b as int).take(i - a) =~= s@.subrange(
                        a as int,
                        i as int,
                    ));
                    Some(substring(s, a, i))
                }
            },
            None => Some(substring(s, a, b)),
        },
    }
}

/// `PathBuf::set_extension`, on a copy.
fn path_set_extension(s: &str, ext: &str) -> (r: String)
    ensures
        r@ == set_extension(s@, ext@),
{
    match file_name_range(s) {
        None => substring_all(s),
        Some((a, b)) => {
            let stem_end = match last_dot_in(s, a, b) {
                Some(i) => if i == a {
                    b
                } else {
                    i
                },
                None => b,
            };
            proof {
                let name = s@.subrange(a as int, b as int);
                assert(a + name_stem(name).len() == stem_end);
            }
            let mut out = substring(s, 0, stem_end);
            assert(out@ =~= s@.take(stem_end as int));
            if char_len(ext) > 0 {
                proof {
                    reveal_strlit(".");
                }
                out.append(".");
                out.append(ext);
            }
            out
        },
    }
}

/// `Path::with_extension`.
pub fn path_with_extension(s: &str, ext: &str) -> (r: String)
    ensures
        r@ == with_extension(s@, ext@),
{
    match file_name_range(s) {
        None => path_set_extension(s, ext),
        Some((a, b)) => match last_dot_in(s, a, b) {
            Some(i) => {
                if i == a {
                    path_set_extension(s, ext)
                } else {
                    let n = char_len(s);
                    let old_len = b - (i + 1);
                    proof {
                        let name = s@.subrange(a as int, b as int);
                        assert(name.skip(i - a + 1).len() == old_len);
                    }
                    let cut = substring(s, 0, n - old_len);
                    assert(cut@ =~= s@.take(s@.len() - old_len));
                    path_set_extension(cut.as_str(), ext)
                }
            },
            None => path_set_extension(s, ext),
        },
    }
}

fn substring_all(s: &str) -> (out: String)
    ensures
        out@ == s@,
{
    let n = char_len(s);
    let out = substring(s, 0, n);
    assert(s@.subrange(0, n as int) =~= s@);
    out
}

/// A path that is exactly one normal component: a single name that is not
/// `.` or `..`, with nothing before it but possibly trailing separators and
/// `.` components.
pub open spec fn single_normal_component(s: Seq<char>) -> bool {
    match file_name_span(s) {
        None => false,
        Some((a, b)) => a == 0,
    }
}

/// `Path::components` yields exactly one `Normal` component.
pub fn is_single_path_component(value: &str) -> (r: bool)
    ensures
        r == single_normal_component(value@),
{
    match file_name_range(value) {
        None => false,
        Some((a, _)) => a == 0,
    }
}

// ------------------------------------------------------------ parent directory

/// The directory an artifact at `s` is published into: `Path::parent` (the
/// path without its last component, trailing separators and `.`
/// components trimmed; the root itself where only the root is left), and
/// `.` where that is empty or there is no parent.
pub open spec fn parent_dir(s: Seq<char>) -> Seq<char> {
    let t = strip_tail(s);
    if t.len() == 0 {
        "."@
    } else {
        let p = t.take(last_part_start(t));
        let q = strip_tail(p);
        if q.len() > 0 {
            q
        } else if p.len() > 0 && p[0] == '/' {
            "/"@
        } else {
            "."@
        }
    }
}

/// The directory an artifact is published into.
pub fn output_parent(output: &str) -> (parent: String)
    ensures
        parent@ == parent_dir(output@),
{
    let n = char_len(output);
    let m = stripped_len(output, n);
    proof {
        lemma_strip_tail_prefix(output@);
    }
    if m == 0 {
        return ".".to_string();
    }
    let k = part_start(output, m);
    let p = substring(output, 0, k);
    let ghost t = strip_tail(output@);
    assert(t == output@.take(m as int));
    assert(p@ =~= t.take(k as int));
    let m2 = stripped_len(p.as_str(), k);
    proof {
        lemma_strip_tail_prefix(p@);
    }
    if m2 > 0 {
        let q = substring(p.as_str(), 0, m2);
        assert(q@ =~= strip_tail(p@));
        return q;
    }
    if k > 0 && p.as_str().get_char(0) == '/' {
        "/".to_string()
    } else {
        ".".to_string()
    }
}

// ------------------------------------------------------------ extensions set

/// The last component starts at any `k` that follows a separator (or is the
/// start) and has no separator after it.
proof fn lemma_last_part_start_at(t: Seq<char>, k: int)
    requires
        0 <= k <= t.len(),
        k == 0 || t[k - 1] == '/',
        forall|j: int| k <= j < t.len() ==> t[j] != '/',
    ensures
        last_part_start(t) == k,
    decreases t.len(),
{
    if t.len() > 0 && t.last() != '/' {
        assert(k < t.len());
        assert forall|j: int| k <= j < t.drop_last().len() implies t.drop_last()[j] != '/' by {
            assert(t.drop_last()[j] == t[j]);
        }
        if k > 0 {
            assert(t.drop_last()[k - 1] == t[k - 1]);
        }
        lemma_last_part_start_at(t.drop_last(), k);
    } else if t.len() > 0 {
        assert(k == t.len());
    }
}

proof fn lemma_last_part_start_follows_separator(t: Seq<char>)
    ensures
        last_part_start(t) == 0 || t[last_part_start(t) - 1] == '/',
    decreases t.len(),
{
    if t.len() > 0 && t.last() != '/' {
        lemma_last_part_start_follows_separator(t.drop_last());
        lemma_last_part_start_bounds(t.drop_last());
        let k = last_part_start(t);
        if k > 0 {
            assert(t[k - 1] == t.drop_last()[k - 1]);
        }
    }
}

proof fn lemma_last_dot_bounds(name: Seq<char>)
    ensures
        last_dot(name) matches Some(i) ==> 0 <= i < name.len() && name[i] == '.',
    decreases name.len(),
{
    if name.len() > 0 && name.last() != '.' {
        lemma_last_dot_bounds(name.drop_last());
        if let Some(i) = last_dot(name.drop_last()) {
            assert(name.drop_last()[i] == name[i]);
        }
    }
}

/// The last dot of `p.y` with no dot in `y` is the one before `y`.
proof fn lemma_last_dot_before(p: Seq<char>, y: Seq<char>)
    requires
        forall|i: int| 0 <= i < y.len() ==> y[i] != '.',
    ensures
        last_dot(p + seq!['.'] + y) == Some(p.len() as int),
    decreases y.len(),
{
    let x = p + seq!['.'] + y;
    if y.len() > 0 {
        assert(x.last() == y.last());
        assert(x.drop_last() =~= p + seq!['.'] + y.drop_last());
        lemma_last_dot_before(p, y.drop_last());
    } else {
        assert(x.last() == '.');
    }
}

/// Setting a non-empty extension without dots or separators on a path that
/// has a file name gives a path whose extension is that extension.
pub proof fn set_extension_gives_the_extension(s: Seq<char>, ext: Seq<char>)
    requires
        file_name(s) is Some,
        ext.len() > 0,
        forall|i: int| 0 <= i < ext.len() ==> ext[i] != '.' && ext[i] != '/',
    ensures
        path_extension(set_extension(s, ext)) == Some(ext),
{
    let u = strip_tail(s);
    lemma_strip_tail_prefix(s);
    lemma_last_part_start_bounds(u);
    lemma_last_part_start_follows_separator(u);
    let a = last_part_start(u);
    let b = u.len() as int;
    let name = s.subrange(a, b);
    assert(name =~= u.subrange(a, b));
    let stem = name_stem(name);
    lemma_last_dot_bounds(name);
    assert(stem.len() > 0 && stem =~= name.take(stem.len() as int));
    let kept = s.take(a + stem.len());
    let n = kept + seq!['.'] + ext;
    assert(set_extension(s, ext) == n);
    // The new path ends in the extension, so nothing is stripped from it.
    assert(n.last() == ext.last());
    if n.len() >= 2 && n[n.len() - 2] == '/' {
        assert(n.last() != '.');
    }
    assert(strip_tail(n) == n);
    // Its last component starts where the old one did.
    assert forall|j: int| a <= j < n.len() implies n[j] != '/' by {
        if j < a + stem.len() {
            assert(n[j] == stem[j - a]);
            assert(stem[j - a] == u[j]);
        } else if j > a + stem.len() {
            assert(n[j] == ext[j - a - stem.len() - 1]);
        }
    }
    if a > 0 {
        assert(n[a - 1] == u[a - 1]);
    }
    lemma_last_part_start_at(n, a);
    let new_name = n.subrange(a, n.len() as int);
    assert(new_name =~= stem + seq!['.'] + ext);
    assert(new_name.len() >= 2);
    if new_name.len() == 2 {
        assert(new_name[1] == ext[0]);
    }
    assert(file_name(n) == Some(new_name));
    assert forall|i: int| 0 <= i < ext.len() implies ext[i] != '.' by {}
    lemma_last_dot_before(stem, ext);
    assert(new_name.skip(stem.len() + 1int) =~= ext);
}

} // verus!
