//! The five predefined XML entities: escaping for the plists the packager
//! writes, and decoding for the plists the plug-in scanner reads.
use vstd::prelude::*;
use crate::text::{char_len, push_char_at};

verus! {

pub open spec fn amp_entity() -> Seq<char> {
    seq!['&', 'a', 'm', 'p', ';']
}

pub open spec fn lt_entity() -> Seq<char> {
    seq!['&', 'l', 't', ';']
}

pub open spec fn gt_entity() -> Seq<char> {
    seq!['&', 'g', 't', ';']
}

pub open spec fn quot_entity() -> Seq<char> {
    seq!['&', 'q', 'u', 'o', 't', ';']
}

pub open spec fn apos_entity() -> Seq<char> {
    seq!['&', 'a', 'p', 'o', 's', ';']
}

/// The escaped form of one char.
pub open spec fn escape_char(c: char) -> Seq<char> {
    if c == '&' {
        amp_entity()
    } else if c == '<' {
        lt_entity()
    } else if c == '>' {
        gt_entity()
    } else if c == '"' {
        quot_entity()
    } else if c == '\'' {
        apos_entity()
    } else {
        seq![c]
    }
}

/// `s` with `&`, `<`, `>`, `"` and `'` replaced by their entities.
pub open spec fn xml_escaped(s: Seq<char>) -> Seq<char>
    decreases s.len(),
{
    if s.len() == 0 {
        Seq::empty()
    } else {
        escape_char(s[0]) + xml_escaped(s.drop_first())
    }
}

/// `s` with each of the five entities decoded once, scanning left to right;
/// anything else, unknown entities included, is kept as it is.
pub open spec fn xml_unescaped(s: Seq<char>) -> Seq<char>
    decreases s.len(),
{
    if s.len() == 0 {
        Seq::empty()
    } else if amp_entity().is_prefix_of(s) {
        seq!['&'] + xml_unescaped(s.skip(5))
    } else if lt_entity().is_prefix_of(s) {
        seq!['<'] + xml_unescaped(s.skip(4))
    } else if gt_entity().is_prefix_of(s) {
        seq!['>'] + xml_unescaped(s.skip(4))
    } else if quot_entity().is_prefix_of(s) {
        seq!['"'] + xml_unescaped(s.skip(6))
    } else if apos_entity().is_prefix_of(s) {
        seq!['\''] + xml_unescaped(s.skip(6))
    } else {
        seq![s[0]] + xml_unescaped(s.drop_first())
    }
}

/// Escapes the XML special characters of `value`.
pub fn xml_escape(value: &str) -> (out: String)
    ensures
        out@ == xml_escaped(value@),
{
    let n = char_len(value);
    let mut out = String::new();
    let mut i: usize = 0;
    assert(value@.skip(0) =~= value@);
    while i < n
        invariant
            n == value@.len(),
            i <= n,
            out@ + xml_escaped(value@.skip(i as int)) == xml_escaped(value@),
        decreases n - i,
    {
        proof {
            reveal_strlit("&amp;");
            reveal_strlit("&lt;");
            reveal_strlit("&gt;");
            reveal_strlit("&quot;");
            reveal_strlit("&apos;");
        }
        let ghost before = out@;
        let c = value.get_char(i);
        if c == '&' {
            out.append("&amp;");
        } else if c == '<' {
            out.append("&lt;");
        } else if c == '>' {
            out.append("&gt;");
        } else if c == '"' {
            out.append("&quot;");
        } else if c == '\'' {
            out.append("&apos;");
        } else {
            push_char_at(&mut out, value, i);
        }
        proof {
            let rest = value@.skip(i as int);
            assert(rest[0] == c);
            assert(rest.drop_first() =~= value@.skip(i + 1));
            assert(out@ =~= before + escape_char(c));
            assert(xml_escaped(rest) == escape_char(c) + xml_escaped(value@.skip(i + 1)));
            assert(out@ + xml_escaped(value@.skip(i + 1)) =~= before + xml_escaped(rest));
        }
        i = i + 1;
    }
    assert(value@.skip(n as int) =~= Seq::<char>::empty());
    assert(out@ + xml_escaped(value@.skip(n as int)) =~= out@);
    out
}

/// Whether `pat` occurs in `s` starting at char `i`.
fn has_prefix_at(s: &str, n: usize, i: usize, pat: &str) -> (b: bool)
    requires
        n == s@.len(),
        i <= n,
    ensures
        b == pat@.is_prefix_of(s@.skip(i as int)),
{
    let m = char_len(pat);
    if m > n - i {
        return false;
    }
    let mut k: usize = 0;
    while k < m
        invariant
            m == pat@.len(),
            n == s@.len(),
            i <= n,
            m <= n - i,
            k <= m,
            forall|j: int| 0 <= j < k ==> pat@[j] == s@[i + j],
        decreases m - k,
    {
        if pat.get_char(k) != s.get_char(i + k) {
            assert(s@.skip(i as int)[k as int] == s@[i + k]);
            return false;
        }
        k = k + 1;
    }
    assert(s@.skip(i as int).take(m as int) =~= pat@);
    true
}

/// Decodes the five predefined XML entities of `value` once.
pub fn xml_unescape(value: &str) -> (out: String)
    ensures
        out@ == xml_unescaped(value@),
{
    let n = char_len(value);
    let mut out = String::new();
    let mut i: usize = 0;
    assert(value@.skip(0) =~= value@);
    while i < n
        invariant
            n == value@.len(),
            i <= n,
            out@ + xml_unescaped(value@.skip(i as int)) == xml_unescaped(value@),
        decreases n - i,
    {
        proof {
            reveal_strlit("&amp;");
            reveal_strlit("&lt;");
            reveal_strlit("&gt;");
            reveal_strlit("&quot;");
            reveal_strlit("&apos;");
            reveal_strlit("&");
            reveal_strlit("<");
            reveal_strlit(">");
            reveal_strlit("\"");
            reveal_strlit("'");
        }
        let ghost before = out@;
        let ghost rest = value@.skip(i as int);
        let step: usize;
        if has_prefix_at(value, n, i, "&amp;") {
            out.append("&");
            step = 5;
        } else if has_prefix_at(value, n, i, "&lt;") {
            out.append("<");
            step = 4;
        } else if has_prefix_at(value, n, i, "&gt;") {
            out.append(">");
            step = 4;
        } else if has_prefix_at(value, n, i, "&quot;") {
            out.append("\"");
            step = 6;
        } else if has_prefix_at(value, n, i, "&apos;") {
            out.append("'");
            step = 6;
        } else {
            push_char_at(&mut out, value, i);
            step = 1;
            assert(rest.drop_first() =~= rest.skip(1));
        }
        proof {
            assert(step <= rest.len());
            assert(rest.skip(step as int) =~= value@.skip(i + step));
            assert(out@ + xml_unescaped(value@.skip(i + step)) =~= before + xml_unescaped(rest));
        }
        i = i + step;
    }
    assert(value@.skip(n as int) =~= Seq::<char>::empty());
    assert(out@ + xml_unescaped(value@.skip(n as int)) =~= out@);
    out
}

/// Decoding undoes escaping: the plists the packager writes are read back by
/// the scanner with every value exactly as it was written.
pub proof fn escape_then_unescape_is_identity(s: Seq<char>)
    ensures
        xml_unescaped(xml_escaped(s)) == s,
    decreases s.len(),
{
    if s.len() > 0 {
        let c = s[0];
        let t = xml_escaped(s.drop_first());
        let e = escape_char(c);
        escape_then_unescape_is_identity(s.drop_first());
        let w = e + t;
        assert(xml_escaped(s) == w);
        if c == '&' {
            assert(amp_entity().is_prefix_of(w)) by {
                assert(w.take(5) =~= amp_entity());
            }
            assert(w.skip(5) =~= t);
        } else if c == '<' {
            assert(!amp_entity().is_prefix_of(w)) by {
                assert(w[1] == 'l');
            }
            assert(lt_entity().is_prefix_of(w)) by {
                assert(w.take(4) =~= lt_entity());
            }
            assert(w.skip(4) =~= t);
        } else if c == '>' {
            assert(!amp_entity().is_prefix_of(w)) by {
                assert(w[1] == 'g');
            }
            assert(!lt_entity().is_prefix_of(w)) by {
                assert(w[1] == 'g');
            }
            assert(gt_entity().is_prefix_of(w)) by {
                assert(w.take(4) =~= gt_entity());
            }
            assert(w.skip(4) =~= t);
        } else if c == '"' {
            assert(!amp_entity().is_prefix_of(w)) by {
                assert(w[1] == 'q');
            }
            assert(!lt_entity().is_prefix_of(w)) by {
                assert(w[1] == 'q');
            }
            assert(!gt_entity().is_prefix_of(w)) by {
                assert(w[1] == 'q');
            }
            assert(quot_entity().is_prefix_of(w)) by {
                assert(w.take(6) =~= quot_entity());
            }
            assert(w.skip(6) =~= t);
        } else if c == '\'' {
            assert(!amp_entity().is_prefix_of(w)) by {
                assert(w[2] == 'p');
            }
            assert(!lt_entity().is_prefix_of(w)) by {
                assert(w[1] == 'a');
            }
            assert(!gt_entity().is_prefix_of(w)) by {
                assert(w[1] == 'a');
            }
            assert(!quot_entity().is_prefix_of(w)) by {
                assert(w[1] == 'a');
            }
            assert(apos_entity().is_prefix_of(w)) by {
                assert(w.take(6) =~= apos_entity());
            }
            assert(w.skip(6) =~= t);
        } else {
            assert(w[0] == c);
            assert(!amp_entity().is_prefix_of(w)) by {
                assert(amp_entity()[0] == '&');
            }
            assert(!lt_entity().is_prefix_of(w)) by {
                assert(lt_entity()[0] == '&');
            }
            assert(!gt_entity().is_prefix_of(w)) by {
                assert(gt_entity()[0] == '&');
            }
            assert(!quot_entity().is_prefix_of(w)) by {
                assert(quot_entity()[0] == '&');
            }
            assert(!apos_entity().is_prefix_of(w)) by {
                assert(apos_entity()[0] == '&');
            }
            assert(w.drop_first() =~= t);
        }
        assert(seq![c] + s.drop_first() =~= s);
    }
}

} // verus!
