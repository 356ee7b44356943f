//! Escaping text for HTML and decoding the entities that escaping produces.
use vstd::prelude::*;

use crate::text::{matches_at, push_str, string_from_chars, to_chars, matches_at_exec};

verus! {

/// What one character becomes when it is escaped for HTML.
pub open spec fn escape_char(c: char) -> Seq<char> {
    if c == '&' {
        "&amp;"@
    } else if c == '<' {
        "&lt;"@
    } else if c == '>' {
        "&gt;"@
    } else if c == '"' {
        "&quot;"@
    } else {
        seq![c]
    }
}

/// `s` with `&`, `<`, `>` and `"` replaced by their entities.
pub open spec fn escape(s: Seq<char>) -> Seq<char>
    decreases s.len(),
{
    if s.len() == 0 {
        Seq::empty()
    } else {
        escape_char(s[0]) + escape(s.drop_first())
    }
}

/// `s` with the entities `&amp;`, `&lt;`, `&gt;`, `&quot;`, `&#39;` and
/// `&#x27;` decoded in one left-to-right pass; any other `&` stays as it is.
pub open spec fn decode(s: Seq<char>) -> Seq<char>
    decreases s.len(),
{
    proof {
        reveal_strlit("&amp;");
        reveal_strlit("&lt;");
        reveal_strlit("&gt;");
        reveal_strlit("&quot;");
        reveal_strlit("&#39;");
        reveal_strlit("&#x27;");
    }
    if s.len() == 0 {
        Seq::empty()
    } else if s[0] != '&' {
        seq![s[0]] + decode(s.drop_first())
    } else if "&amp;"@.is_prefix_of(s) {
        seq!['&'] + decode(s.skip(5))
    } else if "&lt;"@.is_prefix_of(s) {
        seq!['<'] + decode(s.skip(4))
    } else if "&gt;"@.is_prefix_of(s) {
        seq!['>'] + decode(s.skip(4))
    } else if "&quot;"@.is_prefix_of(s) {
        seq!['"'] + decode(s.skip(6))
    } else if "&#39;"@.is_prefix_of(s) {
        seq!['\''] + decode(s.skip(5))
    } else if "&#x27;"@.is_prefix_of(s) {
        seq!['\''] + decode(s.skip(6))
    } else {
        seq!['&'] + decode(s.drop_first())
    }
}

/// Append the escaped form of `s` to `out`.
fn push_escaped(out: &mut Vec<char>, s: &Vec<char>)
    ensures
        final(out)@ == old(out)@ + escape(s@),
{
    let ghost start = out@;
    let mut i: usize = 0;
    assert(s@.skip(0) =~= s@);
    while i < s.len()
        invariant
            i <= s.len(),
            start + escape(s@) == out@ + escape(s@.skip(i as int)),
        decreases s.len() - i,
    {
        let c = s[i];
        proof {
            assert(s@.skip(i as int).drop_first() == s@.skip(i + 1));
            assert(escape(s@.skip(i as int)) == escape_char(c) + escape(s@.skip(i + 1)));
        }
        if c == '&' {
            push_str(out, "&amp;");
        } else if c == '<' {
            push_str(out, "&lt;");
        } else if c == '>' {
            push_str(out, "&gt;");
        } else if c == '"' {
            push_str(out, "&quot;");
        } else {
            out.push(c);
            proof {
                assert(escape_char(c) == seq![c]);
            }
        }
        i = i + 1;
    }
    proof {
        assert(escape(s@.skip(i as int)) =~= Seq::<char>::empty());
    }
}

/// Escape special HTML characters in a plain-text value.
pub fn escape_html(s: &str) -> (r: String)
    ensures
        r@ == escape(s@),
{
    let chars = to_chars(s);
    let mut out: Vec<char> = Vec::new();
    push_escaped(&mut out, &chars);
    string_from_chars(&out)
}

/// Escape `s` as a character vector.
pub fn escape_chars(s: &Vec<char>) -> (r: Vec<char>)
    ensures
        r@ == escape(s@),
{
    let mut out: Vec<char> = Vec::new();
    push_escaped(&mut out, s);
    out
}

/// Encode a string for safe use as an HTML attribute value.
pub fn html_encode_attr(s: &str) -> (r: String)
    ensures
        r@ == escape(s@),
{
    escape_html(s)
}

/// Decode the entities `&amp;`, `&lt;`, `&gt;`, `&quot;`, `&#39;` and
/// `&#x27;` in a single pass, so that `&amp;lt;` becomes `&lt;`.
pub fn decode_chars(s: &Vec<char>) -> (r: Vec<char>)
    ensures
        r@ == decode(s@),
{
    let amp = to_chars("&amp;");
    let lt = to_chars("&lt;");
    let gt = to_chars("&gt;");
    let quot = to_chars("&quot;");
    let apos = to_chars("&#39;");
    let apos_hex = to_chars("&#x27;");
    let mut out: Vec<char> = Vec::new();
    let mut i: usize = 0;
    proof {
        reveal_strlit("&amp;");
        reveal_strlit("&lt;");
        reveal_strlit("&gt;");
        reveal_strlit("&quot;");
        reveal_strlit("&#39;");
        reveal_strlit("&#x27;");
        assert(s@.skip(0) =~= s@);
    }
    while i < s.len()
        invariant
            i <= s.len(),
            amp@ == "&amp;"@,
            lt@ == "&lt;"@,
            gt@ == "&gt;"@,
            quot@ == "&quot;"@,
            apos@ == "&#39;"@,
            apos_hex@ == "&#x27;"@,
            decode(s@) == out@ + decode(s@.skip(i as int)),
        decreases s.len() - i,
    {
        let ghost rest = s@.skip(i as int);
        proof {
            reveal_strlit("&amp;");
            reveal_strlit("&lt;");
            reveal_strlit("&gt;");
            reveal_strlit("&quot;");
            reveal_strlit("&#39;");
            reveal_strlit("&#x27;");
            assert(rest.drop_first() == s@.skip(i + 1));
            assert forall|p: Seq<char>| matches_at(s@, p, i as int) <==> p.is_prefix_of(rest) by {
                if p.is_prefix_of(rest) {
                    assert(s@.subrange(i as int, i + p.len()) =~= rest.subrange(0, p.len() as int));
                }
                if matches_at(s@, p, i as int) {
                    assert(s@.subrange(i as int, i + p.len()) =~= rest.subrange(0, p.len() as int));
                }
            }
        }
        let c = s[i];
        if c != '&' {
            out.push(c);
            i = i + 1;
        } else if matches_at_exec(s, &amp, i) {
            out.push('&');
            proof {
                assert(rest.skip(5) =~= s@.skip(i + 5));
            }
            i = i + 5;
        } else if matches_at_exec(s, &lt, i) {
            out.push('<');
            proof {
                assert(rest.skip(4) =~= s@.skip(i + 4));
            }
            i = i + 4;
        } else if matches_at_exec(s, &gt, i) {
            out.push('>');
            proof {
                assert(rest.skip(4) =~= s@.skip(i + 4));
            }
            i = i + 4;
        } else if matches_at_exec(s, &quot, i) {
            out.push('"');
            proof {
                assert(rest.skip(6) =~= s@.skip(i + 6));
            }
            i = i + 6;
        } else if matches_at_exec(s, &apos, i) {
            out.push('\'');
            proof {
                assert(rest.skip(5) =~= s@.skip(i + 5));
            }
            i = i + 5;
        } else if matches_at_exec(s, &apos_hex, i) {
            out.push('\'');
            proof {
                assert(rest.skip(6) =~= s@.skip(i + 6));
            }
            i = i + 6;
        } else {
            out.push('&');
            i = i + 1;
        }
    }
    proof {
        assert(s@.skip(i as int) =~= Seq::<char>::empty());
    }
    out
}

/// Decode a small set of HTML entities (see [`decode_chars`]).
pub fn html_decode(s: &str) -> (r: String)
    ensures
        r@ == decode(s@),
{
    let chars = to_chars(s);
    let out = decode_chars(&chars);
    string_from_chars(&out)
}

proof fn lemma_decode_escape_char(c: char, t: Seq<char>)
    ensures
        decode(escape_char(c) + t) == seq![c] + decode(t),
{
    reveal_strlit("&amp;");
    reveal_strlit("&lt;");
    reveal_strlit("&gt;");
    reveal_strlit("&quot;");
    reveal_strlit("&#39;");
    reveal_strlit("&#x27;");
    let u = escape_char(c) + t;
    if c == '&' {
        assert("&amp;"@.is_prefix_of(u));
        assert(u.skip(5) =~= t);
    } else if c == '<' {
        assert(!"&amp;"@.is_prefix_of(u)) by {
            if "&amp;"@.is_prefix_of(u) {
                assert(u.subrange(0, 5)[1] == u[1]);
            }
        }
        assert("&lt;"@.is_prefix_of(u));
        assert(u.skip(4) =~= t);
    } else if c == '>' {
        assert(!"&amp;"@.is_prefix_of(u)) by {
            if "&amp;"@.is_prefix_of(u) {
                assert(u.subrange(0, 5)[1] == u[1]);
            }
        }
        assert(!"&lt;"@.is_prefix_of(u)) by {
            if "&lt;"@.is_prefix_of(u) {
                assert(u.subrange(0, 4)[1] == u[1]);
            }
        }
        assert("&gt;"@.is_prefix_of(u));
        assert(u.skip(4) =~= t);
    } else if c == '"' {
        assert(!"&amp;"@.is_prefix_of(u)) by {
            if "&amp;"@.is_prefix_of(u) {
                assert(u.subrange(0, 5)[1] == u[1]);
            }
        }
        assert(!"&lt;"@.is_prefix_of(u)) by {
            if "&lt;"@.is_prefix_of(u) {
                assert(u.subrange(0, 4)[1] == u[1]);
            }
        }
        assert(!"&gt;"@.is_prefix_of(u)) by {
            if "&gt;"@.is_prefix_of(u) {
                assert(u.subrange(0, 4)[1] == u[1]);
            }
        }
        assert("&quot;"@.is_prefix_of(u));
        assert(u.skip(6) =~= t);
    } else {
        assert(u.drop_first() =~= t);
    }
}

/// Decoding undoes escaping: for every text `s`, decoding the escaped
/// (attribute-encoded) form of `s` gives back `s`.
pub proof fn lemma_decode_inverts_escape(s: Seq<char>)
    ensures
        decode(escape(s)) == s,
    decreases s.len(),
{
    if s.len() == 0 {
    } else {
        lemma_decode_escape_char(s[0], escape(s.drop_first()));
        lemma_decode_inverts_escape(s.drop_first());
        assert(seq![s[0]] + s.drop_first() =~= s);
    }
}

} // verus!
