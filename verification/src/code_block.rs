//! Wrapping rendered `<pre>` blocks in a toolbar with copy buttons.
use vstd::prelude::*;

use crate::copy_clean::{strip_comment_chars, stripped, supported_language, supported_language_chars};
use crate::html::{decode, decode_chars, escape, escape_chars};
use crate::text::{
    find, find_exec, find_from, find_from_exec, lemma_find_from_some, lemma_find_skip, push_chars,
    push_range, push_str, slice_chars, to_chars,
};

verus! {

/// The language named by `class="language-LANG"` inside a `<pre>` block.
pub open spec fn block_lang(block: Seq<char>) -> Option<Seq<char>> {
    match find(block, "class=\"language-"@) {
        None => None,
        Some(p) => {
            let after = block.skip(p + "class=\"language-"@.len());
            match find(after, "\""@) {
                None => None,
                Some(e) => Some(after.take(e)),
            }
        },
    }
}

/// The (still entity-encoded) code between the `<code…>` tag and `</code>`.
pub open spec fn block_code(block: Seq<char>) -> Seq<char> {
    match find(block, ">"@) {
        None => Seq::empty(),
        Some(g1) => {
            let a = block.skip(g1 + 1);
            match find(a, ">"@) {
                None => Seq::empty(),
                Some(g2) => {
                    let b = a.skip(g2 + 1);
                    match find(b, "</code>"@) {
                        None => Seq::empty(),
                        Some(e) => b.take(e),
                    }
                },
            }
        },
    }
}

/// The toolbar wrapper for one `<pre>…</pre>` block: a "Copy" button, and for
/// supported languages also a "Copy clean" button with the comment-free code
/// in a `data-clean-code` attribute.
pub open spec fn wrap_block(block: Seq<char>) -> Seq<char> {
    match block_lang(block) {
        Some(l) if supported_language(l) => "<div class=\"mark-code-block\" data-clean-code=\""@
            + escape(stripped(l, decode(block_code(block)))) + CLEAN_TOOLBAR@ + block
            + "\n</div>"@,
        _ => PLAIN_TOOLBAR@ + block + "\n</div>"@,
    }
}

/// `html` with every `<pre>…</pre>` block wrapped by [`wrap_block`]; a
/// `<pre>` without a closing `</pre>` ends the processing.
pub open spec fn with_code_toolbars(html: Seq<char>) -> Seq<char>
    decreases html.len(),
{
    proof {
        reveal_strlit("<pre>");
        reveal_strlit("</pre>");
    }
    match find(html, "<pre>"@) {
        None => html,
        Some(ps) => {
            let rest = html.skip(ps);
            match find(rest, "</pre>"@) {
                None => html,
                Some(pe) => {
                    proof {
                        lemma_find_from_some(html, "<pre>"@, 0);
                        lemma_find_from_some(rest, "</pre>"@, 0);
                    }
                    html.take(ps) + wrap_block(rest.take(pe + 6)) + with_code_toolbars(
                        rest.skip(pe + 6),
                    )
                },
            }
        },
    }
}

/// The end of the wrapper tag and the toolbar with both copy buttons.
pub const CLEAN_TOOLBAR: &'static str = "\">\n<div class=\"mark-code-toolbar\">\n<button class=\"mark-btn mark-copy-btn\" type=\"button\">&#x1F4CB; Copy</button>\n<button class=\"mark-btn mark-copy-clean-btn\" type=\"button\">&#x1F9F9; Copy clean</button>\n</div>\n";

/// The wrapper tag and the toolbar with the plain copy button.
pub const PLAIN_TOOLBAR: &'static str = "<div class=\"mark-code-block\">\n<div class=\"mark-code-toolbar\">\n<button class=\"mark-btn mark-copy-btn\" type=\"button\">&#x1F4CB; Copy</button>\n</div>\n";

fn block_lang_exec(block: &Vec<char>) -> (r: Option<Vec<char>>)
    ensures
        r matches Some(l) ==> block_lang(block@) == Some(l@),
        r is None ==> block_lang(block@) is None,
{
    let marker = to_chars("class=\"language-");
    match find_exec(block, &marker) {
        None => None,
        Some(p) => {
            proof {
                lemma_find_from_some(block@, marker@, 0);
                assert(find_from(block@, marker@, 0) == Some(p as int));
                assert(crate::text::matches_at(block@, marker@, p as int));
                assert(p + marker@.len() <= block@.len());
                assert(block@.len() == block.len());
                assert(marker@.len() == marker.len());
            }
            let start = p + marker.len();
            let quote = to_chars("\"");
            let found = find_from_exec(block, &quote, start);
            proof {
                lemma_find_skip(block@, quote@, start as int);
                lemma_find_from_some(block@, quote@, start as int);
            }
            match found {
                None => None,
                Some(e) => {
                    let l = slice_chars(block, start, e);
                    proof {
                        assert(block@.skip(start as int).take(e - start) =~= l@);
                    }
                    Some(l)
                },
            }
        },
    }
}

fn block_code_exec(block: &Vec<char>) -> (r: Vec<char>)
    ensures
        r@ == block_code(block@),
{
    let gt = to_chars(">");
    let end_code = to_chars("</code>");
    proof {
        reveal_strlit(">");
        lemma_find_from_some(block@, gt@, 0);
    }
    let g1 = match find_exec(block, &gt) {
        None => {
            return Vec::new();
        },
        Some(g) => g,
    };
    assert(crate::text::matches_at(block@, gt@, g1 as int));
    assert(g1 + gt@.len() <= block@.len());
    assert(block@.len() == block.len());
    let a_start = g1 + 1;
    let ghost a = block@.skip(a_start as int);
    let g2 = find_from_exec(block, &gt, a_start);
    proof {
        lemma_find_skip(block@, gt@, a_start as int);
        lemma_find_from_some(block@, gt@, a_start as int);
    }
    let g2 = match g2 {
        None => {
            return Vec::new();
        },
        Some(g) => g,
    };
    assert(crate::text::matches_at(block@, gt@, g2 as int));
    assert(g2 + gt@.len() <= block@.len());
    assert(block@.len() == block.len());
    let b_start = g2 + 1;
    proof {
        assert(a.skip(g2 - a_start + 1) =~= block@.skip(b_start as int));
    }
    let e = find_from_exec(block, &end_code, b_start);
    proof {
        lemma_find_skip(block@, end_code@, b_start as int);
        lemma_find_from_some(block@, end_code@, b_start as int);
    }
    match e {
        None => Vec::new(),
        Some(e) => {
            let code = slice_chars(block, b_start, e);
            proof {
                assert(block@.skip(b_start as int).take(e - b_start) =~= code@);
            }
            code
        },
    }
}

/// Append the toolbar wrapper of `block` to `out`.
fn push_wrapped_block(out: &mut Vec<char>, block: &Vec<char>)
    ensures
        final(out)@ == old(out)@ + wrap_block(block@),
{
    match block_lang_exec(block) {
        Some(l) => {
            if supported_language_chars(&l) {
                let code = block_code_exec(block);
                let decoded = decode_chars(&code);
                let cleaned = strip_comment_chars(&l, &decoded);
                let encoded = escape_chars(&cleaned);
                push_str(out, "<div class=\"mark-code-block\" data-clean-code=\"");
                push_chars(out, &encoded);
                push_str(out, CLEAN_TOOLBAR);
                push_chars(out, block);
                push_str(out, "\n</div>");
                return;
            }
        },
        None => {},
    }
    push_str(out, PLAIN_TOOLBAR);
    push_chars(out, block);
    push_str(out, "\n</div>");
}

/// Wrap every `<pre>…</pre>` block of `html` in a toolbar div with copy
/// buttons; for supported languages a `data-clean-code` attribute and a
/// second "Copy clean" button are added.
pub fn post_process_code_blocks(html: &Vec<char>) -> (r: Vec<char>)
    ensures
        r@ == with_code_toolbars(html@),
{
    let open = to_chars("<pre>");
    let close = to_chars("</pre>");
    let mut out: Vec<char> = Vec::new();
    let mut pos: usize = 0;
    proof {
        assert(html@.skip(0) =~= html@);
        reveal_strlit("<pre>");
        assert(with_code_toolbars(Seq::<char>::empty()) == Seq::<char>::empty());
    }
    while pos < html.len()
        invariant
            pos <= html.len(),
            with_code_toolbars(Seq::<char>::empty()) == Seq::<char>::empty(),
            pos == html.len() ==> html@.skip(pos as int) == Seq::<char>::empty(),
            open@ == "<pre>"@,
            close@ == "</pre>"@,
            with_code_toolbars(html@) == out@ + with_code_toolbars(html@.skip(pos as int)),
        ensures
            pos <= html.len(),
            with_code_toolbars(html@) == out@ + html@.skip(pos as int),
        decreases html.len() - pos,
    {
        proof {
            reveal_strlit("<pre>");
            reveal_strlit("</pre>");
        }
        let ghost s = html@.skip(pos as int);
        let found = find_from_exec(html, &open, pos);
        proof {
            lemma_find_skip(html@, open@, pos as int);
            lemma_find_from_some(html@, open@, pos as int);
        }
        let ps = match found {
            None => {
                assert(with_code_toolbars(s) == s);
                break ;
            },
            Some(ps) => ps,
        };
        let closing = find_from_exec(html, &close, ps);
        proof {
            lemma_find_skip(html@, close@, ps as int);
            lemma_find_from_some(html@, close@, ps as int);
            assert(s.skip(ps - pos) =~= html@.skip(ps as int));
        }
        let pe = match closing {
            None => {
                assert(with_code_toolbars(s) == s);
                break ;
            },
            Some(pe) => pe,
        };
        let block_end = pe + 6;
        push_range(&mut out, html, pos, ps);
        let block = slice_chars(html, ps, block_end);
        push_wrapped_block(&mut out, &block);
        proof {
            let rest = html@.skip(ps as int);
            assert(s.take(ps - pos) =~= html@.subrange(pos as int, ps as int));
            assert(rest.take(pe - ps + 6) =~= block@);
            assert(rest.skip(pe - ps + 6) =~= html@.skip(block_end as int));
        }
        pos = block_end;
    }
    push_range(&mut out, html, pos, html.len());
    proof {
        assert(html@.skip(pos as int) =~= html@.subrange(pos as int, html@.len() as int));
    }
    out
}

} // verus!
