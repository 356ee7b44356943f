//! Stripping full-line comments from code blocks for the "Copy clean" action.
use vstd::prelude::*;

use crate::text::{
    chars_eq, find_from_exec, is_ws, lemma_find_from_some, lines, join, find, push_chars,
    push_range, slice_chars, starts_with_exec, str_eq, string_from_chars, strip_cr, to_chars,
    trim, trim_exec,
};

verus! {

/// The languages for which full-line comments can be stripped.
pub open spec fn supported_language(lang: Seq<char>) -> bool {
    ||| lang == "bash"@
    ||| lang == "sh"@
    ||| lang == "zsh"@
    ||| lang == "fish"@
    ||| lang == "powershell"@
    ||| lang == "python"@
    ||| lang == "rust"@
    ||| lang == "javascript"@
    ||| lang == "typescript"@
}

/// The single-line comment marker of `lang`, if it is a supported language.
pub open spec fn comment_marker(lang: Seq<char>) -> Option<Seq<char>> {
    if lang == "bash"@ || lang == "sh"@ || lang == "zsh"@ || lang == "fish"@ || lang
        == "powershell"@ || lang == "python"@ {
        Some("#"@)
    } else if lang == "rust"@ || lang == "javascript"@ || lang == "typescript"@ {
        Some("//"@)
    } else {
        None
    }
}

/// The shell languages and Python mark comments with `#`; Rust, JavaScript
/// and TypeScript with `//`; exactly the supported languages have a marker.
pub proof fn lemma_comment_markers(lang: Seq<char>)
    ensures
        lang == "bash"@ || lang == "sh"@ || lang == "zsh"@ || lang == "fish"@ || lang == "powershell"@
            || lang == "python"@ ==> comment_marker(lang) == Some("#"@),
        lang == "rust"@ || lang == "javascript"@ || lang == "typescript"@ ==> comment_marker(lang)
            == Some("//"@),
        comment_marker(lang) is Some <==> supported_language(lang),
        "#"@ != "//"@,
{
    reveal_strlit("bash");
    reveal_strlit("sh");
    reveal_strlit("zsh");
    reveal_strlit("fish");
    reveal_strlit("powershell");
    reveal_strlit("python");
    reveal_strlit("rust");
    reveal_strlit("javascript");
    reveal_strlit("typescript");
    reveal_strlit("#");
    reveal_strlit("//");
    assert("#"@.len() != "//"@.len());
    if lang == "rust"@ || lang == "javascript"@ || lang == "typescript"@ {
        assert(lang[0] != "bash"@[0] && lang[0] != "fish"@[0] && lang[0] != "powershell"@[0]);
        assert(lang != "bash"@ && lang != "fish"@ && lang != "powershell"@);
        assert(lang.len() != "sh"@.len() && lang.len() != "zsh"@.len() && lang.len() != "python"@.len());
    }
}

/// A line whose trimmed content is non-empty and starts with `marker`.
pub open spec fn is_full_line_comment(line: Seq<char>, marker: Seq<char>) -> bool {
    trim(line).len() > 0 && marker.is_prefix_of(trim(line))
}

/// `code` with its full-line comments removed, the remaining lines joined
/// with `\n`; `code` itself when `lang` is not supported.
pub open spec fn stripped(lang: Seq<char>, code: Seq<char>) -> Seq<char> {
    match comment_marker(lang) {
        None => code,
        Some(m) => join(lines(code).filter(|l: Seq<char>| !is_full_line_comment(l, m)), "\n"@),
    }
}

/// Returns `true` when `lang` is a language for which we know how to strip
/// full-line comments.
pub fn is_supported_language(lang: &str) -> (r: bool)
    ensures
        r == supported_language(lang@),
{
    str_eq(lang, "bash") || str_eq(lang, "sh") || str_eq(lang, "zsh") || str_eq(lang, "fish")
        || str_eq(lang, "powershell") || str_eq(lang, "python") || str_eq(lang, "rust")
        || str_eq(lang, "javascript") || str_eq(lang, "typescript")
}

fn is_lang(lang: &Vec<char>, name: &str) -> (r: bool)
    ensures
        r == (lang@ == name@),
{
    chars_eq(lang, &to_chars(name))
}

/// [`is_supported_language`] on a character vector.
pub fn supported_language_chars(lang: &Vec<char>) -> (r: bool)
    ensures
        r == supported_language(lang@),
{
    is_lang(lang, "bash") || is_lang(lang, "sh") || is_lang(lang, "zsh") || is_lang(lang, "fish")
        || is_lang(lang, "powershell") || is_lang(lang, "python") || is_lang(lang, "rust")
        || is_lang(lang, "javascript") || is_lang(lang, "typescript")
}

fn comment_marker_exec(lang: &Vec<char>) -> (r: Option<Vec<char>>)
    ensures
        r matches Some(m) ==> comment_marker(lang@) == Some(m@),
        r is None ==> comment_marker(lang@) is None,
{
    if is_lang(lang, "bash") || is_lang(lang, "sh") || is_lang(lang, "zsh") || is_lang(lang, "fish")
        || is_lang(lang, "powershell") || is_lang(lang, "python") {
        Some(to_chars("#"))
    } else if is_lang(lang, "rust") || is_lang(lang, "javascript") || is_lang(lang, "typescript") {
        Some(to_chars("//"))
    } else {
        None
    }
}

/// `line` minus a final `\r`.
fn strip_cr_exec(line: Vec<char>) -> (r: Vec<char>)
    ensures
        r@ == strip_cr(line@),
{
    let mut line = line;
    if line.len() > 0 && line[line.len() - 1] == '\r' {
        line.pop();
    }
    line
}

/// Remove full-line comments from `code`, a block of the given language.
///
/// A full-line comment is a line whose trimmed content starts with the
/// language's single-line comment marker (`#` for bash, sh, zsh, fish,
/// powershell and python; `//` for rust, javascript and typescript).
/// Inline comments and empty lines are kept; the kept lines are joined with
/// `\n`. Code of any other language is returned unchanged.
pub fn strip_full_line_comments(lang: &str, code: &str) -> (r: String)
    ensures
        r@ == stripped(lang@, code@),
{
    let out = strip_comment_chars(&to_chars(lang), &to_chars(code));
    string_from_chars(&out)
}

/// [`strip_full_line_comments`] on character vectors.
pub fn strip_comment_chars(lang: &Vec<char>, s: &Vec<char>) -> (r: Vec<char>)
    ensures
        r@ == stripped(lang@, s@),
{
    let marker = match comment_marker_exec(lang) {
        None => {
            return s.clone();
        },
        Some(m) => m,
    };
    let ghost keep = |l: Seq<char>| !is_full_line_comment(l, marker@);
    let nl = to_chars("\n");
    proof {
        reveal_strlit("\n");
        assert(nl@ == seq!['\n']);
    }
    let mut out: Vec<char> = Vec::new();
    let mut kept: bool = false;
    let ghost mut done: Seq<Seq<char>> = Seq::empty();
    let mut pos: usize = 0;
    proof {
        assert(s@.skip(0) =~= s@);
        reveal(Seq::filter);
    }
    while pos < s.len()
        invariant
            pos <= s.len(),
            nl@ == seq!['\n'],
            "\n"@ == seq!['\n'],
            keep == (|l: Seq<char>| !is_full_line_comment(l, marker@)),
            lines(s@) == done + lines(s@.skip(pos as int)),
            kept == (done.filter(keep).len() > 0),
            out@ == join(done.filter(keep), "\n"@),
        decreases s.len() - pos,
    {
        let ghost rest = s@.skip(pos as int);
        proof {
            lemma_find_from_some(s@, seq!['\n'], pos as int);
        }
        let (end, next) = match find_from_exec(s, &nl, pos) {
            Some(j) => (j, j + 1),
            None => (s.len(), s.len()),
        };
        proof {
            lemma_find_from_some(s@, seq!['\n'], pos as int);
            lemma_find_from_some(rest, seq!['\n'], 0);
            assert forall|k: int| 0 <= k < rest.len() implies (crate::text::matches_at(
                rest,
                seq!['\n'],
                k,
            ) <==> crate::text::matches_at(s@, seq!['\n'], pos + k)) by {
                assert(rest.subrange(k, k + 1) =~= s@.subrange(pos + k, pos + k + 1));
            }
            if end < s.len() {
                let k = end - pos;
                assert(crate::text::matches_at(rest, seq!['\n'], k));
                match find(rest, seq!['\n']) {
                    Some(j2) => {
                        if j2 < k {
                            assert(crate::text::matches_at(s@, seq!['\n'], pos + j2));
                        }
                    },
                    None => {},
                }
                assert(find(rest, seq!['\n']) == Some(end - pos));
                assert(rest.take(end - pos) =~= s@.subrange(pos as int, end as int));
                assert(rest.skip(end - pos + 1) =~= s@.skip(next as int));
            } else {
                match find(rest, seq!['\n']) {
                    Some(j2) => {
                        assert(crate::text::matches_at(s@, seq!['\n'], pos + j2));
                    },
                    None => {},
                }
                assert(find(rest, seq!['\n']) is None);
                assert(rest =~= s@.subrange(pos as int, end as int));
                assert(s@.skip(next as int) =~= Seq::<char>::empty());
            }
        }
        let piece = slice_chars(s, pos, end);
        let line = if end < s.len() {
            strip_cr_exec(piece)
        } else {
            piece
        };
        proof {
            assert(lines(rest) == seq![line@] + lines(s@.skip(next as int)));
            assert(done.push(line@) + lines(s@.skip(next as int)) =~= done + lines(rest));
        }
        let t = trim_exec(&line);
        let comment = t.len() > 0 && starts_with_exec(&t, &marker);
        if !comment {
            if kept {
                push_chars(&mut out, &nl);
            }
            push_chars(&mut out, &line);
            kept = true;
        }
        proof {
            reveal(Seq::filter);
            assert(keep(line@) == !comment);
            assert(done.push(line@).drop_last() =~= done);
            assert(done.push(line@).last() == line@);
            if !comment {
                assert(done.push(line@).filter(keep) == done.filter(keep).push(line@));
                assert(done.filter(keep).push(line@).drop_last() =~= done.filter(keep));
            } else {
                assert(done.push(line@).filter(keep) == done.filter(keep));
            }
            done = done.push(line@);
        }
        pos = next;
    }
    proof {
        assert(s@.skip(pos as int) =~= Seq::<char>::empty());
        assert(lines(s@) =~= done);
    }
    out
}

} // verus!
