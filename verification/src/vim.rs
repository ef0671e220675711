//! The compute core of the editor sync: isolating the active colorscheme
//! directive among the search tool's output lines and building the
//! rewritten configuration.  Spawning the search tool and touching the
//! editor's configuration file stay with the caller.

use vstd::prelude::*;

use crate::fileutils::spec_replace;
use crate::fileutils::substitute;
use crate::s;
use crate::strutil::after_first;
use crate::strutil::before_first;
use crate::strutil::first_index_of;
use crate::strutil::lemma_first_at;
use crate::strutil::lemma_no_occurrence;
use crate::strutil::prefix_of;
use crate::strutil::spec_trim_start;
use crate::strutil::str_starts_with;
use crate::strutil::trim_leading;

verus! {

/// The content portion of one search-tool output line: the text between
/// the first and the second `:`, leading whitespace trimmed.  A line
/// without a `:` carries no content portion.
pub open spec fn spec_content_part(line: Seq<char>) -> Option<Seq<char>> {
    match after_first(line, ':') {
        None => None,
        Some(rest) => Some(spec_trim_start(before_first(rest, ':'))),
    }
}

/// Keeps only true directive lines: plugin declarations, comments, call
/// expressions and line continuations are false positives of the search.
pub open spec fn spec_keeps(ml: Seq<char>) -> bool {
    &&& !prefix_of("Plug"@, ml)
    &&& !(ml.len() > 0 && ml[0] == '"')
    &&& !prefix_of("call"@, ml)
    &&& !(ml.len() > 0 && ml[0] == '\\')
}

/// The active colorscheme directive: the content portion of the last
/// line that survives the filter, if any line does.
pub open spec fn spec_directive(lines: Seq<Seq<char>>) -> Option<Seq<char>>
    decreases lines.len(),
{
    if lines.len() == 0 {
        None
    } else {
        match spec_content_part(lines.last()) {
            Some(ml) => if spec_keeps(ml) {
                Some(ml)
            } else {
                spec_directive(lines.drop_last())
            },
            None => spec_directive(lines.drop_last()),
        }
    }
}

/// The content portion of one output line.
fn content_part(line: &str) -> (r: Option<String>)
    ensures
        (match r {
            Some(p) => spec_content_part(line@) == Some(p@),
            None => spec_content_part(line@) is None,
        }),
{
    let len = line.unicode_len();
    match first_index_of(line, ':', 0) {
        None => {
            proof {
                lemma_no_occurrence(line@, ':');
            }
            None
        },
        Some(c1) => {
            proof {
                lemma_first_at(line@, ':', c1 as int);
            }
            let rest = line.substring_char(c1 + 1, len);
            proof {
                assert(rest@ =~= line@.skip(c1 as int + 1));
            }
            match first_index_of(rest, ':', 0) {
                Some(c2) => {
                    proof {
                        lemma_first_at(rest@, ':', c2 as int);
                    }
                    let seg = rest.substring_char(0, c2);
                    proof {
                        assert(seg@ =~= before_first(rest@, ':'));
                    }
                    Some(s(trim_leading(seg)))
                },
                None => {
                    proof {
                        lemma_no_occurrence(rest@, ':');
                    }
                    Some(s(trim_leading(rest)))
                },
            }
        },
    }
}

/// Does the content portion survive the false-positive filter?
fn keeps(ml: &str) -> (r: bool)
    ensures
        r == spec_keeps(ml@),
{
    if str_starts_with(ml, "Plug") {
        return false;
    }
    if str_starts_with(ml, "call") {
        return false;
    }
    let len = ml.unicode_len();
    if len > 0 {
        let c0 = ml.get_char(0);
        if c0 == '"' || c0 == '\\' {
            return false;
        }
    }
    true
}

/// Walks the search tool's output lines and isolates the currently
/// active colorscheme directive: for each line the content portion after
/// the first `:` is taken and trimmed, false positives are filtered out,
/// and the last surviving line wins.
pub fn extract_directive(lines: &Vec<String>) -> (r: Option<String>)
    ensures
        (match r {
            Some(d) => spec_directive(lines.deep_view()) == Some(d@),
            None => spec_directive(lines.deep_view()) is None,
        }),
{
    let n = lines.len();
    let mut best: Option<String> = None;
    let mut i: usize = 0;
    while i < n
        invariant
            n == lines.len(),
            i <= n,
            (match best {
                Some(d) => spec_directive(lines.deep_view().subrange(0, i as int)) == Some(d@),
                None => spec_directive(lines.deep_view().subrange(0, i as int)) is None,
            }),
        decreases n - i,
    {
        let ghost ld = lines.deep_view();
        let ghost pre = ld.subrange(0, i as int);
        let ghost post = ld.subrange(0, i as int + 1);
        proof {
            assert(post.drop_last() =~= pre);
            assert(post.last() == ld[i as int]);
            assert(ld[i as int] == lines@[i as int]@);
        }
        match content_part(lines[i].as_str()) {
            Some(ml) => {
                if keeps(ml.as_str()) {
                    best = Some(ml);
                }
            },
            None => {},
        }
        i += 1;
    }
    proof {
        assert(lines.deep_view().subrange(0, n as int) =~= lines.deep_view());
    }
    best
}

/// The directive text that selects `new_theme`.
pub fn replacement_directive(new_theme: &str) -> (r: String)
    ensures
        r@ == "colorscheme "@ + new_theme@,
{
    s("colorscheme ").concat(new_theme)
}

/// Computes the editor configuration rewritten for `new_theme`: the
/// active directive found among the search lines is replaced, across the
/// whole content, by the directive selecting the new theme.  When no
/// line survives the filter there is nothing to rewrite; an empty
/// content portion cannot serve as a substitution source and is treated
/// the same way.
pub fn switch_colorscheme(vimrc_content: &str, search_lines: &Vec<String>, new_theme: &str) -> (r:
    Option<String>)
    ensures
        (match spec_directive(search_lines.deep_view()) {
            Some(d) => {
                if d.len() > 0 {
                    r matches Some(c) && c@ == spec_replace(
                        vimrc_content@,
                        d,
                        "colorscheme "@ + new_theme@,
                    )
                } else {
                    r is None
                }
            },
            None => r is None,
        }),
{
    match extract_directive(search_lines) {
        Some(theme_line) => {
            if !theme_line.as_str().is_empty() {
                let replacement = replacement_directive(new_theme);
                Some(substitute(vimrc_content, theme_line.as_str(), replacement.as_str()))
            } else {
                None
            }
        },
        None => None,
    }
}

} // verus!
