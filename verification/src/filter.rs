//! Line filtering and flattening: annotation lines are discarded, the
//! content marker is stripped, every surviving line is trimmed, and the
//! survivors are joined with single spaces into one flowing text.

use crate::text::starts_with;
use crate::text::str_starts_with;
use crate::text::str_trim;
use crate::text::trim;
use vstd::prelude::*;

verus! {

/// Marker of a start-time annotation line; such lines are discarded whole.
pub open spec fn start_time_prefix() -> Seq<char> {
    seq!['S', 't', 'a', 'r', 't', ' ', 'T', 'i', 'm', 'e', ':']
}

/// Marker of an end-time annotation line; such lines are discarded whole.
pub open spec fn end_time_prefix() -> Seq<char> {
    seq!['E', 'n', 'd', ' ', 'T', 'i', 'm', 'e', ':']
}

/// Content marker: a line that begins with it keeps only what follows.
pub open spec fn script_prefix() -> Seq<char> {
    seq!['S', 'c', 'r', 'i', 'p', 't', ':', ' ']
}

/// A line survives filtering unless it begins with an annotation marker.
pub open spec fn keeps_line(l: Seq<char>) -> bool {
    !starts_with(l, start_time_prefix()) && !starts_with(l, end_time_prefix())
}

/// A surviving line, normalized: the content marker (if the line begins
/// with it) is removed, and the remainder is trimmed of surrounding white
/// space.
pub open spec fn normalize_line(l: Seq<char>) -> Seq<char> {
    if starts_with(l, script_prefix()) {
        trim(l.skip(script_prefix().len() as int))
    } else {
        trim(l)
    }
}

/// The surviving lines of a document, in order, each normalized.
pub open spec fn content_lines(lines: Seq<Seq<char>>) -> Seq<Seq<char>>
    decreases lines.len(),
{
    if lines.len() == 0 {
        Seq::empty()
    } else {
        let rest = content_lines(lines.drop_last());
        if keeps_line(lines.last()) {
            rest.push(normalize_line(lines.last()))
        } else {
            rest
        }
    }
}

/// The parts joined with a single space between consecutive parts.
pub open spec fn join_spaces(parts: Seq<Seq<char>>) -> Seq<char>
    decreases parts.len(),
{
    if parts.len() == 0 {
        Seq::empty()
    } else if parts.len() == 1 {
        parts[0]
    } else {
        join_spaces(parts.drop_last()) + seq![' '] + parts.last()
    }
}

/// The flattened text of a document: its normalized surviving lines joined
/// with single spaces.
pub open spec fn flattened_text(lines: Seq<Seq<char>>) -> Seq<char> {
    join_spaces(content_lines(lines))
}

/// Applies the per-line rules: a line that begins with an annotation marker
/// is dropped; a line that begins with the content marker loses exactly that
/// marker; every kept line is trimmed. Order is preserved.
pub fn filter_lines(lines: &Vec<String>) -> (r: Vec<String>)
    ensures
        r.deep_view() == content_lines(lines.deep_view()),
{
    let mut r: Vec<String> = Vec::new();
    let mut i: usize = 0;
    while i < lines.len()
        invariant
            i <= lines.len(),
            r.deep_view() == content_lines(lines.deep_view().take(i as int)),
        decreases lines.len() - i,
    {
        let line = &lines[i];
        proof {
            reveal_strlit("Start Time:");
            reveal_strlit("End Time:");
            reveal_strlit("Script: ");
            assert("Start Time:"@ =~= start_time_prefix());
            assert("End Time:"@ =~= end_time_prefix());
            assert("Script: "@ =~= script_prefix());
            assert(lines.deep_view().take(i + 1).drop_last() =~= lines.deep_view().take(i as int));
            assert(lines.deep_view().take(i + 1).last() == line@);
        }
        if !str_starts_with(line.as_str(), "Start Time:") && !str_starts_with(
            line.as_str(),
            "End Time:",
        ) {
            let kept = if str_starts_with(line.as_str(), "Script: ") {
                let n = line.as_str().unicode_len();
                line.as_str().substring_char(8, n)
            } else {
                line.as_str()
            };
            proof {
                assert(kept@ =~= if starts_with(line@, script_prefix()) {
                    line@.skip(script_prefix().len() as int)
                } else {
                    line@
                });
            }
            let trimmed = String::from_str(str_trim(kept));
            r.push(trimmed);
            proof {
                assert(r.deep_view() =~= content_lines(lines.deep_view().take(i as int)).push(
                    normalize_line(line@),
                ));
            }
        }
        i = i + 1;
    }
    proof {
        assert(lines.deep_view().take(lines.len() as int) =~= lines.deep_view());
    }
    r
}

/// Joins the parts with a single space between consecutive parts.
pub fn join_with_spaces(parts: &Vec<String>) -> (r: String)
    ensures
        r@ == join_spaces(parts.deep_view()),
{
    let mut r = String::new();
    let mut i: usize = 0;
    while i < parts.len()
        invariant
            i <= parts.len(),
            r@ == join_spaces(parts.deep_view().take(i as int)),
        decreases parts.len() - i,
    {
        proof {
            reveal_strlit(" ");
            assert(" "@ =~= seq![' ']);
            assert(parts.deep_view().take(i + 1).drop_last() =~= parts.deep_view().take(i as int));
            assert(parts.deep_view().take(i + 1).last() == parts@[i as int]@);
        }
        if i > 0 {
            r.append(" ");
        }
        r.append(parts[i].as_str());
        i = i + 1;
    }
    proof {
        assert(parts.deep_view().take(parts.len() as int) =~= parts.deep_view());
    }
    r
}

} // verus!
