//! The split pipeline: from the raw lines of a transcript to the named,
//! wrapped output artifacts, and the single-shot mode that wraps the whole
//! document as one artifact.

use crate::filter::filter_lines;
use crate::filter::flattened_text;
use crate::filter::join_spaces;
use crate::filter::join_with_spaces;
use crate::naming::part_file_name;
use crate::naming::part_file_name_spec;
use crate::naming::single_shot_file_name;
use crate::naming::single_shot_file_name_spec;
use crate::segment::num_segments;
use crate::segment::segment_tokens;
use crate::segment::segments;
use crate::segment::split_into_segments;
use crate::tokenize::tokenize;
use crate::tokenize::tokens;
use vstd::prelude::*;

verus! {

/// The wrapping configuration: free-form header and footer strings, each
/// applied verbatim, once, around every emitted text.
pub struct Config {
    pub header: String,
    pub footer: String,
}

/// One output artifact: a file name and the exact text to store under it.
pub struct Artifact {
    pub name: String,
    pub text: String,
}

impl View for Artifact {
    type V = (Seq<char>, Seq<char>);

    open spec fn view(&self) -> (Seq<char>, Seq<char>) {
        (self.name@, self.text@)
    }
}

/// The exact suffix of every emitted text: two newlines.
pub open spec fn wrap_suffix() -> Seq<char> {
    seq!['\n', '\n']
}

/// A text wrapped per the configuration: header, text, footer and the
/// two-newline suffix, concatenated verbatim, nothing else inserted.
pub open spec fn wrapped(header: Seq<char>, text: Seq<char>, footer: Seq<char>) -> Seq<char> {
    header + text + footer + wrap_suffix()
}

/// The emitted text of segment `i`: its tokens rejoined with single spaces
/// and wrapped per the configuration.
pub open spec fn segment_text(
    toks: Seq<Seq<char>>,
    m: int,
    i: int,
    header: Seq<char>,
    footer: Seq<char>,
) -> Seq<char> {
    wrapped(header, join_spaces(segment_tokens(toks, m, i)), footer)
}

/// Every artifact of a split run, as (name, text) pairs: one per segment of
/// the document's token sequence, named with the 1-based zero-padded index.
pub open spec fn split_artifacts(
    lines: Seq<Seq<char>>,
    m: int,
    header: Seq<char>,
    footer: Seq<char>,
    stem: Seq<char>,
    ext: Seq<char>,
) -> Seq<(Seq<char>, Seq<char>)> {
    let toks = tokens(flattened_text(lines));
    Seq::new(
        num_segments(toks.len() as int, m) as nat,
        |i: int|
            (
                part_file_name_spec(stem, ext, (i + 1) as nat),
                segment_text(toks, m, i, header, footer),
            ),
    )
}

/// Wraps a text with the configured header and footer and the two-newline
/// suffix, by plain concatenation.
pub fn wrap_with_header_footer(text: &str, config: &Config) -> (r: String)
    ensures
        r@ == wrapped(config.header@, text@, config.footer@),
{
    proof {
        reveal_strlit("\n\n");
    }
    let mut r = config.header.clone();
    r.append(text);
    r.append(config.footer.as_str());
    r.append("\n\n");
    proof {
        assert("\n\n"@ =~= wrap_suffix());
        assert(r@ =~= wrapped(config.header@, text@, config.footer@));
    }
    r
}

/// Runs the split pipeline: filters the lines, flattens them into one
/// text, cuts the text's tokens into segments of at most `max_tokens`, and
/// emits one named, wrapped artifact per segment. A document without
/// tokens yields no artifacts.
pub fn split_document(
    lines: &Vec<String>,
    max_tokens: usize,
    config: &Config,
    stem: &str,
    ext: &str,
) -> (r: Vec<Artifact>)
    requires
        max_tokens >= 1,
    ensures
        r@.map_values(|a: Artifact| a@) == split_artifacts(
            lines.deep_view(),
            max_tokens as int,
            config.header@,
            config.footer@,
            stem@,
            ext@,
        ),
{
    let kept = filter_lines(lines);
    let text = join_with_spaces(&kept);
    let toks = tokenize(text.as_str());
    let segs = split_into_segments(&toks, max_tokens);
    let ghost tv = tokens(flattened_text(lines.deep_view()));
    let ghost art = split_artifacts(
        lines.deep_view(),
        max_tokens as int,
        config.header@,
        config.footer@,
        stem@,
        ext@,
    );
    proof {
        assert(toks.deep_view() == tv);
        assert(art.len() == segs@.len());
    }
    let mut r: Vec<Artifact> = Vec::new();
    let mut i: usize = 0;
    while i < segs.len()
        invariant
            i <= segs@.len(),
            segs.deep_view() == segments(tv, max_tokens as int),
            segs@.len() == num_segments(tv.len() as int, max_tokens as int),
            art == split_artifacts(
                lines.deep_view(),
                max_tokens as int,
                config.header@,
                config.footer@,
                stem@,
                ext@,
            ),
            tv == tokens(flattened_text(lines.deep_view())),
            art.len() == segs@.len(),
            r@.len() == i,
            forall|j: int| 0 <= j < i ==> r@[j]@ == art[j],
        decreases segs@.len() - i,
    {
        let seg_text = join_with_spaces(&segs[i]);
        proof {
            assert(segs@[i as int].deep_view() == segs.deep_view()[i as int]);
            assert(segs.deep_view()[i as int] == segment_tokens(tv, max_tokens as int, i as int));
        }
        let wrapped_text = wrap_with_header_footer(seg_text.as_str(), config);
        let name = part_file_name(stem, ext, i + 1);
        let a = Artifact { name, text: wrapped_text };
        let ghost av = a@;
        proof {
            assert(av == art[i as int]);
        }
        r.push(a);
        proof {
            assert(r@[i as int]@ == av);
        }
        i = i + 1;
    }
    proof {
        assert(r@.map_values(|a: Artifact| a@) =~= art);
    }
    r
}

/// Single-shot mode: the whole original content, untouched, wrapped per
/// the configuration and named with the `_single_shot` marker.
pub fn single_shot_artifact(content: &str, config: &Config, stem: &str, ext: &str) -> (r:
    Artifact)
    ensures
        r.name@ == single_shot_file_name_spec(stem@, ext@),
        r.text@ == wrapped(config.header@, content@, config.footer@),
{
    let name = single_shot_file_name(stem, ext);
    let text = wrap_with_header_footer(content, config);
    Artifact { name, text }
}

/// Determinism law: a second run of the splitter on identical lines,
/// limit, configuration and file-name parts yields identically named and
/// identically contented artifacts.
pub proof fn lemma_split_deterministic(
    lines: Seq<Seq<char>>,
    m: int,
    header: Seq<char>,
    footer: Seq<char>,
    stem: Seq<char>,
    ext: Seq<char>,
    r1: Seq<(Seq<char>, Seq<char>)>,
    r2: Seq<(Seq<char>, Seq<char>)>,
)
    requires
        r1 == split_artifacts(lines, m, header, footer, stem, ext),
        r2 == split_artifacts(lines, m, header, footer, stem, ext),
    ensures
        r1 == r2,
{
}

} // verus!
