use transcript_splitter::document::split_document;
use transcript_splitter::document::single_shot_artifact;
use transcript_splitter::document::wrap_with_header_footer;
use transcript_splitter::document::Artifact;
use transcript_splitter::document::Config;
use transcript_splitter::filter::filter_lines;
use transcript_splitter::filter::join_with_spaces;
use transcript_splitter::segment::split_into_segments;
use transcript_splitter::tokenize::tokenize;

fn config(header: &str, footer: &str) -> Config {
    Config { header: String::from(header), footer: String::from(footer) }
}

fn strings(items: &[&str]) -> Vec<String> {
    items.iter().map(|s| String::from(*s)).collect()
}

fn pairs(artifacts: &[Artifact]) -> Vec<(String, String)> {
    artifacts.iter().map(|a| (a.name.clone(), a.text.clone())).collect()
}

#[test]
fn five_tokens_limit_two() {
    let lines = strings(&["a b c d e"]);
    let cfg = config("H:", ":F");
    let artifacts = split_document(&lines, 2, &cfg, "t", ".txt");
    assert_eq!(
        pairs(&artifacts),
        vec![
            (String::from("t_part_001.txt"), String::from("H:a b:F\n\n")),
            (String::from("t_part_002.txt"), String::from("H:c d:F\n\n")),
            (String::from("t_part_003.txt"), String::from("H:e:F\n\n")),
        ]
    );
}

#[test]
fn single_shot_wraps_whole_content() {
    let cfg = config("<", ">");
    let a = single_shot_artifact("full text", &cfg, "t", ".txt");
    assert_eq!(a.name, "t_single_shot.txt");
    assert_eq!(a.text, "<full text>\n\n");
}

#[test]
fn limit_above_token_count_gives_one_part() {
    let lines = strings(&["a b c d e"]);
    let cfg = config("H:", ":F");
    let artifacts = split_document(&lines, 10, &cfg, "t", ".txt");
    assert_eq!(artifacts.len(), 1);
    assert_eq!(artifacts[0].name, "t_part_001.txt");
    assert_eq!(artifacts[0].text, "H:a b c d e:F\n\n");
}

#[test]
fn exact_multiple_has_no_empty_trailing_part() {
    let lines = strings(&["a b c d"]);
    let cfg = config("", "");
    let artifacts = split_document(&lines, 2, &cfg, "t", ".txt");
    assert_eq!(
        pairs(&artifacts),
        vec![
            (String::from("t_part_001.txt"), String::from("a b\n\n")),
            (String::from("t_part_002.txt"), String::from("c d\n\n")),
        ]
    );
}

#[test]
fn empty_document_yields_no_artifacts() {
    let lines: Vec<String> = Vec::new();
    let cfg = config("H", "F");
    let artifacts = split_document(&lines, 3, &cfg, "t", ".txt");
    assert!(artifacts.is_empty());
}

#[test]
fn fully_filtered_document_yields_no_artifacts() {
    let lines = strings(&["Start Time: 00:00:01,000", "End Time: 00:00:02,000"]);
    let cfg = config("H", "F");
    let artifacts = split_document(&lines, 3, &cfg, "t", ".txt");
    assert!(artifacts.is_empty());
}

#[test]
fn rerun_is_identical() {
    let lines = strings(&["Script: one two three", "four five"]);
    let cfg = config("[", "]");
    let first = split_document(&lines, 2, &cfg, "ep", ".srt");
    let second = split_document(&lines, 2, &cfg, "ep", ".srt");
    assert_eq!(pairs(&first), pairs(&second));
}

#[test]
fn filter_discards_time_lines_and_strips_marker() {
    let lines = strings(&[
        "Start Time: 00:00:01,000",
        "Script: Hello world",
        "End Time: 00:00:02,000",
    ]);
    assert_eq!(filter_lines(&lines), strings(&["Hello world"]));
}

#[test]
fn filter_trims_and_keeps_plain_lines() {
    let lines = strings(&["  plain line \t", "", "Script: padded  "]);
    assert_eq!(filter_lines(&lines), strings(&["plain line", "", "padded"]));
}

#[test]
fn filter_strips_marker_only_at_line_start() {
    let lines = strings(&["note Script: kept"]);
    assert_eq!(filter_lines(&lines), strings(&["note Script: kept"]));
}

#[test]
fn wrapping_is_exact_concatenation() {
    let cfg = config("H:", ":F");
    let wrapped = wrap_with_header_footer("a b", &cfg);
    assert_eq!(wrapped, "H:a b:F\n\n");
    let bare = wrap_with_header_footer("x", &config("", ""));
    assert_eq!(bare, "x\n\n");
}

#[test]
fn tokenize_splits_on_whitespace_runs() {
    assert_eq!(tokenize("  alpha\t beta\n\ngamma "), strings(&["alpha", "beta", "gamma"]));
    assert_eq!(tokenize(""), strings(&[]));
    assert_eq!(tokenize(" \t \n"), strings(&[]));
    assert_eq!(tokenize("solo"), strings(&["solo"]));
}

#[test]
fn segment_counts_are_ceil_of_tokens_over_limit() {
    let toks = strings(&["a", "b", "c", "d", "e"]);
    assert_eq!(split_into_segments(&toks, 2).len(), 3);
    assert_eq!(split_into_segments(&toks, 5).len(), 1);
    assert_eq!(split_into_segments(&toks, 9).len(), 1);
    assert_eq!(split_into_segments(&toks, 1).len(), 5);
    let four = strings(&["a", "b", "c", "d"]);
    assert_eq!(split_into_segments(&four, 2).len(), 2);
    let none: Vec<String> = Vec::new();
    assert_eq!(split_into_segments(&none, 3).len(), 0);
}

#[test]
fn segments_preserve_token_order() {
    let toks = strings(&["a", "b", "c", "d", "e"]);
    let segs = split_into_segments(&toks, 2);
    let rejoined: Vec<String> = segs.iter().flat_map(|s| s.iter().cloned()).collect();
    assert_eq!(rejoined, toks);
}

#[test]
fn join_inserts_single_spaces() {
    assert_eq!(join_with_spaces(&strings(&["a", "b", "c"])), "a b c");
    assert_eq!(join_with_spaces(&strings(&[])), "");
    assert_eq!(join_with_spaces(&strings(&["", "x", ""])), " x ");
}
