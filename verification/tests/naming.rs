use transcript_splitter::naming::default_output_dir;
use transcript_splitter::naming::decimal_string;
use transcript_splitter::naming::padded_index_string;
use transcript_splitter::naming::part_file_name;
use transcript_splitter::naming::single_shot_file_name;
use transcript_splitter::naming::split_extension;

#[test]
fn indices_are_zero_padded_to_three_digits() {
    assert_eq!(padded_index_string(1), "001");
    assert_eq!(padded_index_string(9), "009");
    assert_eq!(padded_index_string(10), "010");
    assert_eq!(padded_index_string(99), "099");
    assert_eq!(padded_index_string(100), "100");
    assert_eq!(padded_index_string(1234), "1234");
}

#[test]
fn decimal_rendering() {
    assert_eq!(decimal_string(0), "0");
    assert_eq!(decimal_string(7), "7");
    assert_eq!(decimal_string(10), "10");
    assert_eq!(decimal_string(409), "409");
}

#[test]
fn part_names_use_stem_marker_index_extension() {
    assert_eq!(part_file_name("talk", ".txt", 1), "talk_part_001.txt");
    assert_eq!(part_file_name("talk", ".txt", 42), "talk_part_042.txt");
    assert_eq!(part_file_name("ep", ".srt", 137), "ep_part_137.srt");
}

#[test]
fn single_shot_name_uses_marker() {
    assert_eq!(single_shot_file_name("talk", ".txt"), "talk_single_shot.txt");
}

#[test]
fn default_directory_derives_from_stem() {
    assert_eq!(default_output_dir("talk"), "talk_splits");
}

#[test]
fn extension_split_takes_last_dot_of_file_name() {
    assert_eq!(split_extension("talk.txt"), (String::from("talk"), String::from(".txt")));
    assert_eq!(split_extension("dir/talk.txt"), (String::from("talk"), String::from(".txt")));
    assert_eq!(
        split_extension("archive.tar.gz"),
        (String::from("archive.tar"), String::from(".gz"))
    );
    assert_eq!(split_extension("a.b/c.d"), (String::from("c"), String::from(".d")));
}
