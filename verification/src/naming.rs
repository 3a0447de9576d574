//! Deterministic artifact naming: zero-padded 1-based segment indices, the
//! `_part_` / `_single_shot` / `_splits` name patterns, and splitting a path
//! into the file's stem and extension.

use vstd::prelude::*;

verus! {

/// The decimal digit character for `d`.
pub open spec fn digit_char(d: int) -> char {
    if d == 0 {
        '0'
    } else if d == 1 {
        '1'
    } else if d == 2 {
        '2'
    } else if d == 3 {
        '3'
    } else if d == 4 {
        '4'
    } else if d == 5 {
        '5'
    } else if d == 6 {
        '6'
    } else if d == 7 {
        '7'
    } else if d == 8 {
        '8'
    } else {
        '9'
    }
}

/// The decimal numeral of `n`, most significant digit first, without
/// leading zeros (zero is written as one digit).
pub open spec fn decimal(n: nat) -> Seq<char>
    decreases n,
{
    if n < 10 {
        seq![digit_char(n as int)]
    } else {
        decimal(n / 10).push(digit_char((n % 10) as int))
    }
}

/// The numeral of `n` zero-padded on the left to at least three digits.
pub open spec fn padded_index(n: nat) -> Seq<char> {
    if n < 10 {
        seq!['0', '0'] + decimal(n)
    } else if n < 100 {
        seq!['0'] + decimal(n)
    } else {
        decimal(n)
    }
}

/// One decimal digit as a string.
fn digit_str(d: usize) -> (r: &'static str)
    requires
        d < 10,
    ensures
        r@ == seq![digit_char(d as int)],
{
    proof {
        reveal_strlit("0");
        reveal_strlit("1");
        reveal_strlit("2");
        reveal_strlit("3");
        reveal_strlit("4");
        reveal_strlit("5");
        reveal_strlit("6");
        reveal_strlit("7");
        reveal_strlit("8");
        reveal_strlit("9");
    }
    let r = if d == 0 {
        "0"
    } else if d == 1 {
        "1"
    } else if d == 2 {
        "2"
    } else if d == 3 {
        "3"
    } else if d == 4 {
        "4"
    } else if d == 5 {
        "5"
    } else if d == 6 {
        "6"
    } else if d == 7 {
        "7"
    } else if d == 8 {
        "8"
    } else {
        "9"
    };
    proof {
        assert(r@ =~= seq![digit_char(d as int)]);
    }
    r
}

/// Writes `n` in decimal.
pub fn decimal_string(n: usize) -> (r: String)
    ensures
        r@ == decimal(n as nat),
    decreases n,
{
    let s = digit_str(n % 10);
    if n < 10 {
        String::from_str(s)
    } else {
        let mut r = decimal_string(n / 10);
        r.append(s);
        proof {
            assert(decimal((n / 10) as nat) + s@ =~= decimal(n as nat));
        }
        r
    }
}

/// Writes `n` in decimal, zero-padded on the left to at least three digits.
pub fn padded_index_string(n: usize) -> (r: String)
    ensures
        r@ == padded_index(n as nat),
{
    let digits = decimal_string(n);
    if n < 10 {
        proof {
            reveal_strlit("00");
        }
        let mut r = String::from_str("00");
        r.append(digits.as_str());
        proof {
            assert(r@ =~= padded_index(n as nat));
        }
        r
    } else if n < 100 {
        proof {
            reveal_strlit("0");
        }
        let mut r = String::from_str("0");
        r.append(digits.as_str());
        proof {
            assert(r@ =~= padded_index(n as nat));
        }
        r
    } else {
        digits
    }
}

/// The marker between the stem and the padded index of a part file.
pub open spec fn part_marker() -> Seq<char> {
    seq!['_', 'p', 'a', 'r', 't', '_']
}

/// The marker appended to the stem of the one whole-document artifact.
pub open spec fn single_shot_marker() -> Seq<char> {
    seq!['_', 's', 'i', 'n', 'g', 'l', 'e', '_', 's', 'h', 'o', 't']
}

/// The marker appended to the stem to derive the default output directory.
pub open spec fn splits_marker() -> Seq<char> {
    seq!['_', 's', 'p', 'l', 'i', 't', 's']
}

/// The name of part `index`: stem, `_part_`, the padded index, extension.
pub open spec fn part_file_name_spec(stem: Seq<char>, ext: Seq<char>, index: nat) -> Seq<char> {
    stem + part_marker() + padded_index(index) + ext
}

/// The name of the single whole-document artifact.
pub open spec fn single_shot_file_name_spec(stem: Seq<char>, ext: Seq<char>) -> Seq<char> {
    stem + single_shot_marker() + ext
}

/// Builds the name of part `index` from the input file's stem and extension.
pub fn part_file_name(stem: &str, ext: &str, index: usize) -> (r: String)
    ensures
        r@ == part_file_name_spec(stem@, ext@, index as nat),
{
    proof {
        reveal_strlit("_part_");
    }
    let mut r = String::from_str(stem);
    r.append("_part_");
    let padded = padded_index_string(index);
    r.append(padded.as_str());
    r.append(ext);
    proof {
        assert("_part_"@ =~= part_marker());
        assert(r@ =~= part_file_name_spec(stem@, ext@, index as nat));
    }
    r
}

/// Builds the single-shot artifact's name from the stem and extension.
pub fn single_shot_file_name(stem: &str, ext: &str) -> (r: String)
    ensures
        r@ == single_shot_file_name_spec(stem@, ext@),
{
    proof {
        reveal_strlit("_single_shot");
    }
    let mut r = String::from_str(stem);
    r.append("_single_shot");
    r.append(ext);
    proof {
        assert("_single_shot"@ =~= single_shot_marker());
        assert(r@ =~= single_shot_file_name_spec(stem@, ext@));
    }
    r
}

/// The default output directory name derived from the input file's stem.
pub fn default_output_dir(stem: &str) -> (r: String)
    ensures
        r@ == stem@ + splits_marker(),
{
    proof {
        reveal_strlit("_splits");
    }
    let mut r = String::from_str(stem);
    r.append("_splits");
    proof {
        assert("_splits"@ =~= splits_marker());
    }
    r
}

/// The index of the last occurrence of `c` in `s`, or -1 when `c` does not
/// occur.
pub open spec fn last_index_of(s: Seq<char>, c: char) -> int
    decreases s.len(),
{
    if s.len() == 0 {
        -1
    } else if s.last() == c {
        s.len() - 1
    } else {
        last_index_of(s.drop_last(), c)
    }
}

/// The file-name component of a path: what follows the last separator.
pub open spec fn file_name_part(path: Seq<char>) -> Seq<char> {
    path.skip(last_index_of(path, '/') + 1)
}

/// The path splits into a stem and an extension when its file-name
/// component has a dot after its first character.
pub open spec fn has_stem_and_extension(path: Seq<char>) -> bool {
    last_index_of(file_name_part(path), '.') > 0
}

/// The file-name component up to its last dot.
pub open spec fn stem_of(path: Seq<char>) -> Seq<char> {
    file_name_part(path).take(last_index_of(file_name_part(path), '.'))
}

/// The file-name component from its last dot on, the dot included.
pub open spec fn extension_of(path: Seq<char>) -> Seq<char> {
    file_name_part(path).skip(last_index_of(file_name_part(path), '.'))
}

proof fn lemma_last_index_here(s: Seq<char>, c: char, i: int)
    requires
        0 <= i < s.len(),
        s[i] == c,
        forall|j: int| i < j < s.len() ==> s[j] != c,
    ensures
        last_index_of(s, c) == i,
    decreases s.len(),
{
    if i == s.len() - 1 {
    } else {
        assert(s.last() != c);
        assert(s.drop_last()[i] == c);
        lemma_last_index_here(s.drop_last(), c, i);
    }
}

proof fn lemma_last_index_none(s: Seq<char>, c: char)
    requires
        forall|j: int| 0 <= j < s.len() ==> s[j] != c,
    ensures
        last_index_of(s, c) == -1,
    decreases s.len(),
{
    if s.len() > 0 {
        lemma_last_index_none(s.drop_last(), c);
    }
}

/// The index of the last occurrence of `c` in `s`, if any.
fn find_last(s: &str, c: char) -> (r: Option<usize>)
    ensures
        match r {
            Some(i) => i < s@.len() && last_index_of(s@, c) == i,
            None => last_index_of(s@, c) == -1,
        },
{
    let n = s.unicode_len();
    let mut i = n;
    while i > 0
        invariant
            i <= n,
            n == s@.len(),
            forall|j: int| i <= j < n ==> s@[j] != c,
        decreases i,
    {
        i = i - 1;
        if s.get_char(i) == c {
            proof {
                lemma_last_index_here(s@, c, i as int);
            }
            return Some(i);
        }
    }
    proof {
        lemma_last_index_none(s@, c);
    }
    None
}

/// Splits a path into the file's stem and its extension (the extension
/// keeps its leading dot), ignoring any directory part.
pub fn split_extension(file_path: &str) -> (r: (String, String))
    requires
        has_stem_and_extension(file_path@),
    ensures
        r.0@ == stem_of(file_path@),
        r.1@ == extension_of(file_path@),
{
    let n = file_path.unicode_len();
    let name_start = match find_last(file_path, '/') {
        Some(i) => i + 1,
        None => 0,
    };
    let name = file_path.substring_char(name_start, n);
    proof {
        assert(name@ =~= file_name_part(file_path@));
    }
    let name_len = name.unicode_len();
    let dot = match find_last(name, '.') {
        Some(d) => d,
        None => {
            proof {
                assert(false);
            }
            0
        },
    };
    let stem = String::from_str(name.substring_char(0, dot));
    let ext = String::from_str(name.substring_char(dot, name_len));
    proof {
        assert(stem@ =~= stem_of(file_path@));
        assert(ext@ =~= extension_of(file_path@));
    }
    (stem, ext)
}

} // verus!
