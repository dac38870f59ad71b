//! Weighted random letters for the round prompt.
//!
//! Based on a
//! [Wikipedia](https://en.wikipedia.org/wiki/Letter_frequency#Relative_frequencies_of_the_first_letters_of_a_word_in_English_language)
//! table of the relative frequency of each letter as the first letter of an
//! English word, with every percentage multiplied by 100 to get whole
//! integers.  Only the draw of the weight value is random; turning it into a
//! letter is a verified scan of the weight table.

use vstd::prelude::*;

use crate::random::rand_in_range;
use crate::types::Range;

verus! {

/// Number of entries in the weight table: one per letter.
pub const LETTER_COUNT: usize = 26;

/// Sum of all weights in the table; draws are uniform below this.
pub const SUM_OF_WEIGHTS: usize = 9954;

/// The letters of the table, most frequent first.
pub open spec fn spec_nth_letter(i: int) -> char {
    if i == 0 {
        'S'
    } else if i == 1 {
        'C'
    } else if i == 2 {
        'P'
    } else if i == 3 {
        'D'
    } else if i == 4 {
        'B'
    } else if i == 5 {
        'R'
    } else if i == 6 {
        'A'
    } else if i == 7 {
        'M'
    } else if i == 8 {
        'T'
    } else if i == 9 {
        'F'
    } else if i == 10 {
        'E'
    } else if i == 11 {
        'I'
    } else if i == 12 {
        'H'
    } else if i == 13 {
        'G'
    } else if i == 14 {
        'L'
    } else if i == 15 {
        'U'
    } else if i == 16 {
        'W'
    } else if i == 17 {
        'O'
    } else if i == 18 {
        'N'
    } else if i == 19 {
        'V'
    } else if i == 20 {
        'J'
    } else if i == 21 {
        'K'
    } else if i == 22 {
        'Q'
    } else if i == 23 {
        'Y'
    } else if i == 24 {
        'Z'
    } else {
        'X'
    }
}

/// The weight of the `i`-th letter of the table.
pub open spec fn spec_nth_weight(i: int) -> int {
    if i == 0 {
        1100
    } else if i == 1 {
        940
    } else if i == 2 {
        770
    } else if i == 3 {
        610
    } else if i == 4 {
        600
    } else if i == 5 {
        600
    } else if i == 6 {
        570
    } else if i == 7 {
        560
    } else if i == 8 {
        500
    } else if i == 9 {
        410
    } else if i == 10 {
        390
    } else if i == 11 {
        390
    } else if i == 12 {
        370
    } else if i == 13 {
        330
    } else if i == 14 {
        310
    } else if i == 15 {
        290
    } else if i == 16 {
        270
    } else if i == 17 {
        250
    } else if i == 18 {
        220
    } else if i == 19 {
        150
    } else if i == 20 {
        110
    } else if i == 21 {
        100
    } else if i == 22 {
        49
    } else if i == 23 {
        36
    } else if i == 24 {
        24
    } else {
        5
    }
}

fn nth_weight(i: usize) -> (r: usize)
    requires
        i < LETTER_COUNT,
    ensures
        r == spec_nth_weight(i as int),
{
    match i {
        0usize => 1100,
        1usize => 940,
        2usize => 770,
        3usize => 610,
        4usize => 600,
        5usize => 600,
        6usize => 570,
        7usize => 560,
        8usize => 500,
        9usize => 410,
        10usize => 390,
        11usize => 390,
        12usize => 370,
        13usize => 330,
        14usize => 310,
        15usize => 290,
        16usize => 270,
        17usize => 250,
        18usize => 220,
        19usize => 150,
        20usize => 110,
        21usize => 100,
        22usize => 49,
        23usize => 36,
        24usize => 24,
        _ => 5,
    }
}

fn nth_letter_str(i: usize) -> (r: &'static str)
    requires
        i < LETTER_COUNT,
    ensures
        r@ == seq![spec_nth_letter(i as int)],
{
    let r: &'static str = match i {
        0usize => "S",
        1usize => "C",
        2usize => "P",
        3usize => "D",
        4usize => "B",
        5usize => "R",
        6usize => "A",
        7usize => "M",
        8usize => "T",
        9usize => "F",
        10usize => "E",
        11usize => "I",
        12usize => "H",
        13usize => "G",
        14usize => "L",
        15usize => "U",
        16usize => "W",
        17usize => "O",
        18usize => "N",
        19usize => "V",
        20usize => "J",
        21usize => "K",
        22usize => "Q",
        23usize => "Y",
        24usize => "Z",
        _ => "X",
    };
    proof {
        reveal_strlit("S");
        reveal_strlit("C");
        reveal_strlit("P");
        reveal_strlit("D");
        reveal_strlit("B");
        reveal_strlit("R");
        reveal_strlit("A");
        reveal_strlit("M");
        reveal_strlit("T");
        reveal_strlit("F");
        reveal_strlit("E");
        reveal_strlit("I");
        reveal_strlit("H");
        reveal_strlit("G");
        reveal_strlit("L");
        reveal_strlit("U");
        reveal_strlit("W");
        reveal_strlit("O");
        reveal_strlit("N");
        reveal_strlit("V");
        reveal_strlit("J");
        reveal_strlit("K");
        reveal_strlit("Q");
        reveal_strlit("Y");
        reveal_strlit("Z");
        reveal_strlit("X");
        assert(r@ =~= seq![spec_nth_letter(i as int)]);
    }
    r
}

/// Every letter of the table is an uppercase ASCII letter.
pub proof fn lemma_nth_letter_uppercase(i: int)
    ensures
        'A' <= spec_nth_letter(i) <= 'Z',
{
}

/// Sum of the table's weights from entry `i` on.
pub open spec fn spec_weight_sum_from(i: int) -> int
    decreases LETTER_COUNT - i when i <= LETTER_COUNT
{
    if i >= LETTER_COUNT {
        0
    } else {
        spec_nth_weight(i) + spec_weight_sum_from(i + 1)
    }
}

/// The declared total matches the table.
pub proof fn lemma_sum_of_weights()
    ensures
        spec_weight_sum_from(0) == SUM_OF_WEIGHTS,
{
    reveal_with_fuel(spec_weight_sum_from, 27);
}

/// Turns a uniformly drawn value into a letter, weighting each letter by the
/// table: value `v` picks the first letter whose cumulative weight exceeds
/// `v`.
fn pick_letter(value: usize) -> (r: &'static str)
    requires
        value < SUM_OF_WEIGHTS,
    ensures
        r@.len() == 1,
        'A' <= r@[0] <= 'Z',
{
    proof {
        lemma_sum_of_weights();
    }
    let mut v = value;
    let mut i: usize = 0;
    while i < LETTER_COUNT - 1
        invariant
            i < LETTER_COUNT,
            v < spec_weight_sum_from(i as int),
        decreases LETTER_COUNT - i,
    {
        let w = nth_weight(i);
        if v < w {
            proof {
                lemma_nth_letter_uppercase(i as int);
            }
            return nth_letter_str(i);
        }
        v -= w;
        i += 1;
    }
    proof {
        lemma_nth_letter_uppercase(i as int);
    }
    nth_letter_str(i)
}

/// Makes a random selection of letters within the configured length range,
/// using relative dictionary frequencies.  Not necessarily pronounceable, so
/// it is an initialism rather than a true acronym.
pub fn random_initialism(range: &Range<usize>) -> (r: String)
    requires
        range.min <= range.max,
        range.max < usize::MAX,
    ensures
        range.min <= r@.len() <= range.max,
        forall|k: int| 0 <= k < r@.len() ==> 'A' <= #[trigger] r@[k] <= 'Z',
{
    let length = rand_in_range(range.min, range.max);
    let mut s = String::new();
    let mut k: usize = 0;
    while k < length
        invariant
            k <= length,
            s@.len() == k,
            forall|t: int| 0 <= t < s@.len() ==> 'A' <= #[trigger] s@[t] <= 'Z',
        decreases length - k,
    {
        let v = rand_in_range(0, SUM_OF_WEIGHTS - 1);
        s.append(pick_letter(v));
        k += 1;
    }
    s
}

} // verus!
