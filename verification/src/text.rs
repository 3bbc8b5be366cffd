//! The textual forms of a 128-bit identifier, as mathematics.
//!
//! An identifier is written as 32 hexadecimal digits, either in one run or in
//! groups of 8, 4, 4, 4 and 12 digits with a hyphen between the groups. The
//! canonical form is the grouped one with upper-case digits.

use vstd::prelude::*;

verus! {

/// The value of a hexadecimal digit of either case; `None` for every other
/// character.
pub open spec fn hex_digit(c: char) -> Option<int> {
    if '0' <= c <= '9' {
        Some(c as int - '0' as int)
    } else if 'a' <= c <= 'f' {
        Some(c as int - 'a' as int + 10)
    } else if 'A' <= c <= 'F' {
        Some(c as int - 'A' as int + 10)
    } else {
        None
    }
}

/// The upper-case digit that stands for `n`, for `0 <= n < 16`.
pub open spec fn upper_hex_char(n: int) -> char {
    if n < 10 {
        ('0' as int + n) as char
    } else {
        ('A' as int + n - 10) as char
    }
}

/// `c` with an ASCII lower-case letter replaced by its upper-case form.
pub open spec fn ascii_upper(c: char) -> char {
    if 'a' <= c <= 'z' {
        (c as int - 'a' as int + 'A' as int) as char
    } else {
        c
    }
}

/// Whether index `i` of the grouped form holds a hyphen.
pub open spec fn is_hyphen_position(i: int) -> bool {
    i == 8 || i == 13 || i == 18 || i == 23
}

/// The index in the grouped form of the `j`-th of the 32 digits.
pub open spec fn digit_position(j: int) -> int {
    if j < 8 {
        j
    } else if j < 12 {
        j + 1
    } else if j < 16 {
        j + 2
    } else if j < 20 {
        j + 3
    } else {
        j + 4
    }
}

/// Which of the 32 digits stands at index `i` of the grouped form, for an
/// `i` that is no hyphen position.
pub open spec fn digit_index(i: int) -> int {
    if i < 8 {
        i
    } else if i < 13 {
        i - 1
    } else if i < 18 {
        i - 2
    } else if i < 23 {
        i - 3
    } else {
        i - 4
    }
}

/// 32 characters, each a hexadecimal digit.
pub open spec fn is_simple(s: Seq<char>) -> bool {
    &&& s.len() == 32
    &&& forall|j: int| 0 <= j < 32 ==> hex_digit(#[trigger] s[j]) is Some
}

/// The digits of a grouped text, in order, with the hyphen positions left out.
pub open spec fn strip_hyphens(s: Seq<char>) -> Seq<char> {
    Seq::new(32, |j: int| s[digit_position(j)])
}

/// 36 characters: a hyphen at each of the four hyphen positions and a
/// hexadecimal digit everywhere else.
pub open spec fn is_hyphenated(s: Seq<char>) -> bool {
    &&& s.len() == 36
    &&& s[8] == '-'
    &&& s[13] == '-'
    &&& s[18] == '-'
    &&& s[23] == '-'
    &&& is_simple(strip_hyphens(s))
}

/// The sixteen bytes that 32 digits spell, two digits to a byte, the high
/// half first.
pub open spec fn digits_value(d: Seq<char>) -> Seq<u8> {
    Seq::new(16, |k: int| (hex_digit(d[2 * k])->0 * 16 + hex_digit(d[2 * k + 1])->0) as u8)
}

/// The bytes of an ungrouped text, if it is one.
pub open spec fn simple_value(s: Seq<char>) -> Option<Seq<u8>> {
    if is_simple(s) {
        Some(digits_value(s))
    } else {
        None
    }
}

/// The bytes of a grouped text, if it is one.
pub open spec fn hyphenated_value(s: Seq<char>) -> Option<Seq<u8>> {
    if is_hyphenated(s) {
        Some(digits_value(strip_hyphens(s)))
    } else {
        None
    }
}

/// The identifier that a text spells: the text is the ungrouped or the
/// grouped form, and nothing else is accepted.
pub open spec fn identifier_value(s: Seq<char>) -> Option<Seq<u8>> {
    if s.len() == 32 {
        simple_value(s)
    } else if s.len() == 36 {
        hyphenated_value(s)
    } else {
        None
    }
}

/// `s` without one line terminator at its end: a line feed, or a carriage
/// return followed by a line feed. Nothing else is removed, and nothing
/// inside the text.
pub open spec fn without_line_end(s: Seq<char>) -> Seq<char> {
    if s.len() >= 2 && s[s.len() - 2] == '\r' && s[s.len() - 1] == '\n' {
        s.subrange(0, s.len() - 2)
    } else if s.len() >= 1 && s[s.len() - 1] == '\n' {
        s.subrange(0, s.len() - 1)
    } else {
        s
    }
}

/// The identifier that a raw answer of an identity store spells: one line
/// terminator at the end is dropped, and the rest must be an identifier.
pub open spec fn normalized(raw: Seq<char>) -> Option<Seq<u8>> {
    identifier_value(without_line_end(raw))
}

/// Half of a byte as a number below 16: digit `j` of the 32, so the high half
/// of byte `j / 2` when `j` is even and its low half when `j` is odd.
pub open spec fn nibble(bytes: Seq<u8>, j: int) -> int {
    if j % 2 == 0 {
        bytes[j / 2] as int / 16
    } else {
        bytes[j / 2] as int % 16
    }
}

/// The canonical text of sixteen bytes: grouped, with upper-case digits.
pub open spec fn canonical_text(bytes: Seq<u8>) -> Seq<char> {
    Seq::new(
        36,
        |i: int|
            if is_hyphen_position(i) {
                '-'
            } else {
                upper_hex_char(nibble(bytes, digit_index(i)))
            },
    )
}

/// 32 digits written in groups: a hyphen at each hyphen position and the
/// digits, in order, everywhere else.
pub open spec fn grouped(d: Seq<char>) -> Seq<char> {
    Seq::new(
        36,
        |i: int|
            if is_hyphen_position(i) {
                '-'
            } else {
                d[digit_index(i)]
            },
    )
}

/// A hexadecimal digit stands for a number below 16, and the upper-case digit
/// of that number is the digit itself, in upper case. A letter's case does
/// not change what it stands for.
pub proof fn lemma_hex_digit(c: char)
    ensures
        hex_digit(c) matches Some(v) ==> 0 <= v < 16 && upper_hex_char(v) == ascii_upper(c),
        hex_digit(ascii_upper(c)) == hex_digit(c),
{
}

/// The upper-case digit of a number below 16 stands for that number, and is
/// one of `0` to `9` and `A` to `F`.
pub proof fn lemma_upper_hex_char(n: int)
    requires
        0 <= n < 16,
    ensures
        hex_digit(upper_hex_char(n)) == Some(n),
        '0' <= upper_hex_char(n) <= '9' || 'A' <= upper_hex_char(n) <= 'F',
        ascii_upper(upper_hex_char(n)) == upper_hex_char(n),
{
}

/// The digits in the grouped form keep their order: going from a digit to its
/// place and back gives the digit again, and no digit stands on a hyphen's
/// place.
pub proof fn lemma_digit_places(j: int)
    requires
        0 <= j < 32,
    ensures
        0 <= digit_position(j) < 36,
        !is_hyphen_position(digit_position(j)),
        digit_index(digit_position(j)) == j,
{
}

/// Every place of the grouped form that holds no hyphen holds one of the 32
/// digits.
pub proof fn lemma_place_digits(i: int)
    requires
        0 <= i < 36,
        !is_hyphen_position(i),
    ensures
        0 <= digit_index(i) < 32,
        digit_position(digit_index(i)) == i,
{
}

/// The accepted texts, place by place: 32 digits, or 36 characters with a
/// hyphen on each hyphen position and a digit on every other place. A text
/// with any other character in it, or with a hyphen elsewhere, spells no
/// identifier.
pub proof fn lemma_accepted_texts(s: Seq<char>)
    ensures
        identifier_value(s) is Some <==> {
            ||| s.len() == 32 && forall|i: int| 0 <= i < 32 ==> hex_digit(#[trigger] s[i]) is Some
            ||| s.len() == 36 && forall|i: int|
                0 <= i < 36 ==> if is_hyphen_position(i) {
                    #[trigger] s[i] == '-'
                } else {
                    hex_digit(s[i]) is Some
                }
        },
        identifier_value(s) matches Some(bytes) ==> bytes.len() == 16,
{
    if s.len() == 36 {
        let d = strip_hyphens(s);
        if is_hyphenated(s) {
            assert forall|i: int| 0 <= i < 36 implies if is_hyphen_position(i) {
                #[trigger] s[i] == '-'
            } else {
                hex_digit(s[i]) is Some
            } by {
                if !is_hyphen_position(i) {
                    lemma_place_digits(i);
                    assert(hex_digit(d[digit_index(i)]) is Some);
                }
            }
        }
        if forall|i: int|
            0 <= i < 36 ==> if is_hyphen_position(i) {
                #[trigger] s[i] == '-'
            } else {
                hex_digit(s[i]) is Some
            } {
            assert(is_hyphen_position(8) && is_hyphen_position(13) && is_hyphen_position(18)
                && is_hyphen_position(23));
            assert(s[8] == '-' && s[13] == '-' && s[18] == '-' && s[23] == '-');
            assert forall|j: int| 0 <= j < 32 implies hex_digit(#[trigger] d[j]) is Some by {
                lemma_digit_places(j);
                assert(hex_digit(s[digit_position(j)]) is Some);
            }
        }
    }
}

/// A text of any other length than 32 or 36 characters, one line terminator
/// at its end not counted, spells no identifier.
pub proof fn lemma_wrong_length(raw: Seq<char>)
    requires
        without_line_end(raw).len() != 32,
        without_line_end(raw).len() != 36,
    ensures
        normalized(raw) is None,
{
}

/// A character that is neither a digit nor a hyphen, anywhere in the text,
/// makes the text spell no identifier: white space inside a text is not
/// skipped.
pub proof fn lemma_strange_character(s: Seq<char>, i: int)
    requires
        0 <= i < s.len(),
        hex_digit(s[i]) is None,
        s[i] != '-',
    ensures
        identifier_value(s) is None,
{
    lemma_accepted_texts(s);
}

/// One line terminator after an identifier's text is not counted, be it a
/// line feed or a carriage return with a line feed. A second one spells no
/// identifier, and so does a text with anything else after it.
pub proof fn lemma_line_end(s: Seq<char>)
    requires
        identifier_value(s) is Some,
    ensures
        normalized(s) == identifier_value(s),
        normalized(s + seq!['\n']) == identifier_value(s),
        normalized(s + seq!['\r', '\n']) == identifier_value(s),
        normalized(s + seq!['\n', '\n']) is None,
        normalized(s + seq![' ']) is None,
{
    lemma_accepted_texts(s);
    let last = s.len() - 1;
    assert(hex_digit(s[last]) is Some) by {
        assert(!is_hyphen_position(31) && !is_hyphen_position(35));
    }
    assert(without_line_end(s) == s);
    let one = s + seq!['\n'];
    assert(without_line_end(one) =~= s);
    let crlf = s + seq!['\r', '\n'];
    assert(without_line_end(crlf) =~= s);
    let two = s + seq!['\n', '\n'];
    assert(without_line_end(two) =~= one);
    assert(identifier_value(one) is None) by {
        if one.len() == 36 {
            assert(one[35] == '\n');
            lemma_strange_character(one, 35);
        }
    }
    let spaced = s + seq![' '];
    assert(without_line_end(spaced) == spaced);
    assert(identifier_value(spaced) is None) by {
        if spaced.len() == 36 {
            assert(spaced[35] == ' ');
            lemma_strange_character(spaced, 35);
        }
    }
}

/// Digits of either case spell the same identifier: a text and the same text
/// in upper case have the same value, or both have none.
pub proof fn lemma_case_insensitive(s: Seq<char>)
    ensures
        identifier_value(s.map_values(|c: char| ascii_upper(c))) == identifier_value(s),
{
    let u = s.map_values(|c: char| ascii_upper(c));
    assert forall|i: int| 0 <= i < s.len() implies hex_digit(#[trigger] u[i]) == hex_digit(s[i])
        && (u[i] == '-' <==> s[i] == '-') by {
        lemma_hex_digit(s[i]);
    }
    lemma_accepted_texts(s);
    lemma_accepted_texts(u);
    if s.len() == 32 {
        if is_simple(s) {
            assert(is_simple(u));
            assert(digits_value(u) =~= digits_value(s));
        } else if is_simple(u) {
            assert forall|i: int| 0 <= i < 32 implies hex_digit(#[trigger] s[i]) is Some by {
                assert(hex_digit(u[i]) is Some);
            }
        }
    } else if s.len() == 36 {
        if is_hyphenated(s) {
            assert forall|i: int| 0 <= i < 36 implies if is_hyphen_position(i) {
                #[trigger] u[i] == '-'
            } else {
                hex_digit(u[i]) is Some
            } by {
                assert(hex_digit(u[i]) == hex_digit(s[i]));
            }
            assert(is_hyphenated(u));
            let ds = strip_hyphens(s);
            let du = strip_hyphens(u);
            assert forall|k: int| 0 <= k < 16 implies digits_value(du)[k] == digits_value(ds)[k] by {
                lemma_digit_places(2 * k);
                lemma_digit_places(2 * k + 1);
            }
            assert(digits_value(du) =~= digits_value(ds));
        } else {
            if is_hyphenated(u) {
                assert forall|i: int| 0 <= i < 36 implies if is_hyphen_position(i) {
                    #[trigger] s[i] == '-'
                } else {
                    hex_digit(s[i]) is Some
                } by {
                    assert(hex_digit(u[i]) == hex_digit(s[i]));
                }
            }
        }
    }
}

/// The canonical text has 36 characters: hyphens on the hyphen positions, and
/// everywhere else a digit `0` to `9` or `A` to `F`, never a lower-case one.
pub proof fn lemma_canonical_shape(bytes: Seq<u8>)
    requires
        bytes.len() == 16,
    ensures
        canonical_text(bytes).len() == 36,
        forall|i: int|
            0 <= i < 36 ==> {
                let c = #[trigger] canonical_text(bytes)[i];
                if is_hyphen_position(i) {
                    c == '-'
                } else {
                    '0' <= c <= '9' || 'A' <= c <= 'F'
                }
            },
{
    assert forall|i: int| 0 <= i < 36 implies {
        let c = #[trigger] canonical_text(bytes)[i];
        if is_hyphen_position(i) {
            c == '-'
        } else {
            '0' <= c <= '9' || 'A' <= c <= 'F'
        }
    } by {
        if !is_hyphen_position(i) {
            lemma_place_digits(i);
            lemma_nibble(bytes, digit_index(i));
            lemma_upper_hex_char(nibble(bytes, digit_index(i)));
        }
    }
}

/// Each half of a byte is a number below 16, and the two halves make up the
/// byte.
pub proof fn lemma_nibble(bytes: Seq<u8>, j: int)
    requires
        0 <= j < 2 * bytes.len(),
    ensures
        0 <= nibble(bytes, j) < 16,
        j % 2 == 0 ==> nibble(bytes, j) * 16 + nibble(bytes, j + 1) == bytes[j / 2],
{
}

/// Writing an identifier out and reading the text back gives the identifier
/// again, with or without a line terminator after the text.
pub proof fn lemma_round_trip(bytes: Seq<u8>)
    requires
        bytes.len() == 16,
    ensures
        identifier_value(canonical_text(bytes)) == Some(bytes),
        normalized(canonical_text(bytes)) == Some(bytes),
        normalized(canonical_text(bytes) + seq!['\n']) == Some(bytes),
{
    let text = canonical_text(bytes);
    let d = strip_hyphens(text);
    assert forall|j: int| 0 <= j < 32 implies #[trigger] d[j] == upper_hex_char(nibble(bytes, j))
        && hex_digit(d[j]) == Some(nibble(bytes, j)) by {
        lemma_digit_places(j);
        lemma_nibble(bytes, j);
        lemma_upper_hex_char(nibble(bytes, j));
    }
    assert(is_hyphenated(text));
    assert forall|k: int| 0 <= k < 16 implies #[trigger] digits_value(d)[k] == bytes[k] by {
        assert(hex_digit(d[2 * k]) == Some(nibble(bytes, 2 * k)));
        assert(hex_digit(d[2 * k + 1]) == Some(nibble(bytes, 2 * k + 1)));
        lemma_nibble(bytes, 2 * k);
    }
    assert(digits_value(d) =~= bytes);
    lemma_line_end(text);
}

/// An identifier that was read from a raw text of either form survives
/// being written out and read back: the canonical text of its bytes spells
/// the same bytes.
pub proof fn lemma_resolved_round_trip(raw: Seq<char>)
    requires
        normalized(raw) is Some,
    ensures
        normalized(canonical_text(normalized(raw)->0)) == normalized(raw),
{
    lemma_accepted_texts(without_line_end(raw));
    lemma_round_trip(normalized(raw)->0);
}

/// The canonical text of an identifier that was read from a text is that
/// text in upper case, grouped if it was not.
pub proof fn lemma_canonical_of_text(s: Seq<char>)
    requires
        identifier_value(s) is Some,
    ensures
        s.len() == 36 ==> canonical_text(identifier_value(s)->0) == s.map_values(
            |c: char| ascii_upper(c),
        ),
        s.len() == 32 ==> canonical_text(identifier_value(s)->0) == grouped(s).map_values(
            |c: char| ascii_upper(c),
        ),
{
    let bytes = identifier_value(s)->0;
    let d = if s.len() == 32 {
        s
    } else {
        strip_hyphens(s)
    };
    assert(is_simple(d));
    assert(bytes == digits_value(d));
    assert forall|j: int| 0 <= j < 32 implies upper_hex_char(nibble(bytes, j)) == ascii_upper(
        #[trigger] d[j],
    ) by {
        let k = j / 2;
        assert(hex_digit(d[2 * k]) is Some);
        assert(hex_digit(d[2 * k + 1]) is Some);
        lemma_hex_digit(d[2 * k]);
        lemma_hex_digit(d[2 * k + 1]);
        let high = hex_digit(d[2 * k])->0;
        let low = hex_digit(d[2 * k + 1])->0;
        assert(bytes[k] == (high * 16 + low) as u8);
        assert(bytes[k] as int == high * 16 + low);
    }
    let text = canonical_text(bytes);
    let upper = if s.len() == 32 {
        grouped(s).map_values(|c: char| ascii_upper(c))
    } else {
        s.map_values(|c: char| ascii_upper(c))
    };
    assert forall|i: int| 0 <= i < 36 implies text[i] == upper[i] by {
        if !is_hyphen_position(i) {
            lemma_place_digits(i);
            assert(upper_hex_char(nibble(bytes, digit_index(i))) == ascii_upper(d[digit_index(i)]));
        }
    }
    assert(text =~= upper);
}

/// Removes one trailing line terminator, if there is one.
pub fn trim_line_end(raw: &str) -> (text: &str)
    ensures
        text@ == without_line_end(raw@),
{
    let n: usize = raw.unicode_len();
    if n >= 1 && raw.get_char(n - 1) == '\n' {
        if n >= 2 && raw.get_char(n - 2) == '\r' {
            raw.substring_char(0, n - 2)
        } else {
            raw.substring_char(0, n - 1)
        }
    } else {
        raw
    }
}

} // verus!
