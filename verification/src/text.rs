//! Small readers of text: white space, comma lists, decimal numbers.

use vstd::prelude::*;
use vstd::string::*;

verus! {

/// A character with the Unicode property `White_Space`.
pub open spec fn is_white_space(c: char) -> bool {
    let code = c as u32;
    ||| 0x09 <= code <= 0x0D
    ||| code == 0x20
    ||| code == 0x85
    ||| code == 0xA0
    ||| code == 0x1680
    ||| 0x2000 <= code <= 0x200A
    ||| code == 0x2028
    ||| code == 0x2029
    ||| code == 0x202F
    ||| code == 0x205F
    ||| code == 0x3000
}

/// The text without the white space that it starts with.
pub open spec fn trimmed_start(text: Seq<char>) -> Seq<char>
    decreases text.len(),
{
    if text.len() > 0 && is_white_space(text[0]) {
        trimmed_start(text.drop_first())
    } else {
        text
    }
}

/// The text without the white space that it ends with.
pub open spec fn trimmed_end(text: Seq<char>) -> Seq<char>
    decreases text.len(),
{
    if text.len() > 0 && is_white_space(text.last()) {
        trimmed_end(text.drop_last())
    } else {
        text
    }
}

/// The text without the white space at either end.
pub open spec fn trimmed(text: Seq<char>) -> Seq<char> {
    trimmed_end(trimmed_start(text))
}

/// Tells whether a character is white space.
pub fn is_white_space_char(c: char) -> (white: bool)
    ensures
        white == is_white_space(c),
{
    let code = c as u32;
    (0x09 <= code && code <= 0x0D) || code == 0x20 || code == 0x85 || code == 0xA0 || code
        == 0x1680 || (0x2000 <= code && code <= 0x200A) || code == 0x2028 || code == 0x2029
        || code == 0x202F || code == 0x205F || code == 0x3000
}

/// Removes the white space at either end of a text.
pub fn trim(text: &str) -> (rest: &str)
    ensures
        rest@ == trimmed(text@),
{
    let len = text.unicode_len();
    let mut start: usize = 0;
    assert(text@.skip(0) =~= text@);
    while start < len && is_white_space_char(text.get_char(start))
        invariant
            start <= len,
            len == text@.len(),
            trimmed_start(text@) == trimmed_start(text@.skip(start as int)),
        decreases len - start,
    {
        assert(text@.skip(start as int).drop_first() =~= text@.skip(start + 1));
        start += 1;
    }
    let ghost kept = text@.skip(start as int);
    assert(trimmed_start(text@) == kept);
    assert(kept =~= text@.subrange(start as int, len as int));
    let mut end: usize = len;
    while end > start && is_white_space_char(text.get_char(end - 1))
        invariant
            start <= end <= len,
            len == text@.len(),
            kept == text@.skip(start as int),
            trimmed_end(kept) == trimmed_end(text@.subrange(start as int, end as int)),
        decreases end,
    {
        assert(text@.subrange(start as int, end as int).drop_last() =~= text@.subrange(
            start as int,
            end - 1,
        ));
        end -= 1;
    }
    proof {
        assert(text@.skip(start as int) =~= text@.subrange(start as int, len as int));
        let middle = text@.subrange(start as int, end as int);
        assert(trimmed_end(middle) == middle);
    }
    text.substring_char(start, end)
}

/// Where the white space that a text starts with ends.
proof fn lemma_trimmed_start_bound(text: Seq<char>) -> (from: int)
    ensures
        0 <= from <= text.len(),
        trimmed_start(text) == text.skip(from),
        forall|i: int| 0 <= i < from ==> is_white_space(#[trigger] text[i]),
        from < text.len() ==> !is_white_space(text[from]),
    decreases text.len(),
{
    if text.len() > 0 && is_white_space(text[0]) {
        let rest = text.drop_first();
        let inner = lemma_trimmed_start_bound(rest);
        assert(rest.skip(inner) =~= text.skip(inner + 1));
        assert forall|i: int| 0 <= i < inner + 1 implies is_white_space(#[trigger] text[i]) by {
            if i > 0 {
                assert(text[i] == rest[i - 1]);
            }
        }
        if inner < rest.len() {
            assert(text[inner + 1] == rest[inner]);
        }
        inner + 1
    } else {
        assert(text.skip(0) =~= text);
        0
    }
}

/// Where the white space that a text ends with starts.
proof fn lemma_trimmed_end_bound(text: Seq<char>) -> (to: int)
    ensures
        0 <= to <= text.len(),
        trimmed_end(text) == text.take(to),
        forall|i: int| to <= i < text.len() ==> is_white_space(#[trigger] text[i]),
        0 < to ==> !is_white_space(text[to - 1]),
    decreases text.len(),
{
    if text.len() > 0 && is_white_space(text.last()) {
        let rest = text.drop_last();
        let inner = lemma_trimmed_end_bound(rest);
        assert(rest.take(inner) =~= text.take(inner));
        assert forall|i: int| inner <= i < text.len() implies is_white_space(#[trigger] text[i]) by {
            if i < rest.len() {
                assert(text[i] == rest[i]);
            }
        }
        if 0 < inner {
            assert(text[inner - 1] == rest[inner - 1]);
        }
        inner
    } else {
        assert(text.take(text.len() as int) =~= text);
        text.len() as int
    }
}

/// A trimmed text is the stretch of the text between the white space at its
/// start and the white space at its end: all before it and all behind it is
/// white space, and unless it is empty it neither starts nor ends with any. The
/// bounds of the stretch are handed back.
pub proof fn lemma_trimmed_is_the_stretch_between_white_space(text: Seq<char>) -> (bounds: (
    int,
    int,
))
    ensures
        0 <= bounds.0 <= bounds.1 <= text.len(),
        trimmed(text) == text.subrange(bounds.0, bounds.1),
        forall|i: int| 0 <= i < bounds.0 ==> is_white_space(#[trigger] text[i]),
        forall|i: int| bounds.1 <= i < text.len() ==> is_white_space(#[trigger] text[i]),
        bounds.0 < bounds.1 ==> !is_white_space(text[bounds.0]) && !is_white_space(
            text[bounds.1 - 1],
        ),
{
    let from = lemma_trimmed_start_bound(text);
    let kept = text.skip(from);
    let inner = lemma_trimmed_end_bound(kept);
    let to = from + inner;
    assert(kept.take(inner) =~= text.subrange(from, to));
    assert forall|i: int| to <= i < text.len() implies is_white_space(#[trigger] text[i]) by {
        assert(text[i] == kept[i - from]);
    }
    if from < to {
        assert(text[to - 1] == kept[inner - 1]);
    }
    (from, to)
}

/// The pieces of a text between its commas, in their order. A text without a
/// comma is one piece; a comma at either end has an empty piece beside it.
pub open spec fn split_at_commas(text: Seq<char>) -> Seq<Seq<char>>
    decreases text.len(),
{
    if text.len() == 0 {
        seq![Seq::empty()]
    } else {
        let before = split_at_commas(text.drop_last());
        if text.last() == ',' {
            before.push(Seq::empty())
        } else {
            before.drop_last().push(before.last().push(text.last()))
        }
    }
}

/// The pieces of a comma list, each without the white space at its ends.
pub open spec fn comma_list(text: Seq<char>) -> Seq<Seq<char>> {
    split_at_commas(text).map_values(|piece: Seq<char>| trimmed(piece))
}

/// A text always has at least one piece.
pub proof fn lemma_split_is_not_empty(text: Seq<char>)
    ensures
        split_at_commas(text).len() >= 1,
    decreases text.len(),
{
    if text.len() > 0 {
        lemma_split_is_not_empty(text.drop_last());
    }
}

/// Cuts a text at its commas and removes the white space at the ends of each
/// piece.
pub fn split_comma_list(text: &str) -> (pieces: Vec<String>)
    ensures
        pieces.deep_view() == comma_list(text@),
{
    let len = text.unicode_len();
    let mut pieces: Vec<String> = Vec::new();
    let ghost mut cut: Seq<Seq<char>> = Seq::empty();
    let mut from: usize = 0;
    let mut at: usize = 0;
    assert(text@.take(0) =~= Seq::<char>::empty());
    assert(text@.subrange(0, 0) =~= Seq::<char>::empty());
    assert(split_at_commas(text@.take(0)) =~= cut.push(text@.subrange(0, 0)));
    while at < len
        invariant
            from <= at <= len,
            len == text@.len(),
            split_at_commas(text@.take(at as int)) == cut.push(
                text@.subrange(from as int, at as int),
            ),
            pieces.deep_view() == cut.map_values(|piece: Seq<char>| trimmed(piece)),
        decreases len - at,
    {
        let ghost before = split_at_commas(text@.take(at as int));
        let ghost piece = text@.subrange(from as int, at as int);
        proof {
            assert(text@.take(at + 1).drop_last() =~= text@.take(at as int));
            assert(text@.take(at + 1).last() == text@[at as int]);
            assert(before.last() == piece);
            assert(before.drop_last() =~= cut);
        }
        if text.get_char(at) == ',' {
            let found = String::from_str(trim(text.substring_char(from, at)));
            let ghost trimmed_before = pieces.deep_view();
            pieces.push(found);
            proof {
                assert(pieces.deep_view() =~= trimmed_before.push(trimmed(piece)));
                cut = cut.push(piece);
                assert(cut.map_values(|piece: Seq<char>| trimmed(piece)) =~= trimmed_before.push(
                    trimmed(piece),
                ));
                assert(text@.subrange(at + 1, at + 1) =~= Seq::<char>::empty());
            }
            from = at + 1;
        } else {
            proof {
                assert(piece.push(text@[at as int]) =~= text@.subrange(from as int, at + 1));
            }
        }
        at += 1;
    }
    let last = String::from_str(trim(text.substring_char(from, len)));
    proof {
        assert(text@.take(len as int) =~= text@);
        let whole = cut.push(text@.subrange(from as int, len as int));
        assert(pieces.deep_view().push(last@) =~= whole.map_values(
            |piece: Seq<char>| trimmed(piece),
        ));
    }
    let ghost trimmed_before = pieces.deep_view();
    pieces.push(last);
    assert(pieces.deep_view() =~= trimmed_before.push(last@));
    pieces
}

/// A decimal digit.
pub open spec fn is_digit(c: char) -> bool {
    '0' <= c <= '9'
}

/// The number that a digit stands for.
pub open spec fn digit_value(c: char) -> nat {
    (c as u32 - '0' as u32) as nat
}

/// The number that a row of digits stands for in base ten, leading zeros allowed.
pub open spec fn digits_value(digits: Seq<char>) -> nat
    decreases digits.len(),
{
    if digits.len() == 0 {
        0
    } else {
        digits_value(digits.drop_last()) * 10 + digit_value(digits.last())
    }
}

/// Every character of the text is a decimal digit.
pub open spec fn all_digits(digits: Seq<char>) -> bool {
    forall|i: int| 0 <= i < digits.len() ==> is_digit(#[trigger] digits[i])
}

/// The digits of a text that may start with one plus sign.
pub open spec fn unsigned_digits(text: Seq<char>) -> Seq<char> {
    if text.len() > 0 && text[0] == '+' {
        text.drop_first()
    } else {
        text
    }
}

/// The number that a text stands for: at least one decimal digit, before them at
/// most one plus sign and nothing else, and a value that 64 bits can hold.
pub open spec fn decimal_u64(text: Seq<char>) -> Option<u64> {
    let digits = unsigned_digits(text);
    if digits.len() > 0 && all_digits(digits) && digits_value(digits) <= u64::MAX {
        Some(digits_value(digits) as u64)
    } else {
        None
    }
}

/// A row of digits stands for no less than any row that it starts with.
pub proof fn lemma_digits_value_grows(digits: Seq<char>, upto: int)
    requires
        0 <= upto <= digits.len(),
    ensures
        digits_value(digits.take(upto)) <= digits_value(digits),
    decreases digits.len() - upto,
{
    if upto < digits.len() {
        lemma_digits_value_grows(digits, upto + 1);
        assert(digits.take(upto + 1).drop_last() =~= digits.take(upto));
    } else {
        assert(digits.take(upto) =~= digits);
    }
}

/// Reads an unsigned number in base ten. `None` where the text is no such number
/// or the number does not fit.
pub fn parse_u64(text: &str) -> (value: Option<u64>)
    ensures
        value == decimal_u64(text@),
{
    let len = text.unicode_len();
    let first: usize = if len > 0 && text.get_char(0) == '+' {
        1
    } else {
        0
    };
    let ghost digits = unsigned_digits(text@);
    assert(digits =~= text@.skip(first as int));
    if first == len {
        return None;
    }
    let mut value: u64 = 0;
    let mut at: usize = first;
    assert(digits.take(0) =~= Seq::<char>::empty());
    while at < len
        invariant
            first <= at <= len,
            len == text@.len(),
            digits == text@.skip(first as int),
            digits == unsigned_digits(text@),
            all_digits(digits.take(at - first)),
            value == digits_value(digits.take(at - first)),
        decreases len - at,
    {
        let c = text.get_char(at);
        assert(c == digits[at - first]);
        if !('0' <= c && c <= '9') {
            assert(!is_digit(digits[at - first]));
            return None;
        }
        let digit = (c as u32 - '0' as u32) as u64;
        proof {
            let longer = digits.take(at - first + 1);
            assert(longer.drop_last() =~= digits.take(at - first));
            assert(longer.last() == c);
            assert(digit == digit_value(c));
            assert(digits_value(longer) == value * 10 + digit);
            assert(all_digits(longer)) by {
                assert forall|i: int| 0 <= i < longer.len() implies is_digit(
                    #[trigger] longer[i],
                ) by {
                    if i < at - first {
                        assert(longer[i] == digits.take(at - first)[i]);
                    }
                }
            }
            lemma_digits_value_grows(digits, at - first + 1);
        }
        let grown = match value.checked_mul(10) {
            Some(tenfold) => tenfold.checked_add(digit),
            None => None,
        };
        match grown {
            Some(sum) => {
                value = sum;
            },
            None => {
                return None;
            },
        }
        at += 1;
    }
    assert(digits.take(len - first) =~= digits);
    Some(value)
}

/// The character that stands for a digit.
pub open spec fn digit_char(digit: nat) -> char
    recommends
        digit < 10,
{
    if digit == 0 {
        '0'
    } else if digit == 1 {
        '1'
    } else if digit == 2 {
        '2'
    } else if digit == 3 {
        '3'
    } else if digit == 4 {
        '4'
    } else if digit == 5 {
        '5'
    } else if digit == 6 {
        '6'
    } else if digit == 7 {
        '7'
    } else if digit == 8 {
        '8'
    } else {
        '9'
    }
}

/// A number written in base ten, without sign or leading zeros.
pub open spec fn decimal(n: nat) -> Seq<char>
    decreases n,
{
    if n < 10 {
        seq![digit_char(n)]
    } else {
        decimal(n / 10).push(digit_char(n % 10))
    }
}

fn digit_text(digit: u32) -> (text: &'static str)
    requires
        digit < 10,
    ensures
        text@ == seq![digit_char(digit as nat)],
{
    proof {
        reveal_strlit("0");
        reveal_strlit("1");
        reveal_strlit("2");
        reveal_strlit("3");
        reveal_strlit("4");
        reveal_strlit("5");
        reveal_strlit("6");
        reveal_strlit("7");
        reveal_strlit("8");
        reveal_strlit("9");
    }
    let text = if digit == 0 {
        "0"
    } else if digit == 1 {
        "1"
    } else if digit == 2 {
        "2"
    } else if digit == 3 {
        "3"
    } else if digit == 4 {
        "4"
    } else if digit == 5 {
        "5"
    } else if digit == 6 {
        "6"
    } else if digit == 7 {
        "7"
    } else if digit == 8 {
        "8"
    } else {
        "9"
    };
    assert(text@ =~= seq![digit_char(digit as nat)]);
    text
}

/// Appends a number in base ten to a text.
pub fn push_decimal(text: &mut String, n: u32)
    ensures
        final(text)@ == old(text)@ + decimal(n as nat),
    decreases n,
{
    if n >= 10 {
        push_decimal(text, n / 10);
    }
    text.append(digit_text(n % 10));
    proof {
        if n >= 10 {
            assert(final(text)@ =~= old(text)@ + decimal(n as nat));
        } else {
            assert(final(text)@ =~= old(text)@ + decimal(n as nat));
        }
    }
}

/// The pieces of a list with a comma between each two of them.
pub open spec fn joined_with_commas(pieces: Seq<Seq<char>>) -> Seq<char>
    decreases pieces.len(),
{
    if pieces.len() == 0 {
        Seq::empty()
    } else if pieces.len() == 1 {
        pieces[0]
    } else {
        joined_with_commas(pieces.drop_last()).push(',') + pieces.last()
    }
}

/// The pieces of a text, put together again with commas, are the text.
pub proof fn lemma_split_pieces_rejoin(text: Seq<char>)
    ensures
        joined_with_commas(split_at_commas(text)) == text,
    decreases text.len(),
{
    if text.len() == 0 {
        assert(joined_with_commas(split_at_commas(text)) =~= text);
    } else {
        let shorter = text.drop_last();
        let before = split_at_commas(shorter);
        lemma_split_pieces_rejoin(shorter);
        lemma_split_is_not_empty(shorter);
        let pieces = split_at_commas(text);
        if text.last() == ',' {
            assert(pieces.drop_last() =~= before);
            assert(joined_with_commas(pieces) =~= shorter.push(','));
        } else if before.len() == 1 {
            assert(joined_with_commas(pieces) =~= shorter.push(text.last()));
        } else {
            assert(pieces.drop_last() =~= before.drop_last());
            assert(joined_with_commas(pieces) =~= joined_with_commas(before).push(text.last()));
        }
        assert(shorter.push(text.last()) =~= text);
    }
}

/// No piece of a text holds a comma.
pub proof fn lemma_split_pieces_hold_no_comma(text: Seq<char>)
    ensures
        forall|i: int, j: int|
            0 <= i < split_at_commas(text).len() && 0 <= j < split_at_commas(text)[i].len()
                ==> #[trigger] split_at_commas(text)[i][j] != ',',
    decreases text.len(),
{
    if text.len() > 0 {
        let before = split_at_commas(text.drop_last());
        lemma_split_pieces_hold_no_comma(text.drop_last());
        lemma_split_is_not_empty(text.drop_last());
        let pieces = split_at_commas(text);
        assert forall|i: int, j: int|
            0 <= i < pieces.len() && 0 <= j < pieces[i].len() implies #[trigger] pieces[i][j]
            != ',' by {
            if i < before.len() - 1 {
                assert(pieces[i][j] == before[i][j]);
            } else if text.last() != ',' && j < before.last().len() {
                assert(pieces[i][j] == before[before.len() - 1][j]);
            }
        }
    }
}

/// A number written in base ten is read back as that number.
pub proof fn lemma_decimal_is_read_back(n: u64)
    ensures
        decimal_u64(decimal(n as nat)) == Some(n),
{
    lemma_decimal_digits(n as nat);
}

/// A number written in base ten is a row of digits that stands for the number,
/// and does not start with a plus sign.
pub proof fn lemma_decimal_digits(n: nat)
    ensures
        decimal(n).len() > 0,
        all_digits(decimal(n)),
        digits_value(decimal(n)) == n,
        decimal(n)[0] != '+',
    decreases n,
{
    if n < 10 {
        let written = decimal(n);
        assert(written.drop_last() =~= Seq::<char>::empty());
        assert(digits_value(written) == digits_value(written.drop_last()) * 10 + digit_value(
            written.last(),
        ));
    } else {
        lemma_decimal_digits(n / 10);
        let shorter = decimal(n / 10);
        let written = decimal(n);
        assert(written.drop_last() =~= shorter);
        assert(written.last() == digit_char(n % 10));
        assert(written[0] == shorter[0]);
        assert forall|i: int| 0 <= i < written.len() implies is_digit(#[trigger] written[i]) by {
            if i < shorter.len() {
                assert(written[i] == shorter[i]);
            }
        }
    }
}

} // verus!
