//! Texts: how they are quoted, joined and taken apart.

use vstd::prelude::*;
use vstd::string::{StrSliceExecFns, StringExecFns};

verus! {

/// The text between quotation marks, with special characters escaped.
pub uninterp spec fn quoted_text(text: Seq<char>) -> Seq<char>;

/// Quotes a text.
///
/// Calls the `Debug` formatting of `str` in std: the text between quotation marks,
/// with escapes for the characters that std does not print as they are. Which
/// characters those are is not stated, so the result only has a name.
#[verifier::external_body]
pub(crate) fn quoted(text: &str) -> (result: String)
    ensures
        result@ == quoted_text(text@),
{
    format!("{:?}", text)
}

/// Whether two texts are the same.
pub fn same(first: &str, second: &str) -> (result: bool)
    ensures
        result <==> first@ == second@,
{
    first.to_owned() == second.to_owned()
}

/// Two texts, one behind the other.
pub fn joined(first: &str, second: &str) -> (result: String)
    ensures
        result@ == first@ + second@,
{
    let mut result = first.to_owned();
    result.append(second);
    result
}

/// The character of a decimal digit.
pub open spec fn digit_char(digit: int) -> char {
    (48 + digit) as char
}

/// A number in decimal notation.
pub open spec fn decimal_text(number: nat) -> Seq<char>
    decreases number,
{
    if number < 10 {
        seq![digit_char(number as int)]
    } else {
        decimal_text(number / 10).push(digit_char(number as int % 10))
    }
}

/// The text of a single digit.
fn digit(value: u64) -> (text: &'static str)
    requires
        value < 10,
    ensures
        text@ == seq![digit_char(value as int)],
{
    proof {
        reveal_strlit("0");
        reveal_strlit("1");
        reveal_strlit("2");
        reveal_strlit("3");
        reveal_strlit("4");
        reveal_strlit("5");
        reveal_strlit("6");
        reveal_strlit("7");
        reveal_strlit("8");
        reveal_strlit("9");
    }
    match value {
        0 => "0",
        1 => "1",
        2 => "2",
        3 => "3",
        4 => "4",
        5 => "5",
        6 => "6",
        7 => "7",
        8 => "8",
        _ => "9",
    }
}

/// A number in decimal notation.
pub fn decimal(number: u64) -> (text: String)
    ensures
        text@ == decimal_text(number as nat),
    decreases number,
{
    if number < 10 {
        digit(number).to_owned()
    } else {
        let mut text = decimal(number / 10);
        text.append(digit(number % 10));
        assert(text@ =~= decimal_text(number as nat));
        text
    }
}

/// The position of the first separator at or behind `from`, or the end of the text.
pub open spec fn separator_from(text: Seq<char>, separator: char, from: int) -> int
    decreases text.len() - from,
{
    if from >= text.len() || text[from] == separator {
        from
    } else {
        separator_from(text, separator, from + 1)
    }
}

/// The parts of a text between its separators, from position `from` on.
pub open spec fn split_from(text: Seq<char>, separator: char, from: int) -> Seq<Seq<char>>
    decreases text.len() - from,
{
    let end = separator_from(text, separator, from);
    if from < 0 || end < from || end >= text.len() {
        seq![text.skip(from)]
    } else {
        seq![text.subrange(from, end)] + split_from(text, separator, end + 1)
    }
}

/// The parts of a text between its separators. There is always at least one part.
pub open spec fn split_text(text: Seq<char>, separator: char) -> Seq<Seq<char>> {
    split_from(text, separator, 0)
}

/// The texts of a list.
pub open spec fn texts(list: Seq<String>) -> Seq<Seq<char>> {
    list.map_values(|text: String| text@)
}

/// Parts joined by a separator.
pub open spec fn join_text(parts: Seq<Seq<char>>, separator: Seq<char>) -> Seq<char>
    decreases parts.len(),
{
    if parts.len() == 0 {
        seq![]
    } else if parts.len() == 1 {
        parts[0]
    } else {
        join_text(parts.drop_last(), separator) + separator + parts.last()
    }
}

/// What is left from the first separator on does not come before it.
pub proof fn lemma_separator_from(text: Seq<char>, separator: char, from: int)
    requires
        0 <= from <= text.len(),
    ensures
        from <= separator_from(text, separator, from) <= text.len(),
        forall|i: int|
            from <= i < separator_from(text, separator, from) ==> #[trigger] text[i] != separator,
        separator_from(text, separator, from) < text.len() ==> text[separator_from(
            text,
            separator,
            from,
        )] == separator,
    decreases text.len() - from,
{
    if from < text.len() && text[from] != separator {
        lemma_separator_from(text, separator, from + 1);
    }
}

/// Takes a text apart at its separators.
pub fn split(text: &str, separator: char) -> (parts: Vec<String>)
    ensures
        texts(parts@) == split_text(text@, separator),
        parts@.len() >= 1,
{
    let length: usize = text.unicode_len();
    let mut parts: Vec<String> = Vec::new();
    let mut from: usize = 0;
    let mut i: usize = 0;
    proof {
        lemma_separator_from(text@, separator, 0);
        assert(texts(parts@) + split_from(text@, separator, 0) =~= split_text(text@, separator));
    }
    while i < length
        invariant
            length == text@.len(),
            0 <= from <= i <= length,
            separator_from(text@, separator, from as int) == separator_from(
                text@,
                separator,
                i as int,
            ),
            texts(parts@) + split_from(text@, separator, from as int) == split_text(
                text@,
                separator,
            ),
        decreases length - i,
    {
        if text.get_char(i) == separator {
            let part = text.substring_char(from, i);
            let ghost before = parts@;
            parts.push(part.to_owned());
            proof {
                assert(separator_from(text@, separator, i as int) == i);
                assert(texts(parts@) =~= texts(before).push(text@.subrange(from as int, i as int)));
                assert(split_from(text@, separator, from as int) == seq![
                    text@.subrange(from as int, i as int),
                ] + split_from(text@, separator, i + 1));
                assert(texts(parts@) + split_from(text@, separator, i + 1) =~= texts(before) + (
                seq![text@.subrange(from as int, i as int)] + split_from(text@, separator, i + 1)));
            }
            from = i + 1;
        }
        i = i + 1;
    }
    let ghost before = parts@;
    let rest = text.substring_char(from, length);
    parts.push(rest.to_owned());
    proof {
        assert(separator_from(text@, separator, length as int) == length);
        assert(rest@ =~= text@.skip(from as int));
        assert(texts(parts@) =~= texts(before) + seq![rest@]);
    }
    parts
}

/// Joins texts with a separator between them.
pub fn join(parts: &Vec<String>, separator: &str) -> (joined: String)
    ensures
        joined@ == join_text(texts(parts@), separator@),
{
    let mut joined = "".to_owned();
    let mut i: usize = 0;
    proof {
        reveal_strlit("");
        assert(joined@ =~= join_text(texts(parts@).take(0), separator@));
    }
    while i < parts.len()
        invariant
            i <= parts@.len(),
            joined@ == join_text(texts(parts@).take(i as int), separator@),
        decreases parts.len() - i,
    {
        if i > 0 {
            joined.append(separator);
        }
        joined.append(parts[i].as_str());
        proof {
            let next = texts(parts@).take(i + 1);
            assert(next.drop_last() =~= texts(parts@).take(i as int));
            assert(joined@ =~= join_text(next, separator@));
        }
        i = i + 1;
    }
    assert(texts(parts@).take(i as int) =~= texts(parts@));
    joined
}

/// Looking for a separator does not depend on what comes before.
proof fn lemma_separator_shifts(before: Seq<char>, text: Seq<char>, separator: char, from: int)
    requires
        0 <= from <= text.len(),
    ensures
        separator_from(before + text, separator, before.len() + from) == before.len()
            + separator_from(text, separator, from),
    decreases text.len() - from,
{
    if from < text.len() {
        assert((before + text)[before.len() + from] == text[from]);
        if text[from] != separator {
            lemma_separator_shifts(before, text, separator, from + 1);
        }
    }
}

/// Taking a text apart does not depend on what comes before.
proof fn lemma_split_shifts(before: Seq<char>, text: Seq<char>, separator: char, from: int)
    requires
        0 <= from <= text.len(),
    ensures
        split_from(before + text, separator, before.len() + from) == split_from(
            text,
            separator,
            from,
        ),
    decreases text.len() - from,
{
    let end = separator_from(text, separator, from);
    lemma_separator_shifts(before, text, separator, from);
    lemma_separator_from(text, separator, from);
    if end < text.len() {
        lemma_split_shifts(before, text, separator, end + 1);
        assert((before + text).subrange(before.len() + from, before.len() + end)
            =~= text.subrange(from, end));
    } else {
        assert((before + text).skip(before.len() + from) =~= text.skip(from));
    }
}

/// A text without separators is its only part.
pub proof fn lemma_split_whole(text: Seq<char>, separator: char)
    requires
        forall|i: int| 0 <= i < text.len() ==> #[trigger] text[i] != separator,
    ensures
        split_text(text, separator) == seq![text],
{
    lemma_separator_from(text, separator, 0);
    assert(text.skip(0) =~= text);
}

/// What stands in front of the first separator is the first part.
pub proof fn lemma_split_at(first: Seq<char>, separator: char, rest: Seq<char>)
    requires
        forall|i: int| 0 <= i < first.len() ==> #[trigger] first[i] != separator,
    ensures
        split_text(first + seq![separator] + rest, separator) == seq![first] + split_text(
            rest,
            separator,
        ),
{
    let text = first + seq![separator] + rest;
    let before = first + seq![separator];
    lemma_separator_from(text, separator, 0);
    let end = separator_from(text, separator, 0);
    assert(text[first.len() as int] == separator);
    assert(end == first.len()) by {
        if end < first.len() {
            assert(text[end] == first[end]);
        }
    }
    lemma_split_shifts(before, rest, separator, 0);
    assert(text =~= before + rest);
    assert(text.subrange(0, end) =~= first);
}

/// The number that decimal digits stand for.
pub open spec fn decimal_value(digits: Seq<char>) -> int
    decreases digits.len(),
{
    if digits.len() == 0 {
        0
    } else {
        10 * decimal_value(digits.drop_last()) + (digits.last() as int - '0' as int)
    }
}

/// A number in decimal notation is a number of digits that stand for it, without a zero in front
/// unless that is all.
pub proof fn law_decimals_read_back(number: nat)
    ensures
        decimal_value(decimal_text(number)) == number,
        decimal_text(number).len() > 0,
        forall|i: int|
            0 <= i < decimal_text(number).len() ==> '0' <= (#[trigger] decimal_text(number)[i])
                && decimal_text(number)[i] <= '9',
        number > 0 ==> decimal_text(number)[0] != '0',
        number == 0 ==> decimal_text(number) == seq!['0'],
    decreases number,
{
    let text = decimal_text(number);
    reveal_with_fuel(decimal_value, 2);
    if number < 10 {
        assert(text =~= seq![digit_char(number as int)]);
        assert(text.drop_last() =~= seq![]);
    } else {
        law_decimals_read_back(number / 10);
        let front = decimal_text(number / 10);
        let last = digit_char(number as int % 10);
        assert(text == front.push(last));
        assert(text.drop_last() =~= front);
        assert(text[0] == front[0]);
        assert forall|i: int| 0 <= i < text.len() implies '0' <= (#[trigger] text[i]) && text[i]
            <= '9' by {
            if i < front.len() {
                assert(text[i] == front[i]);
            }
        }
    }
}

/// Different numbers have different notations.
pub proof fn law_decimals_differ(first: nat, second: nat)
    requires
        first != second,
    ensures
        decimal_text(first) != decimal_text(second),
{
    law_decimals_read_back(first);
    law_decimals_read_back(second);
}

/// The texts of a list are those of its strings, in order.
pub proof fn law_texts_of_a_list(list: Seq<String>, i: int)
    requires
        0 <= i < list.len(),
    ensures
        texts(list).len() == list.len(),
        texts(list)[i] == list[i]@,
{
}

/// No parts joined are nothing, and one part stays as it is.
pub proof fn law_joining_a_single_part(part: Seq<char>, separator: Seq<char>)
    ensures
        join_text(seq![], separator) == Seq::<char>::empty(),
        join_text(seq![part], separator) == part,
{
}

/// Joining two lists is joining each and putting one separator between them.
pub proof fn law_joining_in_two_goes(
    first: Seq<Seq<char>>,
    second: Seq<Seq<char>>,
    separator: Seq<char>,
)
    requires
        first.len() > 0,
        second.len() > 0,
    ensures
        join_text(first + second, separator) == join_text(first, separator) + separator + join_text(
            second,
            separator,
        ),
    decreases second.len(),
{
    let all = first + second;
    assert(all.last() == second.last());
    if second.len() == 1 {
        assert(all.drop_last() =~= first);
        assert(join_text(second, separator) == second[0]);
    } else {
        law_joining_in_two_goes(first, second.drop_last(), separator);
        assert(all.drop_last() =~= first + second.drop_last());
        assert(join_text(all, separator) =~= join_text(first, separator) + separator + join_text(
            second,
            separator,
        ));
    }
}

/// The parts from a position on hold no separator, and joined they are the text from there on.
proof fn lemma_split_from_joins(text: Seq<char>, separator: char, from: int)
    requires
        0 <= from <= text.len(),
    ensures
        split_from(text, separator, from).len() > 0,
        join_text(split_from(text, separator, from), seq![separator]) == text.skip(from),
        forall|i: int|
            0 <= i < split_from(text, separator, from).len()
                ==> !(#[trigger] split_from(text, separator, from)[i]).contains(separator),
    decreases text.len() - from,
{
    lemma_separator_from(text, separator, from);
    let end = separator_from(text, separator, from);
    let parts = split_from(text, separator, from);
    if end < text.len() {
        let part = text.subrange(from, end);
        let rest = split_from(text, separator, end + 1);
        lemma_split_from_joins(text, separator, end + 1);
        assert(parts == seq![part] + rest);
        law_joining_in_two_goes(seq![part], rest, seq![separator]);
        assert(part + seq![separator] + text.skip(end + 1) =~= text.skip(from));
        assert(!part.contains(separator)) by {
            assert forall|j: int| 0 <= j < part.len() implies part[j] != separator by {
                assert(text[from + j] != separator);
            }
        }
        assert forall|i: int| 0 <= i < parts.len() implies !(#[trigger] parts[i]).contains(
            separator,
        ) by {
            if i > 0 {
                assert(parts[i] == rest[i - 1]);
            }
        }
    } else {
        let part = text.skip(from);
        assert(parts =~= seq![part]);
        assert(!part.contains(separator)) by {
            assert forall|j: int| 0 <= j < part.len() implies part[j] != separator by {
                assert(text[from + j] != separator);
            }
        }
    }
}

/// The parts of a text hold no separator, there is at least one, and joined by the separator they are
/// the text again.
pub proof fn law_split_parts_join_again(text: Seq<char>, separator: char)
    ensures
        split_text(text, separator).len() > 0,
        join_text(split_text(text, separator), seq![separator]) == text,
        forall|i: int|
            0 <= i < split_text(text, separator).len() ==> !(
            #[trigger] split_text(text, separator)[i]).contains(separator),
{
    lemma_split_from_joins(text, separator, 0);
    assert(text.skip(0) =~= text);
}

/// Parts without separators that are joined by the separator come apart as they were.
pub proof fn law_joined_parts_split_again(parts: Seq<Seq<char>>, separator: char)
    requires
        parts.len() > 0,
        forall|i: int| 0 <= i < parts.len() ==> !(#[trigger] parts[i]).contains(separator),
    ensures
        split_text(join_text(parts, seq![separator]), separator) == parts,
    decreases parts.len(),
{
    let first = parts[0];
    assert forall|j: int| 0 <= j < first.len() implies #[trigger] first[j] != separator by {
        assert(first.contains(first[j]));
    }
    if parts.len() == 1 {
        lemma_split_whole(first, separator);
        assert(parts =~= seq![first]);
    } else {
        let rest = parts.skip(1);
        assert forall|i: int| 0 <= i < rest.len() implies !(#[trigger] rest[i]).contains(
            separator,
        ) by {
            assert(rest[i] == parts[i + 1]);
        }
        law_joined_parts_split_again(rest, separator);
        assert(parts =~= seq![first] + rest);
        law_joining_in_two_goes(seq![first], rest, seq![separator]);
        lemma_split_at(first, separator, join_text(rest, seq![separator]));
    }
}

} // verus!
