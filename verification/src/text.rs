//! Texts: comparing them, writing numbers and endpoints, splitting into words.

use vstd::prelude::*;
use vstd::string::StrSliceExecFns;
use vstd::string::StringExecFns;

verus! {

/// The character for a decimal digit.
pub open spec fn digit_char(digit: nat) -> char {
    if digit == 0 { '0' }
    else if digit == 1 { '1' }
    else if digit == 2 { '2' }
    else if digit == 3 { '3' }
    else if digit == 4 { '4' }
    else if digit == 5 { '5' }
    else if digit == 6 { '6' }
    else if digit == 7 { '7' }
    else if digit == 8 { '8' }
    else { '9' }
}

/// A number in decimal, without leading zeros.
pub open spec fn decimal(number: nat) -> Seq<char>
    decreases number,
{
    if number < 10 {
        seq![digit_char(number)]
    } else {
        decimal(number / 10).push(digit_char(number % 10))
    }
}

/// The endpoint of a listener, as `address:port`.
pub open spec fn endpoint_text(address: Seq<char>, port: u16) -> Seq<char> {
    address.push(':') + decimal(port as nat)
}

/// Whether two texts hold the same characters.
pub fn same_text(left: &str, right: &str) -> (same: bool)
    ensures
        same == (left@ == right@),
{
    left.to_owned() == right.to_owned()
}

fn digit_text(digit: u16) -> (text: &'static str)
    requires
        digit < 10,
    ensures
        text@ == seq![digit_char(digit as nat)],
{
    proof {
        reveal_strlit("0");
        reveal_strlit("1");
        reveal_strlit("2");
        reveal_strlit("3");
        reveal_strlit("4");
        reveal_strlit("5");
        reveal_strlit("6");
        reveal_strlit("7");
        reveal_strlit("8");
        reveal_strlit("9");
    }
    match digit {
        0 => "0",
        1 => "1",
        2 => "2",
        3 => "3",
        4 => "4",
        5 => "5",
        6 => "6",
        7 => "7",
        8 => "8",
        _ => "9",
    }
}

/// Writes a number in decimal.
pub fn decimal_text(number: u16) -> (text: String)
    ensures
        text@ == decimal(number as nat),
    decreases number,
{
    if number < 10 {
        digit_text(number).to_owned()
    } else {
        let mut text = decimal_text(number / 10);
        text.append(digit_text(number % 10));
        text
    }
}

/// Writes the endpoint of a listener as `address:port`.
pub fn endpoint(address: &str, port: u16) -> (text: String)
    ensures
        text@ == endpoint_text(address@, port),
{
    proof {
        reveal_strlit(":");
    }
    let mut text = address.to_owned();
    text.append(":");
    text.append(decimal_text(port).as_str());
    text
}

/// A character with the Unicode property White_Space.
pub open spec fn is_white_space(c: char) -> bool {
    let code = c as int;
    ||| 0x9 <= code <= 0xd
    ||| code == 0x20
    ||| code == 0x85
    ||| code == 0xa0
    ||| code == 0x1680
    ||| 0x2000 <= code <= 0x200a
    ||| code == 0x2028
    ||| code == 0x2029
    ||| code == 0x202f
    ||| code == 0x205f
    ||| code == 0x3000
}

/// Whether a character is white space.
pub fn is_whitespace(c: char) -> (white: bool)
    ensures
        white == is_white_space(c),
{
    let code: u32 = c as u32;
    (0x9 <= code && code <= 0xd) || code == 0x20 || code == 0x85 || code == 0xa0 || code == 0x1680
        || (0x2000 <= code && code <= 0x200a) || code == 0x2028 || code == 0x2029 || code == 0x202f
        || code == 0x205f || code == 0x3000
}

/// The contents of a list of texts.
pub open spec fn text_views(texts: Seq<String>) -> Seq<Seq<char>> {
    texts.map_values(|text: String| text@)
}

/// For each character of a text, whether it is white space.
pub open spec fn white_space_marks(text: Seq<char>) -> Seq<bool> {
    text.map_values(|c: char| is_white_space(c))
}

/// How many unmarked characters there are before the first marked one.
pub open spec fn unmarked_len(marks: Seq<bool>) -> nat
    decreases marks.len(),
{
    if marks.len() == 0 || marks[0] {
        0
    } else {
        1 + unmarked_len(marks.skip(1))
    }
}

/// There are no more unmarked characters than characters.
pub proof fn unmarked_len_bounded(marks: Seq<bool>)
    ensures
        unmarked_len(marks) <= marks.len(),
    decreases marks.len(),
{
    if marks.len() != 0 && !marks[0] {
        unmarked_len_bounded(marks.skip(1));
    }
}

/// The longest stretches of unmarked characters of a text.
pub open spec fn unmarked_parts(text: Seq<char>, marks: Seq<bool>) -> Seq<Seq<char>>
    decreases marks.len(),
{
    if marks.len() == 0 {
        Seq::empty()
    } else if marks[0] {
        unmarked_parts(text.skip(1), marks.skip(1))
    } else {
        proof {
            unmarked_len_bounded(marks);
        }
        let n = unmarked_len(marks) as int;
        seq![text.take(n)] + unmarked_parts(text.skip(n), marks.skip(n))
    }
}

/// The words of a text: the longest stretches without white space.
pub open spec fn words(text: Seq<char>) -> Seq<Seq<char>> {
    unmarked_parts(text, white_space_marks(text))
}

/// Splits a text into its words.
pub fn split_words(text: &str) -> (found: Vec<String>)
    ensures
        text_views(found@) == words(text@),
{
    let total: usize = text.unicode_len();
    let mut marks: Vec<bool> = Vec::new();
    let mut i: usize = 0;
    while i < total
        invariant
            i <= total,
            total == text@.len(),
            marks@.len() == i,
            forall|j: int| 0 <= j < i ==> #[trigger] marks@[j] == is_white_space(text@[j]),
        decreases total - i,
    {
        marks.push(is_whitespace(text.get_char(i)));
        i += 1;
    }
    assert(marks@ =~= white_space_marks(text@));
    split_at_marks(text, &marks)
}

/// Splits a text into its longest stretches of unmarked characters.
pub fn split_at_marks(text: &str, marks: &Vec<bool>) -> (found: Vec<String>)
    requires
        marks@.len() == text@.len(),
    ensures
        text_views(found@) == unmarked_parts(text@, marks@),
{
    let total: usize = marks.len();
    let mut found: Vec<String> = Vec::new();
    let mut i: usize = 0;
    assert(text@.skip(0) =~= text@);
    assert(marks@.skip(0) =~= marks@);
    assert(text_views(found@) =~= Seq::<Seq<char>>::empty());
    while i < total
        invariant
            i <= total,
            total == text@.len(),
            total == marks@.len(),
            text_views(found@) + unmarked_parts(text@.skip(i as int), marks@.skip(i as int))
                == unmarked_parts(text@, marks@),
        decreases total - i,
    {
        let ghost rest = text@.skip(i as int);
        let ghost rest_marks = marks@.skip(i as int);
        assert(rest.skip(1) =~= text@.skip(i + 1));
        assert(rest_marks.skip(1) =~= marks@.skip(i + 1));
        if marks[i] {
            i += 1;
        } else {
            let start: usize = i;
            proof {
                unmarked_len_bounded(rest_marks);
            }
            while i < total && !marks[i]
                invariant
                    start <= i <= total,
                    total == marks@.len(),
                    rest_marks == marks@.skip(start as int),
                    unmarked_len(rest_marks) == i - start + unmarked_len(marks@.skip(i as int)),
                decreases total - i,
            {
                assert(marks@.skip(i as int).skip(1) =~= marks@.skip(i + 1));
                i += 1;
            }
            let word = text.substring_char(start, i).to_owned();
            let ghost before = found@;
            found.push(word);
            proof {
                assert(rest.take(i - start) =~= text@.subrange(start as int, i as int));
                assert(rest.skip(i - start) =~= text@.skip(i as int));
                assert(rest_marks.skip(i - start) =~= marks@.skip(i as int));
                assert(text_views(found@) =~= text_views(before).push(word@));
                let after = unmarked_parts(text@.skip(i as int), marks@.skip(i as int));
                assert(text_views(found@) + after =~= text_views(before) + (seq![word@] + after));
            }
        }
    }
    assert(marks@.skip(i as int) =~= Seq::<bool>::empty());
    assert(text_views(found@) =~= unmarked_parts(text@, marks@));
    found
}

/// A character with an ASCII capital letter made small.
pub open spec fn ascii_lower(c: char) -> int {
    if 'A' <= c && c <= 'Z' {
        c as int + 32
    } else {
        c as int
    }
}

/// Whether two texts are the same but for the case of ASCII letters.
pub open spec fn same_ignoring_ascii_case(left: Seq<char>, right: Seq<char>) -> bool {
    left.len() == right.len() && forall|i: int|
        0 <= i < left.len() ==> ascii_lower(#[trigger] left[i]) == ascii_lower(right[i])
}

fn lower_code(c: char) -> (code: u32)
    ensures
        code == ascii_lower(c),
{
    let code: u32 = c as u32;
    if 'A' <= c && c <= 'Z' {
        code + 32
    } else {
        code
    }
}

/// Compares two texts without regard to the case of ASCII letters.
pub fn eq_ignore_ascii_case(left: &str, right: &str) -> (same: bool)
    ensures
        same == same_ignoring_ascii_case(left@, right@),
{
    let total: usize = left.unicode_len();
    if total != right.unicode_len() {
        return false;
    }
    let mut i: usize = 0;
    while i < total
        invariant
            i <= total,
            total == left@.len(),
            total == right@.len(),
            forall|j: int|
                0 <= j < i ==> ascii_lower(#[trigger] left@[j]) == ascii_lower(right@[j]),
        decreases total - i,
    {
        if lower_code(left.get_char(i)) != lower_code(right.get_char(i)) {
            return false;
        }
        i += 1;
    }
    true
}

/// The number that a text in decimal stands for.
pub open spec fn decimal_value(text: Seq<char>) -> int
    decreases text.len(),
{
    if text.len() == 0 {
        0
    } else {
        10 * decimal_value(text.drop_last()) + (text.last() as int - '0' as int)
    }
}

/// A number that is written in decimal reads back. It is written with digits alone,
/// and without a leading zero.
pub proof fn decimal_reads_back(number: nat, i: int)
    ensures
        decimal_value(decimal(number)) == number,
        decimal(number).len() > 0,
        decimal(number)[0] == '0' ==> number == 0,
        number == 0 ==> decimal(number).len() == 1,
        0 <= i < decimal(number).len() ==> '0' <= decimal(number)[i] <= '9',
    decreases number,
{
    reveal_with_fuel(decimal_value, 2);
    if number >= 10 {
        decimal_reads_back(number / 10, i);
        decimal_reads_back(number / 10, 0);
        assert(decimal(number).drop_last() =~= decimal(number / 10));
    } else {
        assert(decimal(number).drop_last() =~= Seq::<char>::empty());
    }
}

/// An endpoint is the address, a colon and the port in decimal.
pub proof fn endpoint_reads_back(address: Seq<char>, port: u16)
    ensures
        endpoint_text(address, port).take(address.len() as int) == address,
        endpoint_text(address, port)[address.len() as int] == ':',
        decimal_value(endpoint_text(address, port).skip(address.len() as int + 1)) == port,
        endpoint_text(address, port).skip(address.len() as int + 1)[0] == '0' ==> port == 0,
{
    let text = endpoint_text(address, port);
    decimal_reads_back(port as nat, 0);
    assert(text.take(address.len() as int) =~= address);
    assert(text.skip(address.len() as int + 1) =~= decimal(port as nat));
}

/// Two endpoints are written alike only if address and port are the same.
pub proof fn endpoints_differ(address: Seq<char>, port: u16, other: Seq<char>, other_port: u16)
    requires
        endpoint_text(address, port) == endpoint_text(other, other_port),
    ensures
        address == other,
        port == other_port,
{
    let text = endpoint_text(address, port);
    endpoint_reads_back(address, port);
    endpoint_reads_back(other, other_port);
    if address.len() < other.len() {
        let at = other.len() - address.len() - 1;
        decimal_reads_back(port as nat, at);
        assert(text[other.len() as int] == decimal(port as nat)[at]);
    }
    if other.len() < address.len() {
        let at = address.len() - other.len() - 1;
        decimal_reads_back(other_port as nat, at);
        assert(text[address.len() as int] == decimal(other_port as nat)[at]);
    }
}

/// Texts are the same but for the case of ASCII letters if and only if each
/// character is the same or the same letter, once capital and once small.
pub proof fn case_is_all_that_is_ignored(left: Seq<char>, right: Seq<char>)
    ensures
        same_ignoring_ascii_case(left, right) <==> left.len() == right.len() && forall|i: int|
            0 <= i < left.len() ==> {
                ||| #[trigger] left[i] == right[i]
                ||| ('A' <= left[i] <= 'Z' && right[i] as int == left[i] as int + 32)
                ||| ('A' <= right[i] <= 'Z' && left[i] as int == right[i] as int + 32)
            },
{
    if left.len() == right.len() {
        assert(forall|i: int|
            0 <= i < left.len() ==> (ascii_lower(#[trigger] left[i]) == ascii_lower(right[i])
                <==> (left[i] == right[i] || ('A' <= left[i] <= 'Z' && right[i] as int
                == left[i] as int + 32) || ('A' <= right[i] <= 'Z' && left[i] as int
                == right[i] as int + 32))));
    }
}

/// A text of no characters has no words.
pub proof fn nothing_has_no_words()
    ensures
        words(Seq::<char>::empty()).len() == 0,
{
}

/// A text without white space, unless it is empty, is one word.
pub proof fn text_without_white_space_is_one_word(text: Seq<char>)
    requires
        text.len() > 0,
        forall|i: int| 0 <= i < text.len() ==> !is_white_space(#[trigger] text[i]),
    ensures
        words(text) == seq![text],
{
    let marks = white_space_marks(text);
    assert forall|i: int| 0 <= i < marks.len() implies !(#[trigger] marks[i]) by {
        assert(!is_white_space(text[i]));
    }
    unmarked_text_is_one_part(text, marks);
}

/// A text without marks, unless it is empty, is one part.
pub proof fn unmarked_text_is_one_part(text: Seq<char>, marks: Seq<bool>)
    requires
        text.len() > 0,
        marks.len() == text.len(),
        forall|i: int| 0 <= i < marks.len() ==> !(#[trigger] marks[i]),
    ensures
        unmarked_parts(text, marks) == seq![text],
{
    all_unmarked(marks);
    assert(marks.skip(marks.len() as int) =~= Seq::<bool>::empty());
    assert(text.take(text.len() as int) =~= text);
    reveal_with_fuel(unmarked_parts, 2);
    assert(!marks[0]);
    assert(unmarked_parts(text, marks) =~= seq![text]);
}

proof fn all_unmarked(marks: Seq<bool>)
    requires
        forall|i: int| 0 <= i < marks.len() ==> !(#[trigger] marks[i]),
    ensures
        unmarked_len(marks) == marks.len(),
    decreases marks.len(),
{
    if marks.len() > 0 {
        assert forall|i: int| 0 <= i < marks.skip(1).len() implies !(#[trigger] marks.skip(1)[i]) by {
            assert(!marks[i + 1]);
        }
        all_unmarked(marks.skip(1));
    }
}

/// White space parts words: the words of a text are those before it and then those
/// after it.
pub proof fn white_space_parts_words(before: Seq<char>, space: char, after: Seq<char>)
    requires
        is_white_space(space),
    ensures
        words(before.push(space) + after) == words(before) + words(after),
{
    let text = before.push(space) + after;
    let at = before.len() as int;
    let marks = white_space_marks(text);
    assert(marks[at]);
    parts_split(text, marks, at);
    assert(text.take(at) =~= before);
    assert(text.skip(at + 1) =~= after);
    assert(marks.take(at) =~= white_space_marks(before));
    assert(marks.skip(at + 1) =~= white_space_marks(after));
}

proof fn unmarked_len_stops(marks: Seq<bool>, at: int)
    requires
        0 <= at < marks.len(),
        marks[at],
    ensures
        unmarked_len(marks) <= at,
        unmarked_len(marks.take(at)) == unmarked_len(marks),
    decreases marks.len(),
{
    if at > 0 && !marks[0] {
        unmarked_len_stops(marks.skip(1), at - 1);
        assert(marks.take(at).skip(1) =~= marks.skip(1).take(at - 1));
    }
}

/// A mark parts a text: what lies between marks is what lies between them before it
/// and then what lies between them after it.
pub proof fn parts_split(text: Seq<char>, marks: Seq<bool>, at: int)
    requires
        text.len() == marks.len(),
        0 <= at < marks.len(),
        marks[at],
    ensures
        unmarked_parts(text, marks) == unmarked_parts(text.take(at), marks.take(at))
            + unmarked_parts(text.skip(at + 1), marks.skip(at + 1)),
    decreases marks.len(),
{
    let left = unmarked_parts(text.take(at), marks.take(at));
    let right = unmarked_parts(text.skip(at + 1), marks.skip(at + 1));
    if marks[0] {
        if at == 0 {
            assert(left + right =~= right);
        } else {
            parts_split(text.skip(1), marks.skip(1), at - 1);
            assert(text.take(at).skip(1) =~= text.skip(1).take(at - 1));
            assert(marks.take(at).skip(1) =~= marks.skip(1).take(at - 1));
            assert(text.skip(1).skip(at) =~= text.skip(at + 1));
            assert(marks.skip(1).skip(at) =~= marks.skip(at + 1));
        }
    } else {
        let n = unmarked_len(marks) as int;
        unmarked_len_stops(marks, at);
        unmarked_len_bounded(marks);
        parts_split(text.skip(n), marks.skip(n), at - n);
        assert(text.take(at).take(n) =~= text.take(n));
        assert(text.take(at).skip(n) =~= text.skip(n).take(at - n));
        assert(marks.take(at).skip(n) =~= marks.skip(n).take(at - n));
        assert(text.skip(n).skip(at - n + 1) =~= text.skip(at + 1));
        assert(marks.skip(n).skip(at - n + 1) =~= marks.skip(at + 1));
        let middle = unmarked_parts(text.skip(n).take(at - n), marks.skip(n).take(at - n));
        assert(left == seq![text.take(n)] + middle);
        assert(unmarked_parts(text, marks) =~= seq![text.take(n)] + (middle + right));
        assert(left + right =~= seq![text.take(n)] + (middle + right));
    }
}

/// The contents of a list of texts are those of each, in their order.
pub proof fn text_views_are_the_texts(texts: Seq<String>, i: int)
    ensures
        text_views(texts).len() == texts.len(),
        0 <= i < texts.len() ==> text_views(texts)[i] == texts[i]@,
{
}

} // verus!
