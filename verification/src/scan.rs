//! Finding a field in the text of an answer.

use vstd::prelude::*;

use crate::text::to_chars;

verus! {

/// Characters with the Unicode property White_Space.
pub open spec fn is_white_space(c: char) -> bool {
    let p = c as u32;
    ||| 0x09 <= p <= 0x0D
    ||| p == 0x20
    ||| p == 0x85
    ||| p == 0xA0
    ||| p == 0x1680
    ||| 0x2000 <= p <= 0x200A
    ||| p == 0x2028
    ||| p == 0x2029
    ||| p == 0x202F
    ||| p == 0x205F
    ||| p == 0x3000
}

fn white_space(c: char) -> (white: bool)
    ensures
        white == is_white_space(c),
{
    let p: u32 = c as u32;
    (0x09 <= p && p <= 0x0D) || p == 0x20 || p == 0x85 || p == 0xA0 || p == 0x1680 || (0x2000 <= p
        && p <= 0x200A) || p == 0x2028 || p == 0x2029 || p == 0x202F || p == 0x205F || p == 0x3000
}

/// The text has the pattern at that place.
pub open spec fn occurs_at(text: Seq<char>, pattern: Seq<char>, at: int) -> bool {
    &&& 0 <= at
    &&& at + pattern.len() <= text.len()
    &&& text.subrange(at, at + pattern.len()) == pattern
}

/// First place from `at` on where the text has the pattern.
pub open spec fn find_from(text: Seq<char>, pattern: Seq<char>, at: int) -> Option<int>
    decreases text.len() + 1 - at,
{
    if at < 0 || at + pattern.len() > text.len() {
        None
    } else if occurs_at(text, pattern, at) {
        Some(at)
    } else {
        find_from(text, pattern, at + 1)
    }
}

/// The text without its leading white space.
pub open spec fn trim_left(text: Seq<char>) -> Seq<char>
    decreases text.len(),
{
    if text.len() > 0 && is_white_space(text[0]) {
        trim_left(text.drop_first())
    } else {
        text
    }
}

fn matches_at(text: &Vec<char>, pattern: &Vec<char>, at: usize) -> (found: bool)
    requires
        at + pattern.len() <= text.len(),
    ensures
        found == occurs_at(text@, pattern@, at as int),
{
    let mut i: usize = 0;
    while i < pattern.len()
        invariant
            i <= pattern.len(),
            at + pattern.len() <= text.len(),
            forall|j: int| 0 <= j < i ==> text@[at + j] == #[trigger] pattern@[j],
        decreases pattern.len() - i,
    {
        if text[at + i] != pattern[i] {
            assert(text@.subrange(at as int, at + pattern@.len())[i as int] != pattern@[i as int]);
            return false;
        }
        i = i + 1;
    }
    assert(text@.subrange(at as int, at + pattern@.len()) =~= pattern@);
    true
}

/// Finds the first place where the text has the pattern.
pub fn find(text: &Vec<char>, pattern: &Vec<char>) -> (at: Option<usize>)
    ensures
        match at {
            Some(i) => find_from(text@, pattern@, 0) == Some(i as int) && i + pattern.len()
                <= text.len(),
            None => find_from(text@, pattern@, 0) is None,
        },
{
    let mut at: usize = 0;
    while pattern.len() <= text.len() && at <= text.len() - pattern.len()
        invariant
            at <= text.len() + 1,
            find_from(text@, pattern@, 0) == find_from(text@, pattern@, at as int),
        decreases text.len() + 1 - at,
    {
        if matches_at(text, pattern, at) {
            return Some(at);
        }
        assert(pattern@.len() > 0) by {
            if pattern@.len() == 0 {
                assert(text@.subrange(at as int, at as int) =~= pattern@);
            }
        }
        at = at + 1;
    }
    None
}

/// Where the white space from `start` on ends.
pub fn skip_white(text: &Vec<char>, start: usize) -> (at: usize)
    requires
        start <= text.len(),
    ensures
        start <= at <= text.len(),
        text@.skip(at as int) == trim_left(text@.skip(start as int)),
{
    let mut at: usize = start;
    while at < text.len() && white_space(text[at])
        invariant
            start <= at <= text.len(),
            trim_left(text@.skip(start as int)) == trim_left(text@.skip(at as int)),
        decreases text.len() - at,
    {
        assert(text@.skip(at as int)[0] == text@[at as int]);
        assert(text@.skip(at as int).drop_first() =~= text@.skip(at + 1));
        at = at + 1;
    }
    proof {
        if at < text.len() {
            assert(text@.skip(at as int)[0] == text@[at as int]);
        }
    }
    at
}

/// Characters of a decimal number.
pub open spec fn is_number_char(c: char) -> bool {
    ||| '0' <= c <= '9'
    ||| c == '.'
    ||| c == '-'
}

/// The leading characters of a text that belong to a decimal number.
pub open spec fn leading_number(text: Seq<char>) -> Seq<char>
    decreases text.len(),
{
    if text.len() > 0 && is_number_char(text[0]) {
        seq![text[0]] + leading_number(text.drop_first())
    } else {
        Seq::empty()
    }
}

/// The decimal number after the first place of a field's name, past white
/// space; `None` where the name does not occur.
pub open spec fn number_text(text: Seq<char>, key: Seq<char>) -> Option<Seq<char>> {
    match find_from(text, key, 0) {
        Some(at) => Some(leading_number(trim_left(text.skip(at + key.len())))),
        None => None,
    }
}

/// Reads the characters of the number after a field's name.
pub fn parse_field(text: &str, key: &str) -> (number: Option<Vec<char>>)
    ensures
        match number {
            Some(chars) => number_text(text@, key@) == Some(chars@),
            None => number_text(text@, key@) is None,
        },
{
    let chars = to_chars(text);
    let name = to_chars(key);
    let found: Option<usize> = find(&chars, &name);
    let start: usize = match found {
        Some(at) => at + name.len(),
        None => return None,
    };
    let first: usize = skip_white(&chars, start);
    let ghost all = leading_number(chars@.skip(first as int));
    let mut number: Vec<char> = Vec::new();
    let mut at: usize = first;
    assert(all =~= number@ + leading_number(chars@.skip(at as int)));
    while at < chars.len() && (('0' <= chars[at] && chars[at] <= '9') || chars[at] == '.'
        || chars[at] == '-')
        invariant
            first <= at <= chars.len(),
            all == number@ + leading_number(chars@.skip(at as int)),
        decreases chars.len() - at,
    {
        let ghost here = chars@.skip(at as int);
        let ghost before = number@;
        number.push(chars[at]);
        proof {
            assert(here[0] == chars@[at as int]);
            assert(here.drop_first() =~= chars@.skip(at + 1));
            assert(all =~= number@ + leading_number(chars@.skip(at + 1)));
        }
        at = at + 1;
    }
    proof {
        if at < chars.len() {
            assert(chars@.skip(at as int)[0] == chars@[at as int]);
        }
        assert(all =~= number@);
    }
    Some(number)
}

/// What is found is the first place where the pattern stands; nothing is found
/// only where it stands nowhere.
pub proof fn first_places_are_found(text: Seq<char>, pattern: Seq<char>, at: int, i: int)
    requires
        0 <= at,
    ensures
        find_from(text, pattern, at) matches Some(k) ==> at <= k && k + pattern.len() <= text.len()
            && text.subrange(k, k + pattern.len()) == pattern && (at <= i < k ==> text.subrange(
            i,
            i + pattern.len(),
        ) != pattern),
        find_from(text, pattern, at) is None && at <= i && i + pattern.len() <= text.len()
            ==> text.subrange(i, i + pattern.len()) != pattern,
    decreases text.len() + 1 - at,
{
    if at + pattern.len() <= text.len() && !occurs_at(text, pattern, at) {
        first_places_are_found(text, pattern, at + 1, i);
    }
}

/// Trimming takes white space away up to the first other character, and
/// nothing else.
pub proof fn white_space_is_trimmed(white: Seq<char>, rest: Seq<char>)
    requires
        forall|i: int| 0 <= i < white.len() ==> is_white_space(#[trigger] white[i]),
        rest.len() > 0 ==> !is_white_space(rest[0]),
    ensures
        trim_left(white + rest) == rest,
    decreases white.len(),
{
    if white.len() > 0 {
        assert((white + rest)[0] == white[0]);
        assert((white + rest).drop_first() =~= white.drop_first() + rest);
        assert forall|i: int| 0 <= i < white.drop_first().len() implies is_white_space(
            #[trigger] white.drop_first()[i],
        ) by {
            assert(white.drop_first()[i] == white[i + 1]);
        }
        white_space_is_trimmed(white.drop_first(), rest);
    } else {
        assert(white + rest =~= rest);
    }
}

/// Spaces, tabs and the ends of lines are white space; digits, letters and
/// signs of the ASCII range are not.
pub proof fn ordinary_white_space(c: char)
    ensures
        c == ' ' || c == '\t' || c == '\n' || c == '\r' ==> is_white_space(c),
        '!' <= c <= '~' ==> !is_white_space(c),
        is_number_char(c) ==> !is_white_space(c),
{
}

/// A number goes on over digits, points and signs, and ends before any other
/// character.
pub proof fn numbers_are_read_whole(number: Seq<char>, rest: Seq<char>)
    requires
        forall|i: int|
            0 <= i < number.len() ==> '0' <= #[trigger] number[i] <= '9' || number[i] == '.'
                || number[i] == '-',
        rest.len() > 0 ==> !('0' <= rest[0] <= '9') && rest[0] != '.' && rest[0] != '-',
    ensures
        leading_number(number + rest) == number,
    decreases number.len(),
{
    if number.len() > 0 {
        assert((number + rest)[0] == number[0]);
        assert((number + rest).drop_first() =~= number.drop_first() + rest);
        assert forall|i: int| 0 <= i < number.drop_first().len() implies '0'
            <= #[trigger] number.drop_first()[i] <= '9' || number.drop_first()[i] == '.'
            || number.drop_first()[i] == '-' by {
            assert(number.drop_first()[i] == number[i + 1]);
        }
        numbers_are_read_whole(number.drop_first(), rest);
        assert(seq![number[0]] + number.drop_first() =~= number);
    } else {
        assert(number + rest =~= rest);
        assert(number =~= Seq::empty());
    }
}

/// The number behind a field's name is read, past white space and up to what
/// follows it.
pub proof fn fields_are_read_past_white_space(
    key: Seq<char>,
    white: Seq<char>,
    number: Seq<char>,
    rest: Seq<char>,
)
    requires
        forall|i: int| 0 <= i < white.len() ==> is_white_space(#[trigger] white[i]),
        forall|i: int|
            0 <= i < number.len() ==> '0' <= #[trigger] number[i] <= '9' || number[i] == '.'
                || number[i] == '-',
        number.len() > 0,
        rest.len() > 0 ==> !('0' <= rest[0] <= '9') && rest[0] != '.' && rest[0] != '-',
    ensures
        number_text(key + white + number + rest, key) == Some(number),
{
    let text = key + white + number + rest;
    assert(text.subrange(0, key.len() as int) =~= key);
    assert(find_from(text, key, 0) == Some(0int));
    assert(text.skip(key.len() as int) =~= white + (number + rest));
    ordinary_white_space(number[0]);
    white_space_is_trimmed(white, number + rest);
    numbers_are_read_whole(number, rest);
}

} // verus!
