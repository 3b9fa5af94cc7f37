//! Client version check: a banner asks the player to refresh once the server
//! announces a newer client.

use vstd::prelude::*;

use crate::scan::{find, find_from, skip_white, trim_left};
use crate::text::{decimal_text, to_chars};

verus! {

/// Version of this client, bumped on every rebuild together with the number in
/// its page.
pub const CLIENT_VERSION: u32 = 321;

pub open spec fn is_digit(c: char) -> bool {
    '0' <= c <= '9'
}

/// The leading decimal digits of a text.
pub open spec fn leading_digits(text: Seq<char>) -> Seq<char>
    decreases text.len(),
{
    if text.len() > 0 && is_digit(text[0]) {
        seq![text[0]] + leading_digits(text.drop_first())
    } else {
        Seq::empty()
    }
}

/// The number that decimal digits stand for.
pub open spec fn number_of(digits: Seq<char>) -> nat
    decreases digits.len(),
{
    if digits.len() == 0 {
        0
    } else {
        (number_of(digits.drop_last()) * 10 + (digits.last() as u32 - '0' as u32)) as nat
    }
}

/// The number after a field's name: white space may stand before it, it has at
/// least one digit and fits in 32 bits.
pub open spec fn number_after(text: Seq<char>, name: Seq<char>) -> Option<u32> {
    match find_from(text, name, 0) {
        Some(at) => {
            let digits = leading_digits(trim_left(text.skip(at + name.len())));
            if digits.len() > 0 && number_of(digits) <= u32::MAX {
                Some(number_of(digits) as u32)
            } else {
                None
            }
        },
        None => None,
    }
}

/// The number that follows from `start` on, past white space.
fn read_number(text: &Vec<char>, start: usize) -> (number: Option<u32>)
    requires
        start <= text.len(),
    ensures
        ({
            let digits = leading_digits(trim_left(text@.skip(start as int)));
            number == (if digits.len() > 0 && number_of(digits) <= u32::MAX {
                Some(number_of(digits) as u32)
            } else {
                None
            })
        }),
{
    let mut at: usize = skip_white(text, start);
    let ghost rest = text@.skip(at as int);
    let begin: usize = at;
    let ghost first = at as int;
    let ghost all = leading_digits(rest);
    proof {
        assert(text@.subrange(first, first) =~= Seq::empty());
        assert(all =~= text@.subrange(first, first) + leading_digits(rest));
    }
    let mut value: u64 = 0;
    let mut fits: bool = true;
    while at < text.len() && '0' <= text[at] && text[at] <= '9'
        invariant
            0 <= first <= at <= text.len(),
            all == text@.subrange(first, at as int) + leading_digits(text@.skip(at as int)),
            fits ==> value == number_of(text@.subrange(first, at as int)) && value <= u32::MAX,
            !fits ==> number_of(text@.subrange(first, at as int)) > u32::MAX,
        decreases text.len() - at,
    {
        let ghost seen = text@.subrange(first, at as int);
        let ghost more = text@.subrange(first, at + 1);
        proof {
            let here = text@.skip(at as int);
            assert(here[0] == text@[at as int]);
            assert(here.drop_first() =~= text@.skip(at + 1));
            assert(leading_digits(here) == seq![here[0]] + leading_digits(text@.skip(at + 1)));
            assert(more =~= seen.push(text@[at as int]));
            assert(more.drop_last() =~= seen);
            assert(all =~= more + leading_digits(text@.skip(at + 1)));
        }
        let digit: u64 = text[at] as u64 - 48;
        if fits {
            value = value * 10 + digit;
            if value > u32::MAX as u64 {
                fits = false;
            }
        }
        at = at + 1;
    }
    proof {
        if at < text.len() {
            assert(text@.skip(at as int)[0] == text@[at as int]);
        }
        assert(leading_digits(text@.skip(at as int)) =~= Seq::empty());
        assert(all =~= text@.subrange(first, at as int));
    }
    if at > begin && fits {
        Some(value as u32)
    } else {
        None
    }
}

/// The version that the server announces: the number after the first
/// `"version":` of its answer.
pub fn announced_version(text: &str) -> (version: Option<u32>)
    ensures
        version == number_after(text@, "\"version\":"@),
{
    let chars = to_chars(text);
    let name = to_chars("\"version\":");
    match find(&chars, &name) {
        Some(at) => read_number(&chars, at + name.len()),
        None => None,
    }
}

/// Whether a newer client was seen.
#[derive(Debug, Clone, Copy, PartialEq, Eq, Structural)]
pub struct VersionState {
    pub mismatch: bool,
}

impl Default for VersionState {
    fn default() -> (state: VersionState)
        ensures
            !state.mismatch,
    {
        VersionState { mismatch: false }
    }
}

/// The banner shows after an announcement.
pub open spec fn banner_shows(mismatch: bool, announced: Option<u32>) -> bool {
    mismatch || (announced matches Some(version) && version > CLIENT_VERSION)
}

impl VersionState {
    /// Takes note of what the server announces and tells whether the banner
    /// shows. Once a newer version was seen the banner stays, as the player
    /// still runs the old one; an older version is no reason to refresh.
    pub fn update_banner_visibility(&mut self, announced: Option<u32>) -> (show: bool)
        ensures
            show == banner_shows(old(self).mismatch, announced),
            final(self).mismatch == show,
    {
        if !self.mismatch {
            if let Some(version) = announced {
                if version > CLIENT_VERSION {
                    self.mismatch = true;
                }
            }
        }
        self.mismatch
    }
}

/// Whatever the server announces later, the banner stays.
pub proof fn banner_is_sticky(mismatch: bool, announced: Option<u32>, later: Option<u32>)
    requires
        banner_shows(mismatch, announced),
    ensures
        banner_shows(banner_shows(mismatch, announced), later),
{
}

proof fn lemma_digits(n: nat)
    ensures
        decimal_text(n).len() > 0,
        forall|i: int| 0 <= i < decimal_text(n).len() ==> is_digit(#[trigger] decimal_text(n)[i]),
        number_of(decimal_text(n)) == n,
    decreases n,
{
    let text = decimal_text(n);
    if n >= 10 {
        lemma_digits(n / 10);
        assert(text.drop_last() =~= decimal_text(n / 10));
        assert(text.last() as u32 == '0' as u32 + n % 10);
    } else {
        assert(text.drop_last() =~= Seq::empty());
        assert(number_of(text.drop_last()) == 0);
        assert(text.last() as u32 == '0' as u32 + n);
    }
}

proof fn lemma_leading_digits(digits: Seq<char>, rest: Seq<char>)
    requires
        forall|i: int| 0 <= i < digits.len() ==> is_digit(#[trigger] digits[i]),
        rest.len() > 0 ==> !is_digit(rest[0]),
    ensures
        leading_digits(digits + rest) == digits,
    decreases digits.len(),
{
    let text = digits + rest;
    if digits.len() == 0 {
        assert(text =~= rest);
        assert(leading_digits(text) =~= digits);
    } else {
        assert(is_digit(text[0]));
        assert(text.drop_first() =~= digits.drop_first() + rest);
        assert forall|i: int| 0 <= i < digits.drop_first().len() implies is_digit(
            #[trigger] digits.drop_first()[i],
        ) by {
            assert(digits.drop_first()[i] == digits[i + 1]);
        }
        lemma_leading_digits(digits.drop_first(), rest);
        assert(leading_digits(text) =~= digits);
    }
}

/// A number that is written behind a field's name is read back, whatever
/// follows it but another digit.
pub proof fn written_number_is_read_back(name: Seq<char>, n: u32, rest: Seq<char>)
    requires
        rest.len() > 0 ==> !is_digit(rest[0]),
    ensures
        number_after(name + decimal_text(n as nat) + rest, name) == Some(n),
{
    let digits = decimal_text(n as nat);
    let text = name + digits + rest;
    lemma_digits(n as nat);
    lemma_leading_digits(digits, rest);
    assert(text.subrange(0, name.len() as int) =~= name);
    assert(text.skip(name.len() as int) =~= digits + rest);
    assert(is_digit((digits + rest)[0])) by {
        assert((digits + rest)[0] == digits[0]);
    }
    assert(trim_left(digits + rest) == digits + rest);
}

/// The banner shows once a version was announced that is higher than this
/// client's; the same version and lower ones do not bring it up.
pub proof fn only_newer_versions_bring_the_banner(version: u32)
    ensures
        banner_shows(false, Some(version)) <==> version > CLIENT_VERSION,
        !banner_shows(false, None),
        !banner_shows(false, Some(CLIENT_VERSION)),
        banner_shows(true, Some(version)) && banner_shows(true, None),
{
}

/// Each further digit makes a number ten times as large, and the digit is
/// added.
pub proof fn digits_make_up_a_number(digits: Seq<char>, digit: char)
    requires
        is_digit(digit),
    ensures
        number_of(Seq::empty()) == 0,
        number_of(digits.push(digit)) == number_of(digits) * 10 + (digit as int - '0' as int),
{
    assert(digits.push(digit).drop_last() =~= digits);
    assert(digits.push(digit).last() == digit);
}

/// A name that does not occur has no number, and neither has one that no digit
/// follows.
pub proof fn numbers_follow_their_name(text: Seq<char>, name: Seq<char>)
    ensures
        find_from(text, name, 0) is None ==> number_after(text, name) is None,
        find_from(text, name, 0) matches Some(at) ==> {
            let rest = trim_left(text.skip(at + name.len()));
            rest.len() == 0 || !is_digit(rest[0]) ==> number_after(text, name) is None
        },
{
}

} // verus!
