use vstd::prelude::*;
use vstd::string::StringExecFns;
use crate::options::{Target, TargetModel};
use crate::text::{canonical, canonical_identifier, is_segment, lemma_canonical_of_segments};

verus! {

/// The character of a decimal digit.
pub open spec fn digit(value: nat) -> char {
    if value == 0 {
        '0'
    } else if value == 1 {
        '1'
    } else if value == 2 {
        '2'
    } else if value == 3 {
        '3'
    } else if value == 4 {
        '4'
    } else if value == 5 {
        '5'
    } else if value == 6 {
        '6'
    } else if value == 7 {
        '7'
    } else if value == 8 {
        '8'
    } else {
        '9'
    }
}

/// The value of a decimal digit, if the character is one.
pub open spec fn digit_value(c: char) -> Option<nat> {
    if c == '0' {
        Some(0)
    } else if c == '1' {
        Some(1)
    } else if c == '2' {
        Some(2)
    } else if c == '3' {
        Some(3)
    } else if c == '4' {
        Some(4)
    } else if c == '5' {
        Some(5)
    } else if c == '6' {
        Some(6)
    } else if c == '7' {
        Some(7)
    } else if c == '8' {
        Some(8)
    } else if c == '9' {
        Some(9)
    } else {
        None
    }
}

/// A number in decimal digits, without a sign and without leading zeros.
pub open spec fn decimal(n: nat) -> Seq<char>
    decreases n,
{
    if n < 10 {
        seq![digit(n)]
    } else {
        decimal(n / 10).push(digit(n % 10))
    }
}

/// The number that a text of decimal digits writes; nothing where the text is empty or
/// holds another character.
pub open spec fn decimal_value(text: Seq<char>) -> Option<nat>
    decreases text.len(),
{
    if text.len() == 0 {
        None
    } else {
        match digit_value(text.last()) {
            None => None,
            Some(unit) => if text.len() == 1 {
                Some(unit)
            } else {
                match decimal_value(text.drop_last()) {
                    None => None,
                    Some(tens) => Some(tens * 10 + unit),
                }
            },
        }
    }
}

/// The number that a text writes, where it writes one that a `u64` holds.
pub open spec fn unsigned_of(text: Seq<char>) -> Option<u64> {
    match decimal_value(text) {
        Some(value) => if value <= u64::MAX {
            Some(value as u64)
        } else {
            None
        },
        None => None,
    }
}

/// A number that was written in decimal is read back as itself.
pub proof fn lemma_decimal_round_trip(n: nat)
    ensures
        decimal_value(decimal(n)) == Some(n),
    decreases n,
{
    if n >= 10 {
        lemma_decimal_round_trip(n / 10);
        let text = decimal(n);
        assert(text.drop_last() =~= decimal(n / 10));
        assert(text.last() == digit(n % 10));
        lemma_decimal_not_empty(n / 10);
    } else {
        assert(decimal(n).last() == digit(n));
    }
}

/// Every number is written with at least one digit.
pub proof fn lemma_decimal_not_empty(n: nat)
    ensures
        decimal(n).len() >= 1,
    decreases n,
{
    if n >= 10 {
        lemma_decimal_not_empty(n / 10);
    }
}

/// A text that writes a number writes, up to any place, a number that is no larger.
pub proof fn lemma_decimal_value_grows(text: Seq<char>, upto: int)
    requires
        1 <= upto <= text.len(),
        decimal_value(text) is Some,
    ensures
        decimal_value(text.take(upto)) is Some,
        decimal_value(text.take(upto))->0 <= decimal_value(text)->0,
    decreases text.len() - upto,
{
    if upto < text.len() {
        lemma_decimal_value_grows(text.drop_last(), upto);
        assert(text.drop_last().take(upto) =~= text.take(upto));
    } else {
        assert(text.take(upto) =~= text);
    }
}

/// A text with a character that is no digit writes no number.
pub proof fn lemma_decimal_value_none(text: Seq<char>, at: int)
    requires
        0 <= at < text.len(),
        digit_value(text[at]) is None,
    ensures
        decimal_value(text) is None,
    decreases text.len(),
{
    if at < text.len() - 1 {
        lemma_decimal_value_none(text.drop_last(), at);
    }
}

/// The base of the interface upstream.
pub const API_BASE: &'static str = "https://api.github.com";

/// The media type that answers are asked in.
pub const ACCEPT: &'static str = "application/vnd.github+json";

/// The name under which requests are made.
pub const USER_AGENT: &'static str = "actions-token";

/// The address of a path below the base of the interface.
pub open spec fn address(path: Seq<char>) -> Seq<char> {
    "https://api.github.com"@ + "/"@ + path
}

/// The value of the authorization header for a bearer.
pub open spec fn bearer_header(bearer: Seq<char>) -> Seq<char> {
    "Bearer "@ + bearer
}

/// The path, below the base of the interface, at which the installation of a target is
/// looked up. Of a repository's name only the first two segments are used.
pub open spec fn installation_path(target: TargetModel) -> Seq<char> {
    match target {
        TargetModel::Organization(slug) => "orgs/"@ + slug + "/installation"@,
        TargetModel::Repository(name) => "repos/"@ + canonical_identifier(name)
            + "/installation"@,
        TargetModel::User(login) => "users/"@ + login + "/installation"@,
    }
}

/// Of a repository's name of more than two segments, the path of the installation
/// holds the first two and nothing of the rest.
pub proof fn lemma_repository_path(owner: Seq<char>, name: Seq<char>, rest: Seq<char>)
    requires
        is_segment(owner),
        is_segment(name),
    ensures
        installation_path(TargetModel::Repository(owner + seq!['/'] + name + seq!['/'] + rest))
            == "repos/"@ + (owner + seq!['/'] + name) + "/installation"@,
        installation_path(TargetModel::Repository(owner + seq!['/'] + name)) == "repos/"@ + (owner
            + seq!['/'] + name) + "/installation"@,
        installation_path(TargetModel::Repository(owner)) == "repos/"@ + owner
            + "/installation"@,
{
    lemma_canonical_of_segments(owner, name, rest);
}

/// The path at which a token is asked for an installation.
pub open spec fn access_tokens_path(installation: nat) -> Seq<char> {
    "app/installations/"@ + decimal(installation) + "/access_tokens"@
}

fn digit_text(value: u64) -> (text: &'static str)
    requires
        value < 10,
    ensures
        text@ == seq![digit(value as nat)],
{
    let text = match value {
        0 => "0",
        1 => "1",
        2 => "2",
        3 => "3",
        4 => "4",
        5 => "5",
        6 => "6",
        7 => "7",
        8 => "8",
        _ => "9",
    };
    proof {
        reveal_strlit("0");
        reveal_strlit("1");
        reveal_strlit("2");
        reveal_strlit("3");
        reveal_strlit("4");
        reveal_strlit("5");
        reveal_strlit("6");
        reveal_strlit("7");
        reveal_strlit("8");
        reveal_strlit("9");
        assert(text@ =~= seq![digit(value as nat)]);
    }
    text
}

/// Appends a number in decimal to a text.
pub fn push_decimal(text: &mut String, n: u64)
    ensures
        final(text)@ == old(text)@ + decimal(n as nat),
    decreases n,
{
    if n >= 10 {
        push_decimal(text, n / 10);
    }
    text.append(digit_text(n % 10));
    assert(final(text)@ =~= old(text)@ + decimal(n as nat));
}

/// Reads a number in decimal digits.
pub fn parse_decimal(text: &str) -> (read: Option<u64>)
    ensures
        read == unsigned_of(text@),
{
    let mut value: u64 = 0;
    let mut any = false;
    for c in it: text.chars()
        invariant
            it.seq() == text@,
            any == (it.index() > 0),
            !any ==> value == 0,
            any ==> decimal_value(text@.take(it.index() as int)) == Some(value as nat),
    {
        let ghost at = it.index() as int;
        let unit: u64 = match c {
            '0' => 0,
            '1' => 1,
            '2' => 2,
            '3' => 3,
            '4' => 4,
            '5' => 5,
            '6' => 6,
            '7' => 7,
            '8' => 8,
            '9' => 9,
            _ => {
                proof {
                    lemma_decimal_value_none(text@, at);
                }
                return None;
            },
        };
        proof {
            let read = text@.take(at + 1);
            assert(read.drop_last() =~= text@.take(at));
            assert(read.last() == c);
            assert(digit_value(c) == Some(unit as nat));
            assert(decimal_value(read) == Some((value * 10 + unit) as nat));
            if decimal_value(text@) is Some {
                lemma_decimal_value_grows(text@, at + 1);
            }
        }
        if value > (u64::MAX - unit) / 10 {
            return None;
        }
        value = value * 10 + unit;
        any = true;
    }
    proof {
        assert(text@.take(text@.len() as int) =~= text@);
    }
    if any {
        Some(value)
    } else {
        None
    }
}

/// Writes the path at which the installation of a target is looked up.
pub fn path_of_installation(target: &Target) -> (path: String)
    ensures
        path@ == installation_path(target@),
{
    match target {
        Target::Organization(slug) => {
            let mut path = "orgs/".to_owned();
            path.append(slug.as_str());
            path.append("/installation");
            path
        },
        Target::Repository(name) => {
            let mut path = "repos/".to_owned();
            let cut = canonical(name.as_str());
            path.append(cut.as_str());
            path.append("/installation");
            path
        },
        Target::User(login) => {
            let mut path = "users/".to_owned();
            path.append(login.as_str());
            path.append("/installation");
            path
        },
    }
}

/// Writes the path at which a token is asked for an installation.
pub fn path_of_access_tokens(installation: u64) -> (path: String)
    ensures
        path@ == access_tokens_path(installation as nat),
{
    let mut path = "app/installations/".to_owned();
    push_decimal(&mut path, installation);
    path.append("/access_tokens");
    path
}

} // verus!
