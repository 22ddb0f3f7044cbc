//! The JSON that the protocol needs: the members of an object, integers and
//! strings read from their text, and a string written as a literal.
//!
//! Reading and writing JSON is left to `serde_json`. What it returns is given
//! a name here, and the rest of the crate is proved against those names.

use vstd::prelude::*;
use vstd::string::*;

verus! {

/// The members of the one JSON object that `text` holds, as `serde_json`
/// reads them: each member as its name and the text of its value, in the
/// order of the names. `None` where `text` is not one JSON object.
pub uninterp spec fn json_object(text: Seq<char>) -> Option<Seq<(Seq<char>, Seq<char>)>>;

/// The integer that `text` holds as a JSON number, as `serde_json` reads it.
/// `None` where `text` is not one whole number that fits.
pub uninterp spec fn json_integer(text: Seq<char>) -> Option<i128>;

/// The string that `text` holds as a JSON string literal, as `serde_json`
/// reads it. `None` where `text` is not one string literal.
pub uninterp spec fn json_string(text: Seq<char>) -> Option<Seq<char>>;

/// The JSON string literal that `serde_json` writes for `s`.
pub uninterp spec fn json_string_literal(s: Seq<char>) -> Seq<char>;

/// What a list of members stands for: names and value texts as sequences of
/// characters.
pub open spec fn members_view(members: Seq<(String, String)>) -> Seq<(Seq<char>, Seq<char>)> {
    members.map_values(|m: (String, String)| (m.0@, m.1@))
}

/// Calls `serde_json::from_str` for a map from member names to raw values and
/// hands the members out as pairs of strings. Trusted: the result is what
/// [`json_object`] names for the same text, and is `None` exactly when
/// `serde_json` reports an error.
#[verifier::external_body]
pub(crate) fn object_members(text: &str) -> (members: Option<Vec<(String, String)>>)
    ensures
        match members {
            Some(m) => json_object(text@) == Some(members_view(m@)),
            None => json_object(text@) is None,
        },
{
    let object: std::collections::BTreeMap<String, Box<serde_json::value::RawValue>> =
        serde_json::from_str(text).ok()?;
    Some(object.into_iter().map(|(name, value)| (name, value.get().to_owned())).collect())
}

/// Calls `serde_json::from_str` for an `i128`. Trusted: the result is what
/// [`json_integer`] names for the same text, and is `None` exactly when
/// `serde_json` reports an error.
#[verifier::external_body]
pub(crate) fn integer_value(text: &str) -> (value: Option<i128>)
    ensures
        value == json_integer(text@),
{
    serde_json::from_str::<i128>(text).ok()
}

/// Calls `serde_json::from_str` for a `String`. Trusted: the result is what
/// [`json_string`] names for the same text, and is `None` exactly when
/// `serde_json` reports an error.
#[verifier::external_body]
pub(crate) fn string_value(text: &str) -> (value: Option<String>)
    ensures
        match value {
            Some(s) => json_string(text@) == Some(s@),
            None => json_string(text@) is None,
        },
{
    serde_json::from_str::<String>(text).ok()
}

/// Calls `serde_json::to_string` on a string slice. Trusted: the result is
/// what [`json_string_literal`] names for the same string. `serde_json`
/// reports no error for a string.
#[verifier::external_body]
pub(crate) fn string_literal(s: &str) -> (text: String)
    ensures
        text@ == json_string_literal(s@),
{
    serde_json::to_string(s).unwrap_or_default()
}

/// The value text of the first member called `name`, if there is one.
pub open spec fn member(members: Seq<(Seq<char>, Seq<char>)>, name: Seq<char>) -> Option<
    Seq<char>,
>
    decreases members.len(),
{
    if members.len() == 0 {
        None
    } else if members[0].0 == name {
        Some(members[0].1)
    } else {
        member(members.drop_first(), name)
    }
}

/// Looks a member up by its name.
pub fn find_member<'a>(members: &'a Vec<(String, String)>, name: &str) -> (value: Option<
    &'a String,
>)
    ensures
        match value {
            Some(v) => member(members_view(members@), name@) == Some(v@),
            None => member(members_view(members@), name@) is None,
        },
{
    let wanted = name.to_owned();
    let ghost all = members_view(members@);
    let mut i: usize = 0;
    assert(all.skip(0) == all);
    while i < members.len()
        invariant
            i <= members.len(),
            all == members_view(members@),
            wanted@ == name@,
            member(all, name@) == member(all.skip(i as int), name@),
        decreases members.len() - i,
    {
        assert(all.skip(i as int).drop_first() == all.skip(i + 1));
        if members[i].0 == wanted {
            return Some(&members[i].1);
        }
        i += 1;
    }
    None
}

/// The character of one decimal digit.
pub open spec fn digit(d: nat) -> char {
    if d == 0 {
        '0'
    } else if d == 1 {
        '1'
    } else if d == 2 {
        '2'
    } else if d == 3 {
        '3'
    } else if d == 4 {
        '4'
    } else if d == 5 {
        '5'
    } else if d == 6 {
        '6'
    } else if d == 7 {
        '7'
    } else if d == 8 {
        '8'
    } else {
        '9'
    }
}

/// A natural number in decimal, most significant digit first, without
/// leading zeros.
pub open spec fn decimal(n: nat) -> Seq<char>
    decreases n,
{
    if n < 10 {
        seq![digit(n)]
    } else {
        decimal(n / 10).push(digit(n % 10))
    }
}

/// A number is written with at least one digit.
pub proof fn lemma_decimal_is_not_empty(n: nat)
    ensures
        decimal(n).len() >= 1,
    decreases n,
{
    if n >= 10 {
        lemma_decimal_is_not_empty(n / 10);
    }
}

proof fn lemma_digit_is_injective(x: nat, y: nat)
    requires
        x < 10,
        y < 10,
        digit(x) == digit(y),
    ensures
        x == y,
{
}

/// Different numbers are written differently: what is written for an
/// identifier names that identifier and no other.
pub proof fn lemma_decimal_is_injective(a: nat, b: nat)
    requires
        decimal(a) == decimal(b),
    ensures
        a == b,
    decreases a,
{
    lemma_decimal_is_not_empty(a / 10);
    lemma_decimal_is_not_empty(b / 10);
    if a >= 10 && b >= 10 {
        assert(decimal(a).drop_last() =~= decimal(a / 10));
        assert(decimal(b).drop_last() =~= decimal(b / 10));
        assert(decimal(a).last() == digit(a % 10));
        assert(decimal(b).last() == digit(b % 10));
        lemma_decimal_is_injective(a / 10, b / 10);
        lemma_digit_is_injective(a % 10, b % 10);
    } else {
        if a >= 10 {
            assert(decimal(a).len() == decimal(a / 10).len() + 1);
        }
        if b >= 10 {
            assert(decimal(b).len() == decimal(b / 10).len() + 1);
        }
        assert(decimal(a)[0] == digit(a));
        assert(decimal(b)[0] == digit(b));
        lemma_digit_is_injective(a, b);
    }
}

fn digit_text(d: u64) -> (text: &'static str)
    requires
        d < 10,
    ensures
        text@ == seq![digit(d as nat)],
{
    proof {
        reveal_strlit("0");
        reveal_strlit("1");
        reveal_strlit("2");
        reveal_strlit("3");
        reveal_strlit("4");
        reveal_strlit("5");
        reveal_strlit("6");
        reveal_strlit("7");
        reveal_strlit("8");
        reveal_strlit("9");
    }
    if d == 0 {
        "0"
    } else if d == 1 {
        "1"
    } else if d == 2 {
        "2"
    } else if d == 3 {
        "3"
    } else if d == 4 {
        "4"
    } else if d == 5 {
        "5"
    } else if d == 6 {
        "6"
    } else if d == 7 {
        "7"
    } else if d == 8 {
        "8"
    } else {
        "9"
    }
}

/// Appends `n` in decimal to `out`.
pub fn push_decimal(out: &mut String, n: u64)
    ensures
        final(out)@ == old(out)@ + decimal(n as nat),
    decreases n,
{
    if n >= 10 {
        push_decimal(out, n / 10);
    }
    out.append(digit_text(n % 10));
}

} // verus!
