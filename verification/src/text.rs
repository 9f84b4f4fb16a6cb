//! Text rendering shared by the wire format and by error messages.

use vstd::prelude::*;
use vstd::string::*;

verus! {

/// The text of `s`, if there is one.
pub open spec fn text_of(s: Option<String>) -> Option<Seq<char>> {
    match s {
        Some(t) => Some(t@),
        None => None,
    }
}

/// The texts of `strings`, in their order.
pub open spec fn texts_of(strings: Seq<String>) -> Seq<Seq<char>> {
    strings.map_values(|s: String| s@)
}

/// The JSON string literal (quotes and escapes included) that encodes `s`.
pub uninterp spec fn json_string_literal(s: Seq<char>) -> Seq<char>;

/// Renders `s` as a JSON string literal through `serde_json`'s `Display` for
/// `Value::String`. Trusted: the result is whatever compact JSON `serde_json`
/// writes for that string; nothing is claimed beyond its being a function of `s`.
#[verifier::external_body]
pub(crate) fn json_quote(s: &str) -> (r: String)
    ensures
        r@ == json_string_literal(s@),
{
    serde_json::Value::String(s.to_string()).to_string()
}

/// The digit for a value below ten.
pub open spec fn digit_text(value: int) -> Seq<char> {
    if value == 0 {
        "0"@
    } else if value == 1 {
        "1"@
    } else if value == 2 {
        "2"@
    } else if value == 3 {
        "3"@
    } else if value == 4 {
        "4"@
    } else if value == 5 {
        "5"@
    } else if value == 6 {
        "6"@
    } else if value == 7 {
        "7"@
    } else if value == 8 {
        "8"@
    } else {
        "9"@
    }
}

/// The decimal digits of a number that is not negative, without leading
/// zeros.
pub open spec fn digits_text(n: int) -> Seq<char>
    decreases n,
{
    if n < 10 {
        digit_text(n)
    } else {
        digits_text(n / 10) + digit_text(n % 10)
    }
}

/// The decimal digits of `n`, with a leading `-` when it is negative.
pub open spec fn decimal_text(n: int) -> Seq<char> {
    if n < 0 {
        "-"@ + digits_text(-n)
    } else {
        digits_text(n)
    }
}

fn digit(value: u64) -> (r: &'static str)
    requires
        value < 10,
    ensures
        r@ == digit_text(value as int),
{
    if value == 0 {
        "0"
    } else if value == 1 {
        "1"
    } else if value == 2 {
        "2"
    } else if value == 3 {
        "3"
    } else if value == 4 {
        "4"
    } else if value == 5 {
        "5"
    } else if value == 6 {
        "6"
    } else if value == 7 {
        "7"
    } else if value == 8 {
        "8"
    } else {
        "9"
    }
}

fn digits(n: u64) -> (r: String)
    ensures
        r@ == digits_text(n as int),
    decreases n,
{
    if n < 10 {
        String::from_str(digit(n))
    } else {
        let mut r = digits(n / 10);
        r.append(digit(n % 10));
        r
    }
}

/// Renders `n` in decimal.
pub fn decimal(n: i64) -> (r: String)
    ensures
        r@ == decimal_text(n as int),
{
    if n < 0 {
        let magnitude: u64 = ((-(n + 1)) as u64) + 1;
        let mut r = String::from_str("-");
        let rest = digits(magnitude);
        r.append(rest.as_str());
        r
    } else {
        digits(n as u64)
    }
}

/// `s` without its leading and trailing whitespace.
pub uninterp spec fn trimmed_text(s: Seq<char>) -> Seq<char>;

/// Trims with `str::trim`. Trusted: the result is `s` without the white space
/// at its two ends.
#[verifier::external_body]
pub(crate) fn trim(s: &str) -> (r: &str)
    ensures
        r@ == trimmed_text(s@),
{
    s.trim()
}

/// The members of the JSON object that `text` holds, each with its name and,
/// where it is a string, its text; `None` where `text` is not JSON or is not
/// an object.
pub uninterp spec fn json_object(text: Seq<char>) -> Option<Seq<(Seq<char>, Option<Seq<char>>)>>;

/// The values of `members`, in their order.
pub open spec fn members_view(members: Seq<(String, Option<String>)>) -> Seq<
    (Seq<char>, Option<Seq<char>>),
> {
    members.map_values(|member: (String, Option<String>)| (member.0@, text_of(member.1)))
}

/// Parses a JSON object with `serde_json::from_str`. Trusted: the result
/// holds the members of the object as `serde_json` reads them, each with
/// its text where it is a string and with `None` where it is anything else;
/// it is `None` where `text` is not JSON or is not an object.
#[verifier::external_body]
pub(crate) fn parse_object(text: &str) -> (r: Option<Vec<(String, Option<String>)>>)
    ensures
        match r {
            Some(members) => json_object(text@) == Some(members_view(members@)),
            None => json_object(text@) is None,
        },
{
    match serde_json::from_str::<serde_json::Value>(text) {
        Ok(serde_json::Value::Object(members)) => Some(
            members.into_iter().map(|(name, value)| match value {
                serde_json::Value::String(found) => (name, Some(found)),
                _ => (name, None),
            }).collect(),
        ),
        _ => None,
    }
}

/// The text of the first of `members` that is named `key`: `None` where
/// there is no such member, or where it is not a string.
pub open spec fn member_text(members: Seq<(Seq<char>, Option<Seq<char>>)>, key: Seq<char>)
    -> Option<Seq<char>>
    decreases members.len(),
{
    if members.len() == 0 {
        None
    } else if members[0].0 == key {
        members[0].1
    } else {
        member_text(members.drop_first(), key)
    }
}

/// The text of the member `key` of the JSON object that `text` holds: `None`
/// where `text` is not JSON, is not an object, has no such member, or the
/// member is not a string.
pub open spec fn json_member_text(text: Seq<char>, key: Seq<char>) -> Option<Seq<char>> {
    match json_object(text) {
        Some(members) => member_text(members, key),
        None => None,
    }
}

/// Looks the member `key` up among the members of an object.
pub fn find_member(members: &Vec<(String, Option<String>)>, key: &str) -> (r: Option<String>)
    ensures
        text_of(r) == member_text(members_view(members@), key@),
{
    let wanted = key.to_string();
    let ghost all = members_view(members@);
    let mut i: usize = 0;
    proof {
        assert(all.skip(0) =~= all);
    }
    while i < members.len()
        invariant
            i <= members.len(),
            wanted@ == key@,
            all == members_view(members@),
            member_text(all, key@) == member_text(all.skip(i as int), key@),
        decreases members.len() - i,
    {
        proof {
            assert(all.skip(i as int)[0] == all[i as int]);
            assert(all.skip(i as int).drop_first() =~= all.skip(i + 1));
        }
        if members[i].0 == wanted {
            return match &members[i].1 {
                Some(found) => Some(found.clone()),
                None => None,
            };
        }
        i = i + 1;
    }
    None
}

/// The hexadecimal digit for a value below sixteen.
pub open spec fn hex_digit(nibble: int) -> char {
    "0123456789abcdef"@[nibble]
}

/// Two lower-case hexadecimal digits for each byte, in order.
pub open spec fn hex_text(bytes: Seq<u8>) -> Seq<char>
    decreases bytes.len(),
{
    if bytes.len() == 0 {
        Seq::<char>::empty()
    } else {
        hex_text(bytes.drop_last()).push(hex_digit(bytes.last() as int / 16)).push(
            hex_digit(bytes.last() as int % 16),
        )
    }
}

/// Encoding doubles the length.
pub proof fn lemma_hex_text_len(bytes: Seq<u8>)
    ensures
        hex_text(bytes).len() == 2 * bytes.len(),
    decreases bytes.len(),
{
    if bytes.len() > 0 {
        lemma_hex_text_len(bytes.drop_last());
    }
}

} // verus!
