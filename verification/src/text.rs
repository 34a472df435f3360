//! Text for messages.

use vstd::prelude::*;
use vstd::string::StringExecFns;

verus! {

/// The text of a digit.
pub open spec fn digit_text(d: nat) -> Seq<char> {
    if d == 0 {
        "0"@
    } else if d == 1 {
        "1"@
    } else if d == 2 {
        "2"@
    } else if d == 3 {
        "3"@
    } else if d == 4 {
        "4"@
    } else if d == 5 {
        "5"@
    } else if d == 6 {
        "6"@
    } else if d == 7 {
        "7"@
    } else if d == 8 {
        "8"@
    } else {
        "9"@
    }
}

/// The decimal text of a number.
pub open spec fn decimal_text(n: nat) -> Seq<char>
    decreases n,
{
    if n < 10 {
        digit_text(n)
    } else {
        decimal_text(n / 10) + digit_text(n % 10)
    }
}

/// The decimal texts of some bytes, each but the first after a comma.
pub open spec fn numbers_text(s: Seq<u8>) -> Seq<char>
    decreases s.len(),
{
    if s.len() == 0 {
        Seq::empty()
    } else if s.len() == 1 {
        decimal_text(s[0] as nat)
    } else {
        numbers_text(s.drop_last()) + ", "@ + decimal_text(s.last() as nat)
    }
}

/// The text of a list of bytes.
pub open spec fn list_text(s: Seq<u8>) -> Seq<char> {
    "["@ + numbers_text(s) + "]"@
}

/// How the standard library prints a string for debugging: in quotes, with escapes.
pub uninterp spec fn quoted(s: Seq<char>) -> Seq<char>;

/// The `Debug` output of `str`, by `format!`.
#[verifier::external_body]
pub(crate) fn quote(s: &str) -> (r: String)
    ensures
        r@ == quoted(s@),
{
    format!("{:?}", s)
}

fn digit(d: u64) -> (r: &'static str)
    requires
        d < 10,
    ensures
        r@ == digit_text(d as nat),
{
    match d {
        0 => "0",
        1 => "1",
        2 => "2",
        3 => "3",
        4 => "4",
        5 => "5",
        6 => "6",
        7 => "7",
        8 => "8",
        _ => "9",
    }
}

/// The decimal text of a number.
pub fn decimal(n: u64) -> (r: String)
    ensures
        r@ == decimal_text(n as nat),
    decreases n,
{
    if n < 10 {
        digit(n).to_owned()
    } else {
        let mut text = decimal(n / 10);
        text.append(digit(n % 10));
        text
    }
}

/// The text of a list of bytes.
pub fn list(bytes: &[u8]) -> (r: String)
    ensures
        r@ == list_text(bytes@),
{
    let mut text = "[".to_owned();
    let mut i: usize = 0;
    assert(bytes@.take(0) == Seq::<u8>::empty());
    assert("["@ + numbers_text(Seq::<u8>::empty()) == "["@);
    while i < bytes.len()
        invariant
            i <= bytes@.len(),
            text@ == "["@ + numbers_text(bytes@.take(i as int)),
        decreases bytes@.len() - i,
    {
        let ghost head = bytes@.take(i as int);
        let ghost more = bytes@.take(i + 1);
        assert(more.drop_last() == head);
        if i > 0 {
            text.append(", ");
        }
        text.append(decimal(bytes[i] as u64).as_str());
        assert(text@ == "["@ + numbers_text(more));
        i = i + 1;
    }
    assert(bytes@.take(i as int) == bytes@);
    text.append("]");
    text
}

/// One text after another.
pub fn join(a: &str, b: &str) -> (r: String)
    ensures
        r@ == a@ + b@,
{
    let mut text = a.to_owned();
    text.append(b);
    text
}

/// A text between two others.
pub fn wrap(before: &str, inner: &str, after: &str) -> (r: String)
    ensures
        r@ == before@ + inner@ + after@,
{
    let mut text = before.to_owned();
    text.append(inner);
    text.append(after);
    text
}

} // verus!
