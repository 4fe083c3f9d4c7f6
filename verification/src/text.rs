//! Comparing and writing texts.

use vstd::prelude::*;

verus! {

pub fn same_text(a: &str, b: &str) -> (r: bool)
    ensures
        r == (a@ == b@),
{
    a.to_owned() == b.to_owned()
}

/// The characters of an optional text.
pub open spec fn text_of(a: Option<String>) -> Option<Seq<char>> {
    match a {
        Some(text) => Some(text@),
        None => None,
    }
}

/// Whether an optional text is the given one.
pub fn is_text(a: &Option<String>, b: &str) -> (r: bool)
    ensures
        r == (text_of(*a) == Some(b@)),
{
    match a {
        Some(text) => same_text(text.as_str(), b),
        None => false,
    }
}

/// Whether two optional texts agree.
pub fn same_optional_text(a: &Option<String>, b: &Option<String>) -> (r: bool)
    ensures
        r == (text_of(*a) == text_of(*b)),
{
    match (a, b) {
        (Some(x), Some(y)) => same_text(x.as_str(), y.as_str()),
        (None, None) => true,
        _ => false,
    }
}

/// Whether a list holds a text.
pub fn lists_text(list: &Vec<String>, text: &str) -> (r: bool)
    ensures
        r == exists|i: int| 0 <= i < list@.len() && (#[trigger] list@[i])@ == text@,
{
    let mut i: usize = 0;
    while i < list.len()
        invariant
            i <= list@.len(),
            forall|j: int| 0 <= j < i ==> (#[trigger] list@[j])@ != text@,
        decreases list@.len() - i,
    {
        if same_text(list[i].as_str(), text) {
            assert(list@[i as int]@ == text@);
            return true;
        }
        i += 1;
    }
    false
}

/// A decimal digit.
pub open spec fn digit_text(d: nat) -> Seq<char> {
    if d == 0 {
        "0"@
    } else if d == 1 {
        "1"@
    } else if d == 2 {
        "2"@
    } else if d == 3 {
        "3"@
    } else if d == 4 {
        "4"@
    } else if d == 5 {
        "5"@
    } else if d == 6 {
        "6"@
    } else if d == 7 {
        "7"@
    } else if d == 8 {
        "8"@
    } else {
        "9"@
    }
}

/// A number in decimal digits.
pub open spec fn number_text(n: nat) -> Seq<char>
    decreases n,
{
    if n < 10 {
        digit_text(n)
    } else {
        number_text(n / 10) + digit_text(n % 10)
    }
}

fn write_digit(d: usize) -> (r: &'static str)
    requires
        d < 10,
    ensures
        r@ == digit_text(d as nat),
{
    match d {
        0 => "0",
        1 => "1",
        2 => "2",
        3 => "3",
        4 => "4",
        5 => "5",
        6 => "6",
        7 => "7",
        8 => "8",
        _ => "9",
    }
}

/// Writes a number out in decimal digits.
pub fn write_number(n: usize) -> (text: String)
    ensures
        text@ == number_text(n as nat),
    decreases n,
{
    if n < 10 {
        return write_digit(n).to_owned();
    }
    let mut text: String = write_number(n / 10);
    text.append(write_digit(n % 10));
    text
}

/// The text of an optional string is its text.
pub proof fn law_text_of(text: String)
    ensures
        text_of(Some(text)) == Some(text@),
        text_of(None) is None,
{
}

/// A number is written by its decimal digits, the highest first.
pub proof fn law_number_text(n: nat)
    ensures
        n < 10 ==> number_text(n) == seq![(48 + n) as char],
        n >= 10 ==> number_text(n) == number_text(n / 10).push((48 + n % 10) as char),
{
    let d = n % 10;
    reveal_strlit("0");
    reveal_strlit("1");
    reveal_strlit("2");
    reveal_strlit("3");
    reveal_strlit("4");
    reveal_strlit("5");
    reveal_strlit("6");
    reveal_strlit("7");
    reveal_strlit("8");
    reveal_strlit("9");
    assert(digit_text(d) =~= seq![(48 + d) as char]);
    if n < 10 {
        assert(n == d);
    } else {
        assert(number_text(n / 10) + digit_text(d) =~= number_text(n / 10).push(
            (48 + d) as char,
        ));
    }
}

} // verus!
