//! Session identifiers: a time-derived hexadecimal tag with a fixed prefix.

use vstd::prelude::*;

verus! {

/// The lowercase hexadecimal character of a digit value.
pub open spec fn hex_char(d: int) -> char {
    if d == 0 {
        '0'
    } else if d == 1 {
        '1'
    } else if d == 2 {
        '2'
    } else if d == 3 {
        '3'
    } else if d == 4 {
        '4'
    } else if d == 5 {
        '5'
    } else if d == 6 {
        '6'
    } else if d == 7 {
        '7'
    } else if d == 8 {
        '8'
    } else if d == 9 {
        '9'
    } else if d == 10 {
        'a'
    } else if d == 11 {
        'b'
    } else if d == 12 {
        'c'
    } else if d == 13 {
        'd'
    } else if d == 14 {
        'e'
    } else {
        'f'
    }
}

/// The lowercase hexadecimal digits of `n`, most significant first, without
/// leading zeros (a single zero digit for zero).
pub open spec fn hex_digits(n: u128) -> Seq<char>
    decreases n,
{
    if n < 16 {
        seq![hex_char(n as int)]
    } else {
        hex_digits(n / 16).push(hex_char((n % 16) as int))
    }
}

/// Every value has at least one hexadecimal digit.
pub proof fn lemma_hex_digits_len(n: u128)
    ensures
        hex_digits(n).len() >= 1,
    decreases n,
{
    if n >= 16 {
        lemma_hex_digits_len(n / 16);
    }
}

/// The one-character string of a hexadecimal digit.
fn digit_str(d: u8) -> (r: &'static str)
    requires
        d < 16,
    ensures
        r@ == seq![hex_char(d as int)],
{
    proof {
        reveal_strlit("0");
        reveal_strlit("1");
        reveal_strlit("2");
        reveal_strlit("3");
        reveal_strlit("4");
        reveal_strlit("5");
        reveal_strlit("6");
        reveal_strlit("7");
        reveal_strlit("8");
        reveal_strlit("9");
        reveal_strlit("a");
        reveal_strlit("b");
        reveal_strlit("c");
        reveal_strlit("d");
        reveal_strlit("e");
        reveal_strlit("f");
    }
    let r = match d {
        0 => "0",
        1 => "1",
        2 => "2",
        3 => "3",
        4 => "4",
        5 => "5",
        6 => "6",
        7 => "7",
        8 => "8",
        9 => "9",
        10 => "a",
        11 => "b",
        12 => "c",
        13 => "d",
        14 => "e",
        _ => "f",
    };
    proof {
        assert(r@ =~= seq![hex_char(d as int)]);
    }
    r
}

/// Format `n` in lowercase hexadecimal.
pub fn hex_string(n: u128) -> (r: String)
    ensures
        r@ == hex_digits(n),
    decreases n,
{
    if n < 16 {
        String::from_str(digit_str(n as u8))
    } else {
        let mut s = hex_string(n / 16);
        s.append(digit_str((n % 16) as u8));
        proof {
            assert(s@ =~= hex_digits(n / 16).push(hex_char((n % 16) as int)));
        }
        s
    }
}

/// Relies on std::time::SystemTime for the time since the Unix epoch in
/// nanoseconds; zero when the clock reads earlier than the epoch. The value
/// depends on the moment of the call, so nothing more is promised of it.
#[verifier::external_body]
fn now_unix_nanos() -> u128 {
    std::time::SystemTime::now()
        .duration_since(std::time::UNIX_EPOCH)
        .map(|d| d.as_nanos())
        .unwrap_or(0)
}

/// A simple unique-enough tag: the current time in hexadecimal. The digits
/// depend on the moment of the call.
pub fn uuid_simple() -> (r: String)
    ensures
        exists|n: u128| r@ == hex_digits(n),
        r@.len() >= 1,
{
    let t = now_unix_nanos();
    let r = hex_string(t);
    proof {
        lemma_hex_digits_len(t);
        assert(r@ == hex_digits(t));
    }
    r
}

/// A fresh capture session identifier: the "rec-" prefix and a time-derived
/// tag.
pub fn make_session_id() -> (r: String)
    ensures
        r@.len() > 4,
        r@.subrange(0, 4) == "rec-"@,
{
    let mut s = String::from_str("rec-");
    let tag = uuid_simple();
    s.append(tag.as_str());
    proof {
        reveal_strlit("rec-");
        assert(s@.subrange(0, 4) =~= "rec-"@);
    }
    s
}

} // verus!
