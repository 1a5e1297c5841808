//! Building command and report text.
use vstd::prelude::*;
use vstd::string::*;

verus! {

/// The character that spells a decimal digit.
pub open spec fn digit_char(d: int) -> char {
    (48 + d) as char
}

/// A natural number in decimal, without leading zeros.
pub open spec fn decimal(n: nat) -> Seq<char>
    decreases n,
{
    if n < 10 {
        seq![digit_char(n as int)]
    } else {
        decimal(n / 10).push(digit_char((n % 10) as int))
    }
}

/// An integer in decimal, with a leading minus sign where it is negative.
pub open spec fn decimal_int(n: int) -> Seq<char> {
    if n < 0 {
        "-"@ + decimal((-n) as nat)
    } else {
        decimal(n as nat)
    }
}

fn digit_str(d: u64) -> (s: &'static str)
    requires
        d < 10,
    ensures
        s@ == seq![digit_char(d as int)],
{
    proof {
        reveal_strlit("0");
        reveal_strlit("1");
        reveal_strlit("2");
        reveal_strlit("3");
        reveal_strlit("4");
        reveal_strlit("5");
        reveal_strlit("6");
        reveal_strlit("7");
        reveal_strlit("8");
        reveal_strlit("9");
    }
    match d {
        0 => "0",
        1 => "1",
        2 => "2",
        3 => "3",
        4 => "4",
        5 => "5",
        6 => "6",
        7 => "7",
        8 => "8",
        _ => "9",
    }
}

/// Appends a natural number in decimal.
pub fn push_decimal(text: &mut String, n: u64)
    ensures
        final(text)@ == old(text)@ + decimal(n as nat),
    decreases n,
{
    if n >= 10 {
        push_decimal(text, n / 10);
    }
    text.append(digit_str(n % 10));
}

/// Appends an integer in decimal.
pub fn push_decimal_int(text: &mut String, n: i64)
    ensures
        final(text)@ == old(text)@ + decimal_int(n as int),
{
    if n < 0 {
        text.append("-");
        let magnitude: u64 = (-(n as i128)) as u64;
        push_decimal(text, magnitude);
    } else {
        push_decimal(text, n as u64);
    }
}

/// The characters of a text.
pub fn chars_of(text: &str) -> (chars: Vec<char>)
    ensures
        chars@ == text@,
{
    let mut chars: Vec<char> = Vec::new();
    for c in it: text.chars()
        invariant
            it.seq() == text@,
            chars@ == text@.take(it.index() as int),
    {
        chars.push(c);
        assert(chars@ =~= text@.take(it.index() + 1));
    }
    assert(chars@ =~= text@);
    chars
}

/// `part` occurs in `whole`, beginning at `start`.
pub open spec fn occurs_at(whole: Seq<char>, part: Seq<char>, start: int) -> bool {
    0 <= start <= whole.len() - part.len() && whole.subrange(start, start + part.len()) == part
}

/// `part` occurs somewhere in `whole`.
pub open spec fn occurs_in(whole: Seq<char>, part: Seq<char>) -> bool {
    exists|start: int| occurs_at(whole, part, start)
}

fn matches_at(whole: &Vec<char>, part: &Vec<char>, start: usize) -> (matches: bool)
    requires
        start + part@.len() <= whole@.len(),
    ensures
        matches == occurs_at(whole@, part@, start as int),
{
    let total: usize = whole.len();
    let mut i: usize = 0;
    while i < part.len()
        invariant
            i <= part@.len(),
            start + part@.len() <= whole@.len(),
            whole@.len() == total,
            forall|j: int| 0 <= j < i ==> whole@[start + j] == #[trigger] part@[j],
        decreases part@.len() - i,
    {
        if whole[start + i] != part[i] {
            assert(whole@.subrange(start as int, start + part@.len())[i as int] != part@[i as int]);
            return false;
        }
        i = i + 1;
    }
    assert(whole@.subrange(start as int, start + part@.len()) =~= part@);
    true
}

/// Whether a text occurs in another.
pub fn contains_text(whole: &str, part: &str) -> (found: bool)
    ensures
        found == occurs_in(whole@, part@),
{
    let whole_chars = chars_of(whole);
    let part_chars = chars_of(part);
    if part_chars.len() > whole_chars.len() {
        assert forall|start: int| !occurs_at(whole@, part@, start) by {}
        return false;
    }
    let last: usize = whole_chars.len() - part_chars.len();
    let mut start: usize = 0;
    loop
        invariant
            whole_chars@ == whole@,
            part_chars@ == part@,
            last == whole@.len() - part@.len(),
            start <= last,
            forall|i: int| 0 <= i < start ==> !occurs_at(whole@, part@, i),
        decreases last - start,
    {
        if matches_at(&whole_chars, &part_chars, start) {
            return true;
        }
        if start == last {
            assert forall|i: int| !occurs_at(whole@, part@, i) by {}
            return false;
        }
        start = start + 1;
    }
}

/// Whether a text begins with another.
pub fn begins_with(whole: &str, part: &str) -> (begins: bool)
    ensures
        begins == occurs_at(whole@, part@, 0),
{
    let whole_chars = chars_of(whole);
    let part_chars = chars_of(part);
    if part_chars.len() > whole_chars.len() {
        return false;
    }
    matches_at(&whole_chars, &part_chars, 0)
}

/// `String::push` appends the character given to it.
pub assume_specification[ String::push ](text: &mut String, c: char)
    ensures
        final(text)@ == old(text)@.push(c),
;

/// The character that spells a hexadecimal digit.
pub open spec fn hex_char(d: int) -> char {
    if d < 10 {
        (48 + d) as char
    } else {
        (87 + d) as char
    }
}

/// A natural number in hexadecimal, without leading zeros.
pub open spec fn hexadecimal(n: nat) -> Seq<char>
    decreases n,
{
    if n < 16 {
        seq![hex_char(n as int)]
    } else {
        hexadecimal(n / 16).push(hex_char((n % 16) as int))
    }
}

/// Appends a natural number in hexadecimal.
pub fn push_hexadecimal(text: &mut String, n: u64)
    ensures
        final(text)@ == old(text)@ + hexadecimal(n as nat),
    decreases n,
{
    if n >= 16 {
        push_hexadecimal(text, n / 16);
    }
    let digit: u8 = (n % 16) as u8;
    if digit < 10 {
        text.push((48 + digit) as char);
    } else {
        text.push((87 + digit) as char);
    }
    assert(text@ =~= old(text)@ + hexadecimal(n as nat));
}

/// A number of eight hexadecimal digits.
pub open spec fn hexadecimal8(n: u32) -> Seq<char> {
    Seq::new(8, |i: int| hex_char(hex_digit(n, 7 - i)))
}

/// The hexadecimal digit of a number at a place.
pub open spec fn hex_digit(n: u32, place: int) -> int
    decreases place,
{
    if place <= 0 {
        (n % 16) as int
    } else {
        hex_digit(n / 16, place - 1)
    }
}

/// Appends a number of eight hexadecimal digits.
pub fn push_hexadecimal8(text: &mut String, n: u32)
    ensures
        final(text)@ == old(text)@ + hexadecimal8(n),
{
    push_places(text, n, 8);
    assert(text@ =~= old(text)@ + hexadecimal8(n));
}

fn push_places(text: &mut String, n: u32, places: u32)
    ensures
        final(text)@ == old(text)@ + Seq::new(
            places as nat,
            |i: int| hex_char(hex_digit(n, places - 1 - i)),
        ),
    decreases places,
{
    if places > 0 {
        push_places(text, n / 16, places - 1);
        let digit: u8 = (n % 16) as u8;
        if digit < 10 {
            text.push((48 + digit) as char);
        } else {
            text.push((87 + digit) as char);
        }
    }
    assert(text@ =~= old(text)@ + Seq::new(
        places as nat,
        |i: int| hex_char(hex_digit(n, places - 1 - i)),
    ));
}

} // verus!
