//! What texts say when they are read again.
use crate::text::{
    decimal, decimal_int, hex_char, hex_digit, hexadecimal, hexadecimal8, occurs_at, occurs_in,
};
use vstd::prelude::*;
use vstd::string::*;

verus! {

/// The number that a text of decimal digits is.
pub open spec fn reads(text: Seq<char>) -> int
    decreases text.len(),
{
    if text.len() == 0 {
        0
    } else {
        10 * reads(text.drop_last()) + (text.last() as int - '0' as int)
    }
}

/// Every character is a decimal digit.
pub open spec fn all_digits(text: Seq<char>) -> bool {
    forall|i: int| 0 <= i < text.len() ==> '0' <= #[trigger] text[i] <= '9'
}

/// A number in decimal reads as that number, in digits alone and without leading
/// zeros.
pub proof fn decimal_reads_back(n: nat)
    ensures
        reads(decimal(n)) == n,
        all_digits(decimal(n)),
        decimal(n).len() > 0,
        decimal(n)[0] == '0' ==> n == 0 && decimal(n).len() == 1,
    decreases n,
{
    if n < 10 {
        assert(decimal(n).drop_last() =~= Seq::<char>::empty());
        assert(reads(Seq::<char>::empty()) == 0);
    } else {
        decimal_reads_back(n / 10);
        let head = decimal(n / 10);
        assert(decimal(n).drop_last() =~= head);
        assert(decimal(n)[0] == head[0]);
        assert forall|i: int| 0 <= i < decimal(n).len() implies '0' <= #[trigger] decimal(n)[i]
            <= '9' by {
            if i < head.len() {
                assert(decimal(n)[i] == head[i]);
            }
        }
    }
}

/// A number below zero reads as a minus sign and its opposite; any other as
/// itself. So two numbers never read alike.
pub proof fn integers_read_back(n: int, other: int)
    ensures
        n >= 0 ==> reads(decimal_int(n)) == n && all_digits(decimal_int(n)),
        n < 0 ==> decimal_int(n)[0] == '-' && reads(decimal_int(n).drop_first()) == -n
            && all_digits(decimal_int(n).drop_first()),
        decimal_int(n) == decimal_int(other) ==> n == other,
{
    reveal_strlit("-");
    decimal_reads_back(if n < 0 { (-n) as nat } else { n as nat });
    decimal_reads_back(if other < 0 { (-other) as nat } else { other as nat });
    if n < 0 {
        assert(decimal_int(n).drop_first() =~= decimal((-n) as nat));
    }
    if other < 0 {
        assert(decimal_int(other).drop_first() =~= decimal((-other) as nat));
    }
    if decimal_int(n) == decimal_int(other) {
        if n < 0 && other >= 0 {
            assert('0' <= decimal_int(other)[0]);
        }
        if n >= 0 && other < 0 {
            assert('0' <= decimal_int(n)[0]);
        }
    }
}

proof fn lemma_no_blank(n: int)
    ensures
        forall|i: int| 0 <= i < decimal_int(n).len() ==> #[trigger] decimal_int(n)[i] != ' ',
        decimal_int(n).len() > 0,
{
    reveal_strlit("-");
    decimal_reads_back(if n < 0 { (-n) as nat } else { n as nat });
    assert forall|i: int| 0 <= i < decimal_int(n).len() implies #[trigger] decimal_int(n)[i]
        != ' ' by {
        if n < 0 {
            if i > 0 {
                assert(decimal_int(n)[i] == decimal((-n) as nat)[i - 1]);
            }
        }
    }
}

/// Two numbers with a blank between them read as those two, in that order.
pub proof fn pairs_read_back(x: int, y: int, other_x: int, other_y: int)
    ensures
        decimal_int(x) + " "@ + decimal_int(y) == decimal_int(other_x) + " "@ + decimal_int(other_y)
            ==> x == other_x && y == other_y,
{
    reveal_strlit(" ");
    let a = decimal_int(x) + " "@ + decimal_int(y);
    let b = decimal_int(other_x) + " "@ + decimal_int(other_y);
    if a == b {
        lemma_no_blank(x);
        lemma_no_blank(other_x);
        let n = decimal_int(x).len();
        let m = decimal_int(other_x).len();
        assert(a[n as int] == ' ');
        assert(b[m as int] == ' ');
        if n < m {
            assert(b[n as int] == decimal_int(other_x)[n as int]);
        }
        if m < n {
            assert(a[m as int] == decimal_int(x)[m as int]);
        }
        assert(a.subrange(0, n as int) =~= decimal_int(x));
        assert(b.subrange(0, n as int) =~= decimal_int(other_x));
        assert(a.subrange(n as int + 1, a.len() as int) =~= decimal_int(y));
        assert(b.subrange(n as int + 1, b.len() as int) =~= decimal_int(other_y));
        integers_read_back(x, other_x);
        integers_read_back(y, other_y);
    }
}

/// The number that a hexadecimal digit is.
pub open spec fn hex_value(c: char) -> int {
    if '0' <= c <= '9' {
        c as int - '0' as int
    } else {
        c as int - 'a' as int + 10
    }
}

/// The number that a text of hexadecimal digits is.
pub open spec fn reads_hex(text: Seq<char>) -> int
    decreases text.len(),
{
    if text.len() == 0 {
        0
    } else {
        16 * reads_hex(text.drop_last()) + hex_value(text.last())
    }
}

/// A character is a hexadecimal digit, in lower case.
pub open spec fn is_hex(c: char) -> bool {
    '0' <= c <= '9' || 'a' <= c <= 'f'
}

/// A number in hexadecimal reads as that number, without leading zeros.
pub proof fn hexadecimal_reads_back(n: nat)
    ensures
        reads_hex(hexadecimal(n)) == n,
        forall|i: int| 0 <= i < hexadecimal(n).len() ==> is_hex(#[trigger] hexadecimal(n)[i]),
        hexadecimal(n).len() > 0,
        hexadecimal(n)[0] == '0' ==> n == 0 && hexadecimal(n).len() == 1,
    decreases n,
{
    if n < 16 {
        assert(hexadecimal(n).drop_last() =~= Seq::<char>::empty());
        assert(reads_hex(Seq::<char>::empty()) == 0);
    } else {
        hexadecimal_reads_back(n / 16);
        let head = hexadecimal(n / 16);
        assert(hexadecimal(n).drop_last() =~= head);
        assert(hexadecimal(n)[0] == head[0]);
        assert forall|i: int| 0 <= i < hexadecimal(n).len() implies is_hex(
            #[trigger] hexadecimal(n)[i],
        ) by {
            if i < head.len() {
                assert(hexadecimal(n)[i] == head[i]);
            }
        }
    }
}

/// A number without its last `places` hexadecimal digits.
spec fn without_last(n: u32, places: int) -> u32
    decreases places,
{
    if places <= 0 {
        n
    } else {
        without_last(n / 16, places - 1)
    }
}

proof fn lemma_without_last(n: u32, places: int)
    requires
        places >= 0,
    ensures
        without_last(n, places + 1) == without_last(n, places) / 16,
        hex_digit(n, places) == without_last(n, places) % 16,
    decreases places,
{
    if places > 0 {
        lemma_without_last(n / 16, places - 1);
    } else {
        reveal_with_fuel(without_last, 2);
    }
}

proof fn lemma_code_prefix(n: u32, k: int)
    requires
        0 <= k <= 8,
    ensures
        reads_hex(hexadecimal8(n).subrange(0, k)) == without_last(n, 8 - k),
    decreases k,
{
    let text = hexadecimal8(n).subrange(0, k);
    if k == 0 {
        reveal_with_fuel(without_last, 9);
    } else {
        lemma_code_prefix(n, k - 1);
        lemma_without_last(n, 8 - k);
        assert(text.drop_last() =~= hexadecimal8(n).subrange(0, k - 1));
        assert(text.last() == hex_char(hex_digit(n, 8 - k)));
        assert(hex_value(hex_char(hex_digit(n, 8 - k))) == hex_digit(n, 8 - k));
    }
}

/// A code in eight hexadecimal digits reads as that code.
pub proof fn codes_read_back(n: u32)
    ensures
        hexadecimal8(n).len() == 8,
        reads_hex(hexadecimal8(n)) == n,
{
    lemma_code_prefix(n, 8);
    assert(hexadecimal8(n).subrange(0, 8) =~= hexadecimal8(n));
}

/// A text occurs in another exactly where the other is made up of something, the
/// text, and something more.
pub proof fn part_stands_inside(
    before: Seq<char>,
    part: Seq<char>,
    after: Seq<char>,
    whole: Seq<char>,
)
    ensures
        occurs_in(before + part + after, part),
        occurs_at(part + after, part, 0),
        occurs_in(whole, part) ==> exists|a: Seq<char>, b: Seq<char>| whole == #[trigger] (a + part
            + b),
        occurs_at(whole, part, 0) ==> whole == part + whole.subrange(
            part.len() as int,
            whole.len() as int,
        ),
{
    let made = before + part + after;
    assert(made.subrange(before.len() as int, (before.len() + part.len()) as int) =~= part);
    assert(occurs_at(made, part, before.len() as int));
    assert((part + after).subrange(0, part.len() as int) =~= part);
    if occurs_in(whole, part) {
        let start = choose|start: int| occurs_at(whole, part, start);
        let a = whole.subrange(0, start);
        let b = whole.subrange(start + part.len(), whole.len() as int);
        assert(whole =~= a + part + b);
    }
    if occurs_at(whole, part, 0) {
        assert(whole =~= part + whole.subrange(part.len() as int, whole.len() as int));
    }
}

} // verus!
