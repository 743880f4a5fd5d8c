//! The parameters of the HTTP requests, and how a room id is read from a
//! query string.

use vstd::prelude::*;

verus! {

/// The game that a new room is created for.
pub struct GameName {
    pub game: String,
}

/// Whether a character is an ASCII decimal digit.
pub open spec fn is_digit(c: char) -> bool {
    '0' as u32 <= c as u32 <= '9' as u32
}

/// The value of a decimal digit.
pub open spec fn digit_value(c: char) -> int {
    c as u32 - '0' as u32
}

/// The value of a sequence of decimal digits, most significant first.
pub open spec fn decimal_value(ds: Seq<char>) -> int
    decreases ds.len(),
{
    if ds.len() == 0 {
        0
    } else {
        10 * decimal_value(ds.drop_last()) + digit_value(ds.last())
    }
}

/// Whether every character is a decimal digit.
pub open spec fn all_digits(ds: Seq<char>) -> bool {
    forall|i: int| 0 <= i < ds.len() ==> is_digit(#[trigger] ds[i])
}

/// The digits of an unsigned number: the text without a leading `+`.
pub open spec fn unsigned_digits(s: Seq<char>) -> Seq<char> {
    if s.len() > 0 && s[0] == '+' {
        s.drop_first()
    } else {
        s
    }
}

/// A `u16` written in decimal: an optional `+`, then at least one digit,
/// of a value that fits in a `u16`. Anything else is no `u16`.
pub open spec fn parse_u16(s: Seq<char>) -> Option<u16> {
    let ds = unsigned_digits(s);
    if ds.len() > 0 && all_digits(ds) && decimal_value(ds) <= u16::MAX {
        Some(decimal_value(ds) as u16)
    } else {
        None
    }
}

proof fn lemma_decimal_value_nonneg(ds: Seq<char>)
    requires
        all_digits(ds),
    ensures
        decimal_value(ds) >= 0,
    decreases ds.len(),
{
    if ds.len() > 0 {
        assert(all_digits(ds.drop_last()));
        lemma_decimal_value_nonneg(ds.drop_last());
        assert(is_digit(ds[ds.len() - 1]));
    }
}

proof fn lemma_decimal_value_grows(ds: Seq<char>, k: int)
    requires
        all_digits(ds),
        0 <= k <= ds.len(),
    ensures
        decimal_value(ds.subrange(0, k)) <= decimal_value(ds),
    decreases ds.len(),
{
    if k < ds.len() {
        let rest = ds.drop_last();
        assert(all_digits(rest));
        lemma_decimal_value_grows(rest, k);
        assert(rest.subrange(0, k) =~= ds.subrange(0, k));
        lemma_decimal_value_nonneg(rest);
        assert(is_digit(ds[ds.len() - 1]));
    } else {
        assert(ds.subrange(0, k) =~= ds);
    }
}

/// Reads a room id as `str::parse::<u16>` does: an optional `+`, then
/// decimal digits whose value fits in a `u16`; anything else is `None`.
pub fn parse_room_id(s: &str) -> (r: Option<u16>)
    ensures
        r == parse_u16(s@),
{
    let ghost text = s@;
    let mut first = true;
    let mut signed = false;
    let mut any_digit = false;
    let mut acc: u32 = 0;
    for c in it: s.chars()
        invariant
            it.seq() == text,
            text == s@,
            first <==> it.index() == 0,
            signed ==> it.index() > 0,
            it.index() > 0 ==> (signed <==> text[0] == '+'),
            any_digit <==> it.index() > (if signed { 1int } else { 0int }),
            all_digits(text.subrange(if signed { 1int } else { 0int }, it.index() as int)),
            acc == decimal_value(text.subrange(if signed { 1int } else { 0int }, it.index() as int)),
            acc <= u16::MAX,
    {
        let ghost i = it.index() as int;
        let ghost start: int = if signed { 1int } else { 0int };
        let ghost before = text.subrange(start, i);
        assert(c == text[i]);
        if first && c == '+' {
            signed = true;
            assert(text.subrange(1, 1) =~= Seq::<char>::empty());
        } else {
            let code = c as u32;
            if code < '0' as u32 || code > '9' as u32 {
                proof {
                    let ds = unsigned_digits(text);
                    assert(ds =~= text.subrange(start, text.len() as int));
                    assert(ds[i - start] == text[i]);
                    assert(!is_digit(ds[i - start]));
                }
                return None;
            }
            let ghost after = text.subrange(start, i + 1);
            assert(after.drop_last() =~= before);
            assert(after.last() == c);
            assert(all_digits(after));
            acc = acc * 10 + (code - '0' as u32);
            any_digit = true;
            if acc > 65535 {
                proof {
                    let ds = unsigned_digits(text);
                    assert(ds =~= text.subrange(start, text.len() as int));
                    assert(after =~= ds.subrange(0, i + 1 - start));
                    if all_digits(ds) {
                        lemma_decimal_value_grows(ds, i + 1 - start);
                    }
                }
                return None;
            }
        }
        first = false;
    }
    proof {
        let start: int = if signed { 1int } else { 0int };
        let ds = unsigned_digits(text);
        assert(ds =~= text.subrange(start, text.len() as int));
    }
    if !any_digit {
        None
    } else {
        Some(acc as u16)
    }
}

/// The decimal digits of a number, without leading zeros (`0` for zero).
pub open spec fn decimal_text(n: nat) -> Seq<char>
    decreases n,
{
    let digit = (('0' as u32) + (n % 10) as u32) as char;
    if n < 10 {
        seq![digit]
    } else {
        decimal_text(n / 10).push(digit)
    }
}

proof fn lemma_decimal_text_value(n: nat)
    ensures
        decimal_text(n).len() > 0,
        all_digits(decimal_text(n)),
        decimal_value(decimal_text(n)) == n,
    decreases n,
{
    let digit = (('0' as u32) + (n % 10) as u32) as char;
    assert(digit as u32 == '0' as u32 + n % 10);
    if n < 10 {
        assert(decimal_text(n).drop_last() =~= Seq::<char>::empty());
        assert(decimal_text(n).last() == digit);
        assert(n % 10 == n);
        assert(decimal_value(decimal_text(n).drop_last()) == 0);
        assert(digit_value(digit) == n);
    } else {
        lemma_decimal_text_value(n / 10);
        let t = decimal_text(n);
        assert(t.drop_last() =~= decimal_text(n / 10));
        assert forall|i: int| 0 <= i < t.len() implies is_digit(#[trigger] t[i]) by {
            if i < t.len() - 1 {
                assert(t[i] == decimal_text(n / 10)[i]);
            }
        }
        assert(t.last() == digit);
        assert(digit_value(digit) == n % 10);
        assert(decimal_value(t) == 10 * decimal_value(decimal_text(n / 10)) + n % 10);
        assert(10 * (n / 10) + n % 10 == n);
    }
}

/// A room id written in decimal is read back as the same id.
pub proof fn lemma_room_id_round_trip(id: u16)
    ensures
        parse_u16(decimal_text(id as nat)) == Some(id),
{
    lemma_decimal_text_value(id as nat);
    let t = decimal_text(id as nat);
    assert(is_digit(t[0]));
    assert(unsigned_digits(t) == t);
}

} // verus!
