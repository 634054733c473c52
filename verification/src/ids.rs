//! Identifiers of requests: the decimal numerals of a counter.

use vstd::prelude::*;

verus! {

/// The character of decimal digit `d`.
pub open spec fn digit_char(d: nat) -> char {
    (d + 48) as char
}

/// The decimal numeral of `n`, without leading zeros.
pub open spec fn decimal(n: nat) -> Seq<char>
    decreases n,
{
    if n < 10 {
        seq![digit_char(n)]
    } else {
        decimal(n / 10).push(digit_char(n % 10))
    }
}

/// A numeral has one character below ten and more from ten on.
proof fn lemma_decimal_len(n: nat)
    ensures
        n < 10 ==> decimal(n).len() == 1,
        n >= 10 ==> decimal(n).len() >= 2,
    decreases n,
{
    if n >= 10 {
        lemma_decimal_len(n / 10);
    }
}

/// Two numbers with the same numeral are the same number.
pub proof fn lemma_decimal_injective(a: nat, b: nat)
    requires
        decimal(a) == decimal(b),
    ensures
        a == b,
    decreases a,
{
    lemma_decimal_len(a);
    lemma_decimal_len(b);
    if a < 10 && b < 10 {
        assert(decimal(a)[0] == digit_char(a));
        assert(decimal(b)[0] == digit_char(b));
    } else if a >= 10 && b >= 10 {
        let da = decimal(a);
        let db = decimal(b);
        assert(da.last() == digit_char(a % 10));
        assert(db.last() == digit_char(b % 10));
        assert(da.drop_last() =~= decimal(a / 10));
        assert(db.drop_last() =~= decimal(b / 10));
        lemma_decimal_injective(a / 10, b / 10);
    }
}

/// The number that a string of decimal digits stands for, read from the left.
pub open spec fn numeral_value(digits: Seq<char>) -> int
    decreases digits.len(),
{
    if digits.len() == 0 {
        0
    } else {
        numeral_value(digits.drop_last()) * 10 + (digits.last() as int - 48)
    }
}

/// The numeral of `n` is made of decimal digits, has no leading zero unless
/// it is "0", and reads back as `n`.
pub proof fn law_numeral_reads_back(n: nat)
    ensures
        numeral_value(decimal(n)) == n,
        forall|i: int| 0 <= i < decimal(n).len() ==> '0' <= #[trigger] decimal(n)[i] <= '9',
        decimal(n)[0] != '0' || n == 0,
        decimal(n).len() >= 1,
    decreases n,
{
    if n >= 10 {
        law_numeral_reads_back(n / 10);
        let s = decimal(n);
        assert(s.drop_last() =~= decimal(n / 10));
        assert(s.last() == digit_char(n % 10));
        assert(digit_char(n % 10) as int == n % 10 + 48);
        assert(numeral_value(s) == numeral_value(decimal(n / 10)) * 10 + (n % 10));
        assert((n / 10) * 10 + n % 10 == n) by (nonlinear_arith);
        assert forall|i: int| 0 <= i < s.len() implies '0' <= #[trigger] s[i] <= '9' by {
            if i < s.len() - 1 {
                assert(s[i] == decimal(n / 10)[i]);
            }
        }
        assert(s[0] == decimal(n / 10)[0]);
    } else {
        let s = decimal(n);
        assert(s.drop_last() =~= Seq::<char>::empty());
        assert(digit_char(n) as int == n + 48);
        assert(numeral_value(s) == numeral_value(s.drop_last()) * 10 + (s.last() as int - 48));
    }
}

/// Appends `c` to `text` by `String::push`, which appends one character.
#[verifier::external_body]
fn push_char(text: &mut String, c: char)
    ensures
        final(text)@ == old(text)@.push(c),
{
    text.push(c)
}

/// Appends the decimal numeral of `n` to `out`.
fn append_decimal(out: &mut String, n: u64)
    ensures
        final(out)@ == old(out)@ + decimal(n as nat),
    decreases n,
{
    if n >= 10 {
        append_decimal(out, n / 10);
    }
    let d: u8 = (n % 10) as u8;
    let c: char = (48u8 + d) as char;
    assert(c == digit_char((n % 10) as nat));
    push_char(out, c);
    assert(decimal(n as nat) == (if n >= 10 { decimal((n / 10) as nat) } else { Seq::<char>::empty() }).push(c));
}

/// The decimal numeral of `n`.
pub fn decimal_string(n: u64) -> (numeral: String)
    ensures
        numeral@ == decimal(n as nat),
{
    let mut out = String::new();
    append_decimal(&mut out, n);
    assert(out@ =~= decimal(n as nat));
    out
}

/// The source of the identifiers of one client's requests: the numerals of a
/// counter that starts at zero.
#[derive(Debug)]
pub struct RequestIds {
    next: u64,
}

impl RequestIds {
    /// The number whose numeral the next identifier is.
    pub closed spec fn next(&self) -> nat {
        self.next as nat
    }

    /// A source whose first identifier is "0".
    pub fn new() -> (ids: RequestIds)
        ensures
            ids.next() == 0,
    {
        RequestIds { next: 0 }
    }

    /// Hands out the next identifier, or `None` once the counter is spent.
    pub fn fresh(&mut self) -> (id: Option<String>)
        ensures
            old(self).next() < u64::MAX ==> {
                &&& id is Some
                &&& id->0@ == decimal(old(self).next())
                &&& final(self).next() == old(self).next() + 1
            },
            old(self).next() == u64::MAX ==> id is None && final(self).next() == old(self).next(),
    {
        if self.next == u64::MAX {
            None
        } else {
            let id = decimal_string(self.next);
            self.next = self.next + 1;
            Some(id)
        }
    }
}

/// Identifiers handed out by one source never repeat: the ones handed out at
/// two different counts are different texts.
pub proof fn law_identifiers_never_repeat(first: nat, second: nat)
    requires
        first != second,
    ensures
        decimal(first) != decimal(second),
{
    if decimal(first) == decimal(second) {
        lemma_decimal_injective(first, second);
    }
}

} // verus!
