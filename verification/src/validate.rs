//! Validation of user-supplied payment inputs, and the selection rule for a
//! freshly connected wallet's address list.
use crate::codec;
use crate::model::{Address, PayError, ValidatedPaymentInputs};
use vstd::prelude::*;

verus! {

/// Whether a character is a decimal digit.
pub open spec fn is_dec_digit(c: char) -> bool {
    c == '0' || c == '1' || c == '2' || c == '3' || c == '4' || c == '5' || c == '6' || c == '7'
        || c == '8' || c == '9'
}

/// The value of a decimal digit (zero for any other character).
pub open spec fn digit_val(c: char) -> nat {
    if c == '1' {
        1
    } else if c == '2' {
        2
    } else if c == '3' {
        3
    } else if c == '4' {
        4
    } else if c == '5' {
        5
    } else if c == '6' {
        6
    } else if c == '7' {
        7
    } else if c == '8' {
        8
    } else if c == '9' {
        9
    } else {
        0
    }
}

/// Whether every character is a decimal digit.
pub open spec fn all_digits(s: Seq<char>) -> bool {
    forall|i: int| 0 <= i < s.len() ==> is_dec_digit(#[trigger] s[i])
}

/// The numeric value of a digit string.
pub open spec fn dec_val(s: Seq<char>) -> nat
    decreases s.len(),
{
    if s.len() == 0 {
        0
    } else {
        dec_val(s.drop_last()) * 10 + digit_val(s.last())
    }
}

/// The digits of a decimal string: an optional leading plus sign is skipped.
pub open spec fn dec_body(s: Seq<char>) -> Seq<char> {
    if s.len() > 0 && s[0] == '+' {
        s.drop_first()
    } else {
        s
    }
}

/// The non-negative integer a string denotes, if it denotes one in range.
pub open spec fn dec_of(s: Seq<char>) -> Option<u64> {
    let b = dec_body(s);
    if b.len() > 0 && all_digits(b) && dec_val(b) <= u64::MAX {
        Option::Some(dec_val(b) as u64)
    } else {
        Option::None
    }
}

/// A longer digit string never denotes a smaller value than its prefix.
proof fn lemma_dec_val_prefix(s: Seq<char>, m: int)
    requires
        0 <= m <= s.len(),
    ensures
        dec_val(s.subrange(0, m)) <= dec_val(s),
    decreases s.len() - m,
{
    if m == s.len() {
        assert(s.subrange(0, m) =~= s);
    } else {
        let t = s.subrange(0, m + 1);
        lemma_dec_val_prefix(s, m + 1);
        assert(t.drop_last() =~= s.subrange(0, m));
        assert(dec_val(t) == dec_val(s.subrange(0, m)) * 10 + digit_val(t.last()));
    }
}

/// The digit of a decimal character, or nothing.
fn digit_of(c: char) -> (r: Option<u64>)
    ensures
        match r {
            Some(d) => is_dec_digit(c) && d == digit_val(c),
            None => !is_dec_digit(c),
        },
{
    match c {
        '0' => Some(0),
        '1' => Some(1),
        '2' => Some(2),
        '3' => Some(3),
        '4' => Some(4),
        '5' => Some(5),
        '6' => Some(6),
        '7' => Some(7),
        '8' => Some(8),
        '9' => Some(9),
        _ => None,
    }
}

/// Parses a string as a non-negative 64-bit integer, allowing one leading
/// plus sign; fails on anything else, including out-of-range values.
#[verifier::rlimit(50)]
pub fn parse_u64(s: &str) -> (r: Option<u64>)
    ensures
        r == dec_of(s@),
{
    let n = s.unicode_len();
    let mut start: usize = 0;
    if n > 0 && s.get_char(0) == '+' {
        start = 1;
    }
    proof {
        assert(dec_body(s@) =~= s@.subrange(start as int, n as int));
    }
    if start >= n {
        return None;
    }
    let ghost body = s@.subrange(start as int, n as int);
    let mut acc: u64 = 0;
    let mut i: usize = start;
    while i < n
        invariant
            start <= i <= n,
            n == s@.len(),
            body == s@.subrange(start as int, n as int),
            body == dec_body(s@),
            body.len() > 0,
            all_digits(s@.subrange(start as int, i as int)),
            acc as nat == dec_val(s@.subrange(start as int, i as int)),
        decreases n - i,
    {
        let c = s.get_char(i);
        let ghost prefix = s@.subrange(start as int, i as int);
        let ghost prefix1 = s@.subrange(start as int, i + 1 as int);
        proof {
            assert(prefix1.drop_last() =~= prefix);
            assert(prefix1.last() == s@[i as int]);
            assert(prefix1 =~= body.subrange(0, i + 1 - start));
        }
        let d = match digit_of(c) {
            Some(d) => d,
            None => {
                proof {
                    assert(body[i - start] == s@[i as int]);
                    assert(!all_digits(body));
                    assert(dec_of(s@) is None);
                }
                return None;
            },
        };
        let shifted = match acc.checked_mul(10) {
            Some(m) => m,
            None => {
                proof {
                    lemma_dec_val_prefix(body, i + 1 - start);
                    assert(dec_val(prefix1) == acc as nat * 10 + digit_val(s@[i as int]));
                    assert(dec_val(body) > u64::MAX);
                    assert(dec_of(s@) is None);
                }
                return None;
            },
        };
        let next = match shifted.checked_add(d) {
            Some(x) => x,
            None => {
                proof {
                    lemma_dec_val_prefix(body, i + 1 - start);
                    assert(dec_val(prefix1) == acc as nat * 10 + digit_val(s@[i as int]));
                    assert(dec_val(body) > u64::MAX);
                    assert(dec_of(s@) is None);
                }
                return None;
            },
        };
        proof {
            assert(dec_val(prefix1) == acc as nat * 10 + digit_val(s@[i as int]));
        }
        acc = next;
        i = i + 1;
    }
    proof {
        assert(s@.subrange(start as int, i as int) =~= body);
    }
    Some(acc)
}

/// Validates the user's receiver, amount and fee texts, in that order: a
/// malformed address, then a malformed amount, then a malformed fee is
/// reported, before any external call is made.
pub fn validate_payment_inputs(receiver: &str, amount: &str, fee: &str) -> (r: Result<
    ValidatedPaymentInputs,
    PayError,
>)
    ensures
        match r {
            Ok(v) => codec::addr_valid(receiver@) && v.receiver@ == receiver@ && v.receiver.valid()
                && dec_of(amount@) == Option::Some(v.amount) && dec_of(fee@) == Option::Some(v.fee),
            Err(e) => match e {
                PayError::InvalidAddress => !codec::addr_valid(receiver@),
                PayError::InvalidAmount => codec::addr_valid(receiver@) && dec_of(amount@) is None,
                PayError::InvalidFee => codec::addr_valid(receiver@) && dec_of(amount@) is Some
                    && dec_of(fee@) is None,
                _ => false,
            },
        },
{
    let receiver_addr = match Address::parse(receiver) {
        Ok(a) => a,
        Err(e) => {
            return Err(e);
        },
    };
    let amount_v = match parse_u64(amount) {
        Some(v) => v,
        None => {
            return Err(PayError::InvalidAmount);
        },
    };
    let fee_v = match parse_u64(fee) {
        Some(v) => v,
        None => {
            return Err(PayError::InvalidFee);
        },
    };
    Ok(ValidatedPaymentInputs { receiver: receiver_addr, amount: amount_v, fee: fee_v })
}

/// Selects the first address the wallet offered; a wallet that connects but
/// offers none is reported, never indexed out of range.
pub fn select_first_address(addresses: Vec<Address>) -> (r: Result<Address, PayError>)
    ensures
        match r {
            Ok(a) => addresses@.len() > 0 && a == addresses@[0],
            Err(e) => addresses@.len() == 0 && e is NoAddressesReturned,
        },
{
    let mut addresses = addresses;
    if addresses.len() == 0 {
        Err(PayError::NoAddressesReturned)
    } else {
        Ok(addresses.remove(0))
    }
}

} // verus!
