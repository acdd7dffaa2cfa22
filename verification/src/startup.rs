//! The startup input rule: the one external input of the probe is a thread
//! count, and a supplied value is accepted exactly when it is a plain
//! decimal number that fits the counter's integer size.  The driver hands
//! the raw argument bytes in and aborts with its parse error on `None`.

use vstd::prelude::*;

verus! {

broadcast use vstd::seq::group_seq_axioms;

/// The byte is an ASCII decimal digit.
pub open spec fn is_ascii_digit(b: u8) -> bool {
    48 <= b <= 57
}

/// Every byte of the input is an ASCII decimal digit.
pub open spec fn all_ascii_digits(s: Seq<u8>) -> bool {
    forall|i: int| 0 <= i < s.len() ==> is_ascii_digit(#[trigger] s[i])
}

/// The number the digit string denotes, most significant digit first.
pub open spec fn decimal_value(s: Seq<u8>) -> nat
    decreases s.len(),
{
    if s.len() == 0 {
        0
    } else {
        decimal_value(s.drop_last()) * 10 + ((s.last() - 48) as nat)
    }
}

/// Appending digits never shrinks the denoted number.
proof fn lemma_decimal_value_monotone(s: Seq<u8>, i: int)
    requires
        0 <= i <= s.len(),
    ensures
        decimal_value(s) >= decimal_value(s.take(i)),
    decreases s.len() - i,
{
    if i == s.len() {
        assert(s.take(i) =~= s);
    } else {
        assert(s.take(i + 1).drop_last() =~= s.take(i));
        assert(s.take(i + 1).last() == s[i]);
        lemma_decimal_value_monotone(s, i + 1);
    }
}

/// Read a thread count from the bytes of the startup argument.  Accepts
/// exactly the nonempty all-digit strings whose value fits, and returns
/// that value; anything else — empty input, a non-digit byte, a value past
/// `u32::MAX` — is `None`, and the caller reports its parse error.
pub fn parse_thread_count(s: &[u8]) -> (r: Option<u32>)
    ensures
        match r {
            Some(n) => s@.len() > 0 && all_ascii_digits(s@) && n as nat == decimal_value(s@),
            None => s@.len() == 0 || !all_ascii_digits(s@) || decimal_value(s@) > u32::MAX,
        },
{
    if s.len() == 0 {
        return None;
    }
    let mut value: u32 = 0;
    let mut i: usize = 0;
    while i < s.len()
        invariant
            i <= s@.len(),
            all_ascii_digits(s@.take(i as int)),
            value as nat == decimal_value(s@.take(i as int)),
        decreases s@.len() - i,
    {
        let b = s[i];
        if b < 48 || b > 57 {
            proof {
                assert(!is_ascii_digit(s@[i as int]));
            }
            return None;
        }
        let d = b - 48;
        proof {
            assert(s@.take(i as int + 1).drop_last() =~= s@.take(i as int));
            assert(s@.take(i as int + 1).last() == s@[i as int]);
        }
        // 429_496_729 is the largest value a further digit can follow:
        // one more digit makes at least ten times the value.
        if value > 429_496_729 || (value == 429_496_729 && d > 5) {
            proof {
                assert(decimal_value(s@.take(i as int + 1)) > u32::MAX);
                lemma_decimal_value_monotone(s@, i as int + 1);
            }
            return None;
        }
        value = value * 10 + (d as u32);
        i = i + 1;
    }
    proof {
        assert(s@.take(s@.len() as int) =~= s@);
    }
    Some(value)
}

} // verus!
