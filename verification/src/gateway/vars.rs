//! The gateway's options and their defaults.
//!
//! An option arrives as the bytes of its text, or as `None` where it was not
//! set. Text that does not parse counts as not set.

use vstd::prelude::*;

verus! {

/// The latency threshold, in milliseconds, where none is set.
pub const DEFAULT_TRIGGER: u128 = 200;

/// The number of workers where none is set.
pub const DEFAULT_WORKERS: usize = 2;

/// Whether `byte` is a decimal digit.
pub open spec fn is_digit(byte: u8) -> bool {
    48 <= byte <= 57
}

/// The number that the decimal digits `digits` spell.
pub open spec fn digits_value(digits: Seq<u8>) -> nat
    decreases digits.len(),
{
    if digits.len() == 0 {
        0
    } else {
        digits_value(digits.drop_last()) * 10 + (digits.last() - 48) as nat
    }
}

/// Whether every byte of `text` is a decimal digit.
pub open spec fn all_digits(text: Seq<u8>) -> bool {
    forall|i: int| 0 <= i < text.len() ==> is_digit(#[trigger] text[i])
}

/// The digits of `text`: all of it but a leading plus sign.
pub open spec fn digits_of(text: Seq<u8>) -> Seq<u8> {
    if text.len() > 0 && text[0] == 43 {
        text.skip(1)
    } else {
        text
    }
}

/// The number that `text` spells: one or more decimal digits, which a plus
/// sign may precede. Anything else spells no number.
pub open spec fn number_of(text: Seq<u8>) -> Option<nat> {
    let digits = digits_of(text);
    if digits.len() > 0 && all_digits(digits) {
        Some(digits_value(digits))
    } else {
        None
    }
}

/// The number that `text` spells, if it spells one no greater than `limit`.
pub open spec fn number_within(text: Seq<u8>, limit: nat) -> Option<nat> {
    match number_of(text) {
        Some(number) => if number <= limit {
            Some(number)
        } else {
            None
        },
        None => None,
    }
}

/// The truth value that `text` spells: `true` or `false`, nothing else.
pub open spec fn flag_of(text: Seq<u8>) -> Option<bool> {
    if text == seq![116u8, 114, 117, 101] {
        Some(true)
    } else if text == seq![102u8, 97, 108, 115, 101] {
        Some(false)
    } else {
        None
    }
}

proof fn lemma_digits_value_grows(digits: Seq<u8>, taken: int)
    requires
        0 <= taken <= digits.len(),
        forall|i: int| 0 <= i < digits.len() ==> is_digit(#[trigger] digits[i]),
    ensures
        digits_value(digits.take(taken)) <= digits_value(digits),
    decreases digits.len() - taken,
{
    if taken < digits.len() {
        let longer = digits.take(taken + 1);
        assert(longer.drop_last() =~= digits.take(taken));
        assert(longer.last() == digits[taken]);
        lemma_digits_value_grows(digits, taken + 1);
    } else {
        assert(digits.take(taken) =~= digits);
    }
}

/// Reads a decimal number.
pub fn parse_number(text: &[u8]) -> (number: Option<u128>)
    ensures
        number is Some <==> number_within(text@, u128::MAX as nat) is Some,
        number matches Some(value) ==> number_of(text@) == Some(value as nat),
{
    let start: usize = if text.len() > 0 && text[0] == 43 {
        1
    } else {
        0
    };
    let ghost digits = digits_of(text@);
    assert(digits =~= text@.skip(start as int));
    if start == text.len() {
        return None;
    }
    let mut value: u128 = 0;
    let mut i: usize = start;
    while i < text.len()
        invariant
            start <= i <= text.len(),
            start < text.len(),
            digits == digits_of(text@),
            digits == text@.skip(start as int),
            forall|j: int| 0 <= j < i - start ==> is_digit(#[trigger] digits[j]),
            value == digits_value(digits.take(i - start)),
        decreases text.len() - i,
    {
        let byte = text[i];
        assert(digits[i - start] == byte);
        if byte < 48 || byte > 57 {
            assert(!is_digit(digits[i - start]));
            return None;
        }
        let ghost longer = digits.take(i - start + 1);
        proof {
            assert(longer.drop_last() =~= digits.take(i - start));
            assert(longer.last() == byte);
        }
        let grown = match value.checked_mul(10) {
            Some(tenfold) => tenfold.checked_add((byte - 48) as u128),
            None => None,
        };
        match grown {
            Some(next) => {
                value = next;
            },
            None => {
                proof {
                    assert(digits_value(longer) > u128::MAX);
                    if all_digits(digits) {
                        lemma_digits_value_grows(digits, i - start + 1);
                    }
                }
                return None;
            },
        }
        i += 1;
    }
    assert(digits.take(i - start) =~= digits);
    Some(value)
}

/// Reads `true` or `false`.
pub fn parse_flag(text: &[u8]) -> (flag: Option<bool>)
    ensures
        flag == flag_of(text@),
{
    if text.len() == 4 && text[0] == 116 && text[1] == 114 && text[2] == 117 && text[3] == 101 {
        assert(text@ =~= seq![116u8, 114, 117, 101]);
        Some(true)
    } else if text.len() == 5 && text[0] == 102 && text[1] == 97 && text[2] == 108 && text[3]
        == 115 && text[4] == 101 {
        assert(text@ =~= seq![102u8, 97, 108, 115, 101]);
        Some(false)
    } else {
        assert(text@ != seq![116u8, 114, 117, 101]) by {
            if text@ == seq![116u8, 114, 117, 101] {
                assert(text@.len() == 4 && text@[0] == 116 && text@[1] == 114 && text@[2] == 117
                    && text@[3] == 101);
            }
        }
        assert(text@ != seq![102u8, 97, 108, 115, 101]) by {
            if text@ == seq![102u8, 97, 108, 115, 101] {
                assert(text@.len() == 5 && text@[0] == 102 && text@[1] == 97 && text@[2] == 108
                    && text@[3] == 115 && text@[4] == 101);
            }
        }
        None
    }
}

/// The latency threshold in milliseconds: the number that `value` spells,
/// or 200.
pub fn trigger(value: Option<&[u8]>) -> (trigger: u128)
    ensures
        trigger == match value {
            Some(text) => match number_within(text@, u128::MAX as nat) {
                Some(number) => number as u128,
                None => DEFAULT_TRIGGER,
            },
            None => DEFAULT_TRIGGER,
        },
{
    match value {
        Some(text) => match parse_number(text) {
            Some(number) => number,
            None => DEFAULT_TRIGGER,
        },
        None => DEFAULT_TRIGGER,
    }
}

/// The number of workers: the number that `value` spells, or 2.
pub fn slaves(value: Option<&[u8]>) -> (workers: usize)
    ensures
        workers == match value {
            Some(text) => match number_within(text@, usize::MAX as nat) {
                Some(number) => number as usize,
                None => DEFAULT_WORKERS,
            },
            None => DEFAULT_WORKERS,
        },
{
    match value {
        Some(text) => match parse_number(text) {
            Some(number) => if number <= usize::MAX as u128 {
                number as usize
            } else {
                DEFAULT_WORKERS
            },
            None => DEFAULT_WORKERS,
        },
        None => DEFAULT_WORKERS,
    }
}

/// Whether the queue depth is logged from time to time: what `value`
/// spells, or no.
pub fn analyst(value: Option<&[u8]>) -> (enabled: bool)
    ensures
        enabled == match value {
            Some(text) => match flag_of(text@) {
                Some(flag) => flag,
                None => false,
            },
            None => false,
        },
{
    match value {
        Some(text) => match parse_flag(text) {
            Some(flag) => flag,
            None => false,
        },
        None => false,
    }
}

/// The path of the gateway's socket: what is set, unchanged. The path is
/// required and has no default, so the caller makes sure that it is set.
pub fn socket(value: Option<String>) -> (path: String)
    requires
        value is Some,
    ensures
        path == value->0,
{
    value.unwrap()
}

} // verus!
