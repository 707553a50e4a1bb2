//! Reading the process id that the runtime leaves in the pidfile.

use vstd::prelude::*;

use crate::child_reaper::{ChildReaper, Error};

verus! {

/// Whether `b` is an ASCII decimal digit.
pub open spec fn is_digit(b: u8) -> bool {
    48 <= b <= 57
}

/// Whether `text` holds decimal digits and nothing else.
pub open spec fn all_digits(text: Seq<u8>) -> bool {
    forall|i: int| 0 <= i < text.len() ==> is_digit(#[trigger] text[i])
}

/// The number that the decimal digits `digits` write.
pub open spec fn digits_value(digits: Seq<u8>) -> nat
    decreases digits.len(),
{
    if digits.len() == 0 {
        0
    } else {
        digits_value(digits.drop_last()) * 10 + (digits.last() - 48) as nat
    }
}

/// The digits of `text`: what follows its sign, where it starts with `+` or
/// `-`.
pub open spec fn unsigned_part(text: Seq<u8>) -> Seq<u8> {
    if text.len() > 0 && (text[0] == 43 || text[0] == 45) {
        text.subrange(1, text.len() as int)
    } else {
        text
    }
}

/// The process id that `text` writes: an optional sign and at least one
/// decimal digit, nothing before, between or behind them, and a value that a
/// process id can hold.
pub open spec fn pid_of(text: Seq<u8>) -> Option<i32> {
    let digits = unsigned_part(text);
    let value = if text.len() > 0 && text[0] == 45 {
        -digits_value(digits)
    } else {
        digits_value(digits) as int
    };
    if digits.len() > 0 && all_digits(digits) && i32::MIN <= value <= i32::MAX {
        Some(value as i32)
    } else {
        None
    }
}

proof fn lemma_value_grows(digits: Seq<u8>, k: int)
    requires
        all_digits(digits),
        0 <= k <= digits.len(),
    ensures
        digits_value(digits.subrange(0, k)) <= digits_value(digits),
    decreases digits.len(),
{
    if k == digits.len() {
        assert(digits.subrange(0, k) =~= digits);
    } else {
        let shorter = digits.drop_last();
        assert(all_digits(shorter)) by {
            assert forall|i: int| 0 <= i < shorter.len() implies is_digit(
                #[trigger] shorter[i],
            ) by {
                assert(shorter[i] == digits[i]);
            }
        }
        lemma_value_grows(shorter, k);
        assert(shorter.subrange(0, k) =~= digits.subrange(0, k));
        assert(is_digit(digits[digits.len() - 1]));
    }
}

/// Reads a process id from the content of a pidfile.
pub fn parse_pid(text: &[u8]) -> (pid: Option<i32>)
    ensures
        pid == pid_of(text@),
{
    let n = text.len();
    if n == 0 {
        return None;
    }
    let negative = text[0] == 45;
    let start: usize = if negative || text[0] == 43 {
        1
    } else {
        0
    };
    let ghost digits = unsigned_part(text@);
    assert(digits =~= text@.subrange(start as int, n as int));
    let mut value: i64 = 0;
    let mut i: usize = start;
    assert(text@.subrange(start as int, i as int) =~= Seq::<u8>::empty());
    while i < n
        invariant
            start <= i <= n,
            n == text.len(),
            digits == text@.subrange(start as int, n as int),
            digits == unsigned_part(text@),
            all_digits(text@.subrange(start as int, i as int)),
            value == digits_value(text@.subrange(start as int, i as int)),
            value <= 0x8000_0000,
        decreases n - i,
    {
        let b = text[i];
        let ghost read = text@.subrange(start as int, i as int);
        let ghost longer = text@.subrange(start as int, i + 1);
        assert(longer.drop_last() =~= read);
        assert(longer.last() == b);
        if b < 48 || b > 57 {
            assert(!is_digit(digits[i - start]));
            return None;
        }
        value = value * 10 + (b - 48) as i64;
        assert(all_digits(longer)) by {
            assert forall|k: int| 0 <= k < longer.len() implies is_digit(#[trigger] longer[k]) by {
                if k < read.len() {
                    assert(longer[k] == read[k]);
                }
            }
        }
        if value > 0x8000_0000 {
            proof {
                if all_digits(digits) {
                    lemma_value_grows(digits, i + 1 - start);
                    assert(digits.subrange(0, i + 1 - start) =~= longer);
                }
            }
            return None;
        }
        i += 1;
    }
    assert(text@.subrange(start as int, i as int) =~= digits);
    if i == start {
        None
    } else if negative {
        Some((-value) as i32)
    } else if value <= 0x7fff_ffff {
        Some(value as i32)
    } else {
        None
    }
}

impl ChildReaper {
    /// Decides what the creation of a container process amounts to, once
    /// the runtime has been run.
    ///
    /// `launched` says whether the runtime could be started and waited for.
    /// `pidfile` is the content of the pidfile that the runtime was told to
    /// write, where one could be read.
    pub fn create_child(launched: bool, pidfile: Option<&[u8]>) -> (created: Result<
        i32,
        Error,
    >)
        ensures
            created == grandchild_pid(launched, pidfile),
    {
        if !launched {
            return Err(Error::SpawnFailure);
        }
        match pidfile {
            None => Err(Error::PidDiscoveryFailure),
            Some(text) => match parse_pid(text) {
                Some(pid) => Ok(pid),
                None => Err(Error::PidDiscoveryFailure),
            },
        }
    }
}

/// The process id of the container process, or why there is none: the
/// runtime did not run, or the pidfile is missing or writes no process id.
pub open spec fn grandchild_pid(launched: bool, pidfile: Option<&[u8]>) -> Result<i32, Error> {
    if !launched {
        Err(Error::SpawnFailure)
    } else {
        match pidfile {
            Some(text) => match pid_of(text@) {
                Some(pid) => Ok(pid),
                None => Err(Error::PidDiscoveryFailure),
            },
            None => Err(Error::PidDiscoveryFailure),
        }
    }
}

} // verus!
