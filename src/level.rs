//! Priority classes and the text that names them.
use vstd::prelude::*;

use crate::text::has_at;

verus! {

/// An I/O scheduling class with its level.
#[derive(Clone, Copy, Debug, PartialEq, Eq, Structural)]
pub enum PrioClass {
    /// Served only when the device is otherwise idle.
    Idle,
    /// The best-effort class; the level runs from 0 (highest) to 7 (lowest).
    BestEffort(u8),
}

impl PrioClass {
    /// Every class value that the parser produces has its level in range.
    pub open spec fn wf(self) -> bool {
        match self {
            PrioClass::Idle => true,
            PrioClass::BestEffort(l) => l < 8,
        }
    }
}

pub open spec fn is_digit(c: char) -> bool {
    ('0' as u32) <= (c as u32) && (c as u32) <= ('9' as u32)
}

pub open spec fn digit_value(c: char) -> int {
    (c as u32) - ('0' as u32)
}

/// The number written by the decimal digits `d`.
pub open spec fn decimal_value(d: Seq<char>) -> int
    decreases d.len(),
{
    if d.len() == 0 {
        0
    } else {
        decimal_value(d.drop_last()) * 10 + digit_value(d.last())
    }
}

pub open spec fn is_decimal(d: Seq<char>) -> bool {
    d.len() > 0 && forall|i: int| 0 <= i < d.len() ==> is_digit(#[trigger] d[i])
}

/// What reading `s` as an unsigned byte gives: an optional `+`, then at least
/// one decimal digit, and a value no greater than 255.
pub open spec fn byte_of_text(s: Seq<char>) -> Option<u8> {
    let d = if s.len() > 0 && s[0] == '+' {
        s.drop_first()
    } else {
        s
    };
    if is_decimal(d) && decimal_value(d) <= 255 {
        Some(decimal_value(d) as u8)
    } else {
        None
    }
}

proof fn lemma_decimal_nonneg(d: Seq<char>)
    requires
        forall|i: int| 0 <= i < d.len() ==> is_digit(#[trigger] d[i]),
    ensures
        decimal_value(d) >= 0,
    decreases d.len(),
{
    if d.len() > 0 {
        lemma_decimal_nonneg(d.drop_last());
    }
}

/// Reads `s` as an unsigned byte in decimal.
pub fn parse_byte(s: &str) -> (r: Option<u8>)
    ensures
        r == byte_of_text(s@),
{
    let n = s.unicode_len();
    let mut start: usize = 0;
    if n > 0 && s.get_char(0) == '+' {
        start = 1;
    }
    let ghost d = if s@.len() > 0 && s@[0] == '+' {
        s@.drop_first()
    } else {
        s@
    };
    assert(d =~= s@.subrange(start as int, n as int));
    if start == n {
        return None;
    }
    let mut value: u32 = 0;
    let mut i: usize = start;
    while i < n
        invariant
            n == s@.len(),
            start <= i <= n,
            d == s@.subrange(start as int, n as int),
            d == (if s@.len() > 0 && s@[0] == '+' {
                s@.drop_first()
            } else {
                s@
            }),
            forall|k: int| start <= k < i ==> is_digit(#[trigger] s@[k]),
            value as int == if decimal_value(s@.subrange(start as int, i as int)) < 256 {
                decimal_value(s@.subrange(start as int, i as int))
            } else {
                256
            },
        decreases n - i,
    {
        let c = s.get_char(i);
        let cv = c as u32;
        if cv < ('0' as u32) || cv > ('9' as u32) {
            proof {
                assert(d[i - start] == c);
                assert(!is_digit(d[i - start]));
                assert(!is_decimal(d));
            }
            return None;
        }
        let ghost pre = s@.subrange(start as int, i as int);
        let ghost next = s@.subrange(start as int, i + 1);
        proof {
            assert(next.drop_last() =~= pre);
            assert(next.last() == c);
            assert forall|k: int| 0 <= k < pre.len() implies is_digit(#[trigger] pre[k]) by {
                assert(pre[k] == s@[start + k]);
            }
            lemma_decimal_nonneg(pre);
            assert(decimal_value(next) == decimal_value(pre) * 10 + digit_value(c));
            if decimal_value(pre) >= 256 {
                assert(decimal_value(pre) * 10 >= 256) by (nonlinear_arith)
                    requires decimal_value(pre) >= 256;
            }
        }
        let digit: u32 = cv - ('0' as u32);
        let grown: u32 = value * 10 + digit;
        if grown >= 256 {
            value = 256;
        } else {
            value = grown;
        }
        i = i + 1;
    }
    assert(s@.subrange(start as int, n as int) == d);
    assert forall|k: int| 0 <= k < d.len() implies is_digit(#[trigger] d[k]) by {
        assert(d[k] == s@[start + k]);
    }
    if value > 255 {
        None
    } else {
        Some(value as u8)
    }
}

/// The word that names the idle class.
pub open spec fn idle_word() -> Seq<char> {
    seq!['i', 'd', 'l', 'e']
}

/// The opening of a best-effort class with its level.
pub open spec fn best_effort_opening() -> Seq<char> {
    seq!['b', 'e', 's', 't', '_', 'e', 'f', 'f', 'o', 'r', 't', '(']
}

/// The class that a priority text names: `idle`, or `best_effort(<level>)`
/// with a level from 0 to 7 and exactly one closing parenthesis.
pub open spec fn class_of_text(s: Seq<char>) -> Option<PrioClass> {
    if s == idle_word() {
        Some(PrioClass::Idle)
    } else {
        let k = best_effort_opening().len();
        if s.len() > k && s.subrange(0, k as int) == best_effort_opening() && s.last() == ')' {
            match byte_of_text(s.subrange(k as int, s.len() - 1)) {
                Some(l) => if l < 8 {
                    Some(PrioClass::BestEffort(l))
                } else {
                    None
                },
                None => None,
            }
        } else {
            None
        }
    }
}

/// Relies on ioprio::BePriorityLevel::from_level, which wraps exactly the
/// levels below 8, and on its `level`, which gives the wrapped level back.
#[verifier::external_body]
fn best_effort_level(level: u8) -> (r: Option<u8>)
    ensures
        r == (if level < 8 {
            Some(level)
        } else {
            None
        }),
{
    ioprio::BePriorityLevel::from_level(level).map(|l| l.level())
}

/// Reads a priority text: `idle`, or `best_effort(<level>)` with a level
/// from 0 to 7.
pub fn parse_prio(s: &str) -> (r: Option<PrioClass>)
    ensures
        r == class_of_text(s@),
        r matches Some(c) ==> c.wf(),
{
    let n = s.unicode_len();
    proof {
        reveal_strlit("idle");
        reveal_strlit("best_effort(");
        assert("idle"@ =~= idle_word());
        assert("best_effort("@ =~= best_effort_opening());
    }
    if n == 4 && has_at(s, 0, "idle") {
        assert(s@ =~= s@.subrange(0, 4));
        return Some(PrioClass::Idle);
    }
    assert(s@ != idle_word()) by {
        if s@ == idle_word() {
            assert(s@.subrange(0, 4) =~= s@);
        }
    }
    let k: usize = 12;
    if n <= k || !has_at(s, 0, "best_effort(") || s.get_char(n - 1) != ')' {
        assert(!(s@.len() > 12 && s@.subrange(0, 12) == best_effort_opening() && s@.last()
            == ')'));
        return None;
    }
    let e: usize = n - 1;
    let digits = s.substring_char(k, e);
    assert(digits@ =~= s@.subrange(12, s@.len() - 1));
    match parse_byte(digits) {
        Some(l) => match best_effort_level(l) {
            Some(level) => Some(PrioClass::BestEffort(level)),
            None => None,
        },
        None => None,
    }
}

} // verus!
