//! What starting and reaping an action computes: the environment handed to
//! the child process, and the classification of an exit status.

use vstd::prelude::*;
use vstd::string::*;
use crate::event::{dec_val, digit_val, Event};
use crate::text::chars_to_string;

verus! {

/// The decimal digit character for `d`.
pub open spec fn digit_char(d: nat) -> char {
    if d == 0 {
        '0'
    } else if d == 1 {
        '1'
    } else if d == 2 {
        '2'
    } else if d == 3 {
        '3'
    } else if d == 4 {
        '4'
    } else if d == 5 {
        '5'
    } else if d == 6 {
        '6'
    } else if d == 7 {
        '7'
    } else if d == 8 {
        '8'
    } else {
        '9'
    }
}

/// The decimal representation of `n`, most significant digit first, no sign
/// and no leading zeros (a single `'0'` for zero).
pub open spec fn dec_rep(n: nat) -> Seq<char>
    decreases n,
{
    if n < 10 {
        seq![digit_char(n)]
    } else {
        dec_rep(n / 10).push(digit_char(n % 10))
    }
}

fn digit_char_exec(d: u32) -> (r: char)
    requires
        d < 10,
    ensures
        r == digit_char(d as nat),
{
    if d == 0 {
        '0'
    } else if d == 1 {
        '1'
    } else if d == 2 {
        '2'
    } else if d == 3 {
        '3'
    } else if d == 4 {
        '4'
    } else if d == 5 {
        '5'
    } else if d == 6 {
        '6'
    } else if d == 7 {
        '7'
    } else if d == 8 {
        '8'
    } else {
        '9'
    }
}

fn push_decimal(n: u32, out: &mut Vec<char>)
    ensures
        final(out)@ == old(out)@ + dec_rep(n as nat),
    decreases n,
{
    if n < 10 {
        out.push(digit_char_exec(n));
        proof {
            assert(out@ =~= old(out)@ + dec_rep(n as nat));
        }
    } else {
        push_decimal(n / 10, out);
        out.push(digit_char_exec(n % 10));
        proof {
            assert(out@ =~= old(out)@ + dec_rep(n as nat));
        }
    }
}

/// Law (decimal round trip): the decimal rendering of `n`, read back as a
/// digit string, is `n` again — the formatter here and the decoder's digit
/// grammar agree.
pub proof fn lemma_dec_rep_round_trip(n: nat)
    ensures
        dec_val(dec_rep(n)) == n,
    decreases n,
{
    if n < 10 {
        let ds = seq![digit_char(n)];
        assert(ds.len() == 1);
        assert(ds.last() == digit_char(n));
        assert(ds.drop_last() =~= Seq::<char>::empty());
        assert(dec_val(ds.drop_last()) == 0);
        assert(dec_val(ds) == dec_val(ds.drop_last()) * 10 + digit_val(ds.last()));
        assert(digit_val(digit_char(n)) == n);
    } else {
        lemma_dec_rep_round_trip(n / 10);
        let ds = dec_rep(n / 10).push(digit_char(n % 10));
        assert(ds.drop_last() =~= dec_rep(n / 10));
        assert(ds.last() == digit_char(n % 10));
        assert(digit_val(digit_char(n % 10)) == n % 10);
    }
}

/// Render `n` in decimal, exactly as its mathematical decimal representation.
pub fn u32_to_decimal(n: u32) -> (r: String)
    ensures
        r@ == dec_rep(n as nat),
{
    let mut v: Vec<char> = Vec::new();
    push_decimal(n, &mut v);
    proof {
        assert(v@ =~= dec_rep(n as nat));
    }
    chars_to_string(&v)
}

/// The fixed environment handed to an action child process: the event's
/// fields under fixed names, integers stringified in decimal, the state as
/// `"1"` or `"0"`.
pub fn action_env(e: &Event) -> (r: Vec<(String, String)>)
    ensures
        r@.len() == 7,
        r@[0].0@ == "TIME"@ && r@[0].1@ == e.time@,
        r@[1].0@ == "MODEL"@ && r@[1].1@ == e.model@,
        r@[2].0@ == "GROUP"@ && r@[2].1@ == dec_rep(e.group as nat),
        r@[3].0@ == "UNIT"@ && r@[3].1@ == dec_rep(e.unit as nat),
        r@[4].0@ == "ID"@ && r@[4].1@ == dec_rep(e.id as nat),
        r@[5].0@ == "CHANNEL"@ && r@[5].1@ == dec_rep(e.channel as nat),
        r@[6].0@ == "STATE"@ && r@[6].1@ == (if e.state {
            "1"@
        } else {
            "0"@
        }),
{
    let mut v: Vec<(String, String)> = Vec::new();
    v.push((String::from_str("TIME"), e.time.clone()));
    v.push((String::from_str("MODEL"), e.model.clone()));
    v.push((String::from_str("GROUP"), u32_to_decimal(e.group)));
    v.push((String::from_str("UNIT"), u32_to_decimal(e.unit)));
    v.push((String::from_str("ID"), u32_to_decimal(e.id)));
    v.push((String::from_str("CHANNEL"), u32_to_decimal(e.channel)));
    let state = if e.state {
        String::from_str("1")
    } else {
        String::from_str("0")
    };
    v.push((String::from_str("STATE"), state));
    v
}

/// How a supervised process ended, as far as the operating system reports it.
#[derive(Clone, Copy, Debug, PartialEq, Eq, Structural)]
pub enum ExitKind {
    /// Exited with status zero: nothing to report.
    CleanExit,
    /// Exited with the given nonzero status code.
    ExitedWithCode(i32),
    /// Killed by the given signal.
    KilledBySignal(i32),
    /// Neither a status code nor a signal was reported.
    UnknownCondition,
}

/// Classification of a reported exit: a status code of zero is clean, any
/// other status code and any signal are advisory conditions, and everything
/// else is unknown.
pub open spec fn classify_exit_spec(code: Option<i32>, signal: Option<i32>) -> ExitKind {
    match (code, signal) {
        (Some(c), None) => if c == 0 {
            ExitKind::CleanExit
        } else {
            ExitKind::ExitedWithCode(c)
        },
        (None, Some(s)) => ExitKind::KilledBySignal(s),
        _ => ExitKind::UnknownCondition,
    }
}

/// Classify how a supervised process (an action, or the decoder itself)
/// ended. Advisory only: the caller logs it and never propagates it as a
/// pipeline failure.
pub fn classify_exit(code: Option<i32>, signal: Option<i32>) -> (r: ExitKind)
    ensures
        r == classify_exit_spec(code, signal),
{
    match (code, signal) {
        (Some(c), None) => if c == 0 {
            ExitKind::CleanExit
        } else {
            ExitKind::ExitedWithCode(c)
        },
        (None, Some(s)) => ExitKind::KilledBySignal(s),
        _ => ExitKind::UnknownCondition,
    }
}

} // verus!
