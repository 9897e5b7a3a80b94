//! The decoded domain event, and the decoder for the external collaborator's
//! line format.
//!
//! The decoder's output stream is newline-delimited JSON objects with exactly
//! the fields `time` (string), `model` (string), `group`, `unit`, `id`,
//! `channel` (unsigned 32-bit integers) and `state` (the string `"ON"` or
//! `"OFF"`), in any key order. Any other shape — an unknown or duplicate key,
//! a missing field, a malformed literal, an out-of-range integer, an
//! unrecognized `state` token — is a decode failure, which the pipeline
//! treats as fatal. String values support the single-character escapes
//! `\" \\ \/ \b \f \n \r \t`; other escapes are decode failures.

use vstd::prelude::*;
use vstd::string::*;
use crate::text::{chars_to_string, str_to_chars};

verus! {

/// One decoded event. Constructed per input line, consumed immediately by the
/// filter, then discarded or forwarded; never mutated.
///
/// `time` is opaque and passed through verbatim; `model` is the device model
/// string; `group`, `unit`, `id` and `channel` are match keys whose semantics
/// the core does not interpret; `state` is decoded from the tokens `"ON"` and
/// `"OFF"`.
#[derive(Clone, Debug)]
pub struct Event {
    pub time: String,
    pub model: String,
    pub group: u32,
    pub unit: u32,
    pub id: u32,
    pub channel: u32,
    pub state: bool,
}

/// The mathematical value of an [`Event`]: strings as character sequences,
/// everything else as plain values.
pub struct EventView {
    pub time: Seq<char>,
    pub model: Seq<char>,
    pub group: u32,
    pub unit: u32,
    pub id: u32,
    pub channel: u32,
    pub state: bool,
}

impl View for Event {
    type V = EventView;

    open spec fn view(&self) -> EventView {
        EventView {
            time: self.time@,
            model: self.model@,
            group: self.group,
            unit: self.unit,
            id: self.id,
            channel: self.channel,
            state: self.state,
        }
    }
}

/// A line that does not decode to an [`Event`]. Fatal for the whole
/// pipeline: it means the external decoder emitted an unrecognized format.
#[derive(Clone, Copy, Debug)]
pub struct DecodeError;

// ---------------------------------------------------------------------------
// The grammar, as specification functions over character sequences. Each
// parsing function takes the input and a position and yields the parsed value
// with the position one past its end, or nothing on a malformed input.
// ---------------------------------------------------------------------------

/// JSON insignificant whitespace.
pub open spec fn is_json_ws(c: char) -> bool {
    c == ' ' || c == '\t' || c == '\n' || c == '\r'
}

pub open spec fn is_digit(c: char) -> bool {
    '0' as u32 <= c as u32 && c as u32 <= '9' as u32
}

pub open spec fn digit_val(c: char) -> nat {
    (c as int - '0' as int) as nat
}

/// The first position at or after `i` holding no whitespace.
pub open spec fn skip_ws(s: Seq<char>, i: int) -> int
    decreases s.len() - i,
{
    if i < s.len() && is_json_ws(s[i]) {
        skip_ws(s, i + 1)
    } else {
        i
    }
}

/// The remainder of a string literal after its opening quote: the decoded
/// content accumulates onto `acc`, until the closing quote. Unterminated
/// literals, raw control characters and unsupported escapes fail.
pub open spec fn string_body(s: Seq<char>, i: int, acc: Seq<char>) -> Option<(Seq<char>, int)>
    decreases s.len() - i,
{
    if i >= s.len() {
        None
    } else if s[i] == '"' {
        Some((acc, i + 1))
    } else if s[i] == '\\' {
        if i + 1 >= s.len() {
            None
        } else {
            let e = s[i + 1];
            if e == '"' {
                string_body(s, i + 2, acc.push('"'))
            } else if e == '\\' {
                string_body(s, i + 2, acc.push('\\'))
            } else if e == '/' {
                string_body(s, i + 2, acc.push('/'))
            } else if e == 'b' {
                string_body(s, i + 2, acc.push('\u{0008}'))
            } else if e == 'f' {
                string_body(s, i + 2, acc.push('\u{000C}'))
            } else if e == 'n' {
                string_body(s, i + 2, acc.push('\n'))
            } else if e == 'r' {
                string_body(s, i + 2, acc.push('\r'))
            } else if e == 't' {
                string_body(s, i + 2, acc.push('\t'))
            } else {
                None
            }
        }
    } else if (s[i] as u32) < 0x20 {
        None
    } else {
        string_body(s, i + 1, acc.push(s[i]))
    }
}

/// A string literal at `i`: an opening quote, a body, a closing quote.
pub open spec fn parse_string(s: Seq<char>, i: int) -> Option<(Seq<char>, int)> {
    if i < s.len() && s[i] == '"' {
        string_body(s, i + 1, Seq::empty())
    } else {
        None
    }
}

/// The first position at or after `i` holding no decimal digit.
pub open spec fn digits_end(s: Seq<char>, i: int) -> int
    decreases s.len() - i,
{
    if i < s.len() && is_digit(s[i]) {
        digits_end(s, i + 1)
    } else {
        i
    }
}

/// The value of a digit string, most significant digit first.
pub open spec fn dec_val(ds: Seq<char>) -> nat
    decreases ds.len(),
{
    if ds.len() == 0 {
        0
    } else {
        dec_val(ds.drop_last()) * 10 + digit_val(ds.last())
    }
}

/// An unsigned integer literal at `i`: JSON's grammar (a single `0`, or a
/// nonzero digit followed by digits), failing on values above `u32::MAX`.
pub open spec fn parse_number(s: Seq<char>, i: int) -> Option<(u32, int)> {
    if i < s.len() && is_digit(s[i]) {
        if s[i] == '0' {
            if i + 1 < s.len() && is_digit(s[i + 1]) {
                None
            } else {
                Some((0, i + 1))
            }
        } else {
            let j = digits_end(s, i);
            let v = dec_val(s.subrange(i, j));
            if v > u32::MAX {
                None
            } else {
                Some((v as u32, j))
            }
        }
    } else {
        None
    }
}

/// An event object under construction: each field seen at most once.
pub struct PartialView {
    pub time: Option<Seq<char>>,
    pub model: Option<Seq<char>>,
    pub group: Option<u32>,
    pub unit: Option<u32>,
    pub id: Option<u32>,
    pub channel: Option<u32>,
    pub state: Option<bool>,
}

pub open spec fn empty_partial() -> PartialView {
    PartialView {
        time: None,
        model: None,
        group: None,
        unit: None,
        id: None,
        channel: None,
        state: None,
    }
}

/// One `"key" : value` member at `i`: the key selects the field and the form
/// of the value; an unknown key, a duplicate field, or a value of the wrong
/// form fails. The `state` value must be exactly `"ON"` or `"OFF"`.
pub open spec fn parse_member(s: Seq<char>, i: int, acc: PartialView) -> Option<
    (PartialView, int),
> {
    match parse_string(s, i) {
        None => None,
        Some((key, j)) => {
            let j2 = skip_ws(s, j);
            if j2 >= s.len() || s[j2] != ':' {
                None
            } else {
                let j3 = skip_ws(s, j2 + 1);
                if key == "time"@ {
                    if acc.time is Some {
                        None
                    } else {
                        match parse_string(s, j3) {
                            None => None,
                            Some((v, j4)) => Some((PartialView { time: Some(v), ..acc }, j4)),
                        }
                    }
                } else if key == "model"@ {
                    if acc.model is Some {
                        None
                    } else {
                        match parse_string(s, j3) {
                            None => None,
                            Some((v, j4)) => Some((PartialView { model: Some(v), ..acc }, j4)),
                        }
                    }
                } else if key == "state"@ {
                    if acc.state is Some {
                        None
                    } else {
                        match parse_string(s, j3) {
                            None => None,
                            Some((v, j4)) => if v == "ON"@ {
                                Some((PartialView { state: Some(true), ..acc }, j4))
                            } else if v == "OFF"@ {
                                Some((PartialView { state: Some(false), ..acc }, j4))
                            } else {
                                None
                            },
                        }
                    }
                } else if key == "group"@ {
                    if acc.group is Some {
                        None
                    } else {
                        match parse_number(s, j3) {
                            None => None,
                            Some((v, j4)) => Some((PartialView { group: Some(v), ..acc }, j4)),
                        }
                    }
                } else if key == "unit"@ {
                    if acc.unit is Some {
                        None
                    } else {
                        match parse_number(s, j3) {
                            None => None,
                            Some((v, j4)) => Some((PartialView { unit: Some(v), ..acc }, j4)),
                        }
                    }
                } else if key == "id"@ {
                    if acc.id is Some {
                        None
                    } else {
                        match parse_number(s, j3) {
                            None => None,
                            Some((v, j4)) => Some((PartialView { id: Some(v), ..acc }, j4)),
                        }
                    }
                } else if key == "channel"@ {
                    if acc.channel is Some {
                        None
                    } else {
                        match parse_number(s, j3) {
                            None => None,
                            Some((v, j4)) => Some((PartialView { channel: Some(v), ..acc }, j4)),
                        }
                    }
                } else {
                    None
                }
            }
        },
    }
}

/// Members from `i` on: one member, then either the closing brace or a comma
/// and further members. The position-advance guard keeps the recursion well
/// founded; a successful member always moves forward, so it never fires on a
/// parseable input.
pub open spec fn member_list(s: Seq<char>, i: int, acc: PartialView) -> Option<(PartialView, int)>
    decreases s.len() - i,
{
    match parse_member(s, i, acc) {
        None => None,
        Some((acc2, j)) => {
            let j2 = skip_ws(s, j);
            if j2 < s.len() && s[j2] == '}' {
                Some((acc2, j2 + 1))
            } else if j2 < s.len() && s[j2] == ',' {
                let j3 = skip_ws(s, j2 + 1);
                if i < j3 <= s.len() {
                    member_list(s, j3, acc2)
                } else {
                    None
                }
            } else {
                None
            }
        },
    }
}

/// The object at `i`: braces around a possibly empty member list.
pub open spec fn parse_object(s: Seq<char>, i: int) -> Option<(PartialView, int)> {
    if i < s.len() && s[i] == '{' {
        let j = skip_ws(s, i + 1);
        if j < s.len() && s[j] == '}' {
            Some((empty_partial(), j + 1))
        } else {
            member_list(s, j, empty_partial())
        }
    } else {
        None
    }
}

/// An object becomes an event exactly when every field was present.
pub open spec fn finalize(p: PartialView) -> Option<EventView> {
    match (p.time, p.model, p.group, p.unit, p.id, p.channel, p.state) {
        (Some(t), Some(m), Some(g), Some(u), Some(id), Some(c), Some(st)) => Some(
            EventView { time: t, model: m, group: g, unit: u, id: id, channel: c, state: st },
        ),
        _ => None,
    }
}

/// What one full line decodes to: one object, surrounded by nothing but
/// whitespace, holding every field exactly once.
pub open spec fn parse_event(s: Seq<char>) -> Option<EventView> {
    let i = skip_ws(s, 0);
    match parse_object(s, i) {
        None => None,
        Some((p, j)) => if skip_ws(s, j) == s.len() {
            finalize(p)
        } else {
            None
        },
    }
}

// ---------------------------------------------------------------------------
// Position bounds of the grammar functions.
// ---------------------------------------------------------------------------

proof fn lemma_skip_ws_bounds(s: Seq<char>, i: int)
    requires
        0 <= i <= s.len(),
    ensures
        i <= skip_ws(s, i) <= s.len(),
    decreases s.len() - i,
{
    if i < s.len() && is_json_ws(s[i]) {
        lemma_skip_ws_bounds(s, i + 1);
    }
}

proof fn lemma_string_body_bounds(s: Seq<char>, i: int, acc: Seq<char>)
    requires
        0 <= i,
    ensures
        match string_body(s, i, acc) {
            Some((c, j)) => i < j <= s.len(),
            None => true,
        },
    decreases s.len() - i,
{
    if i >= s.len() {
    } else if s[i] == '"' {
    } else if s[i] == '\\' {
        if i + 1 < s.len() {
            let e = s[i + 1];
            if e == '"' {
                lemma_string_body_bounds(s, i + 2, acc.push('"'));
            } else if e == '\\' {
                lemma_string_body_bounds(s, i + 2, acc.push('\\'));
            } else if e == '/' {
                lemma_string_body_bounds(s, i + 2, acc.push('/'));
            } else if e == 'b' {
                lemma_string_body_bounds(s, i + 2, acc.push('\u{0008}'));
            } else if e == 'f' {
                lemma_string_body_bounds(s, i + 2, acc.push('\u{000C}'));
            } else if e == 'n' {
                lemma_string_body_bounds(s, i + 2, acc.push('\n'));
            } else if e == 'r' {
                lemma_string_body_bounds(s, i + 2, acc.push('\r'));
            } else if e == 't' {
                lemma_string_body_bounds(s, i + 2, acc.push('\t'));
            }
        }
    } else if (s[i] as u32) < 0x20 {
    } else {
        lemma_string_body_bounds(s, i + 1, acc.push(s[i]));
    }
}

proof fn lemma_parse_string_bounds(s: Seq<char>, i: int)
    requires
        0 <= i,
    ensures
        match parse_string(s, i) {
            Some((c, j)) => i < j <= s.len(),
            None => true,
        },
{
    if i < s.len() && s[i] == '"' {
        lemma_string_body_bounds(s, i + 1, Seq::empty());
    }
}

proof fn lemma_digits_end_bounds(s: Seq<char>, i: int)
    requires
        0 <= i <= s.len(),
    ensures
        i <= digits_end(s, i) <= s.len(),
    decreases s.len() - i,
{
    if i < s.len() && is_digit(s[i]) {
        lemma_digits_end_bounds(s, i + 1);
    }
}

proof fn lemma_parse_number_bounds(s: Seq<char>, i: int)
    requires
        0 <= i <= s.len(),
    ensures
        match parse_number(s, i) {
            Some((v, j)) => i < j <= s.len(),
            None => true,
        },
{
    if i < s.len() && is_digit(s[i]) && s[i] != '0' {
        lemma_digits_end_bounds(s, i + 1);
    }
}

/// A successfully parsed member always moves the position forward.
proof fn lemma_parse_member_advances(s: Seq<char>, i: int, acc: PartialView)
    requires
        0 <= i <= s.len(),
    ensures
        match parse_member(s, i, acc) {
            Some((p, j)) => i < j <= s.len(),
            None => true,
        },
{
    lemma_parse_string_bounds(s, i);
    match parse_string(s, i) {
        None => {},
        Some((key, j)) => {
            lemma_skip_ws_bounds(s, j);
            let j2 = skip_ws(s, j);
            if j2 < s.len() && s[j2] == ':' {
                lemma_skip_ws_bounds(s, j2 + 1);
                let j3 = skip_ws(s, j2 + 1);
                lemma_parse_string_bounds(s, j3);
                lemma_parse_number_bounds(s, j3);
            }
        },
    }
}

// ---------------------------------------------------------------------------
// The executable decoder, each step proved equal to the grammar above.
// ---------------------------------------------------------------------------

fn is_ws_char(c: char) -> (r: bool)
    ensures
        r == is_json_ws(c),
{
    c == ' ' || c == '\t' || c == '\n' || c == '\r'
}

fn is_digit_char(c: char) -> (r: bool)
    ensures
        r == is_digit(c),
{
    let u = c as u32;
    48 <= u && u <= 57
}

fn digit_value(c: char) -> (r: u32)
    requires
        is_digit(c),
    ensures
        r as nat == digit_val(c),
        r < 10,
{
    (c as u32) - 48
}

fn skip_ws_exec(s: &Vec<char>, i: usize) -> (j: usize)
    requires
        i <= s.len(),
    ensures
        j as int == skip_ws(s@, i as int),
        i <= j <= s.len(),
{
    let mut j = i;
    while j < s.len() && is_ws_char(s[j])
        invariant
            i <= j <= s@.len(),
            skip_ws(s@, i as int) == skip_ws(s@, j as int),
        decreases s@.len() - j,
    {
        j += 1;
    }
    j
}

/// An event object under construction, with the decoded text of the string
/// fields seen so far.
struct PartialEvent {
    time: Option<Vec<char>>,
    model: Option<Vec<char>>,
    group: Option<u32>,
    unit: Option<u32>,
    id: Option<u32>,
    channel: Option<u32>,
    state: Option<bool>,
}

impl View for PartialEvent {
    type V = PartialView;

    closed spec fn view(&self) -> PartialView {
        PartialView {
            time: match self.time {
                Some(v) => Some(v@),
                None => None,
            },
            model: match self.model {
                Some(v) => Some(v@),
                None => None,
            },
            group: self.group,
            unit: self.unit,
            id: self.id,
            channel: self.channel,
            state: self.state,
        }
    }
}

fn empty_partial_exec() -> (r: PartialEvent)
    ensures
        r@ == empty_partial(),
{
    PartialEvent {
        time: None,
        model: None,
        group: None,
        unit: None,
        id: None,
        channel: None,
        state: None,
    }
}

fn parse_string_exec(s: &Vec<char>, i: usize) -> (r: Option<(Vec<char>, usize)>)
    requires
        i <= s.len(),
    ensures
        match r {
            Some((c, j)) => parse_string(s@, i as int) == Some((c@, j as int)) && i < j <= s.len(),
            None => parse_string(s@, i as int) is None,
        },
{
    if i >= s.len() || s[i] != '"' {
        return None;
    }
    let mut j = i + 1;
    let mut acc: Vec<char> = Vec::new();
    while j < s.len()
        invariant
            i + 1 <= j <= s@.len(),
            string_body(s@, (i + 1) as int, Seq::empty()) == string_body(s@, j as int, acc@),
            parse_string(s@, i as int) == string_body(s@, (i + 1) as int, Seq::empty()),
        decreases s@.len() - j,
    {
        let c = s[j];
        if c == '"' {
            return Some((acc, j + 1));
        }
        if c == '\\' {
            if j + 1 >= s.len() {
                return None;
            }
            let e = s[j + 1];
            let decoded = if e == '"' {
                Some('"')
            } else if e == '\\' {
                Some('\\')
            } else if e == '/' {
                Some('/')
            } else if e == 'b' {
                Some('\u{0008}')
            } else if e == 'f' {
                Some('\u{000C}')
            } else if e == 'n' {
                Some('\n')
            } else if e == 'r' {
                Some('\r')
            } else if e == 't' {
                Some('\t')
            } else {
                None
            };
            match decoded {
                None => {
                    return None;
                },
                Some(d) => {
                    acc.push(d);
                    j += 2;
                },
            }
        } else if (c as u32) < 0x20 {
            return None;
        } else {
            acc.push(c);
            j += 1;
        }
    }
    None
}

fn parse_number_exec(s: &Vec<char>, i: usize) -> (r: Option<(u32, usize)>)
    requires
        i <= s.len(),
    ensures
        match r {
            Some((v, j)) => parse_number(s@, i as int) == Some((v, j as int)) && i < j <= s.len(),
            None => parse_number(s@, i as int) is None,
        },
{
    if i >= s.len() || !is_digit_char(s[i]) {
        return None;
    }
    if s[i] == '0' {
        if i + 1 < s.len() && is_digit_char(s[i + 1]) {
            return None;
        }
        return Some((0, i + 1));
    }
    let ghost end = digits_end(s@, i as int);
    proof {
        lemma_digits_end_bounds(s@, i as int);
    }
    let mut j = i;
    let mut v: u32 = 0;
    while j < s.len() && is_digit_char(s[j])
        invariant
            i <= j <= s@.len(),
            end == digits_end(s@, i as int) == digits_end(s@, j as int),
            forall|k: int| i <= k < j ==> is_digit(s@[k]),
            v as nat == dec_val(s@.subrange(i as int, j as int)),
        decreases s@.len() - j,
    {
        let d = digit_value(s[j]);
        if v > (u32::MAX - d) / 10 {
            proof {
                lemma_digits_end_bounds(s@, j as int + 1);
                assert(is_digit(s@[j as int]));
                let pre = s@.subrange(i as int, j as int);
                let cur = s@.subrange(i as int, j as int + 1);
                assert(cur.drop_last() =~= pre);
                assert(cur.last() == s@[j as int]);
                assert(dec_val(cur) == (v as nat) * 10 + (d as nat));
                assert((v as nat) * 10 + (d as nat) > u32::MAX) by {
                    assert(v as nat >= (u32::MAX - d) as nat / 10 + 1);
                    assert(((u32::MAX - d) as nat / 10 + 1) * 10 == ((u32::MAX - d) as nat / 10)
                        * 10 + 10);
                    assert(((u32::MAX - d) as nat / 10) * 10 + 10 > (u32::MAX - d) as nat);
                }
                assert(end == digits_end(s@, j as int + 1));
                lemma_dec_val_monotonic(s@, i as int, j as int + 1, end);
                assert(dec_val(s@.subrange(i as int, end)) > u32::MAX);
            }
            return None;
        }
        v = v * 10 + d;
        proof {
            let pre = s@.subrange(i as int, j as int);
            let cur = s@.subrange(i as int, j as int + 1);
            assert(cur.drop_last() =~= pre);
            assert(cur.last() == s@[j as int]);
        }
        j += 1;
    }
    proof {
        assert(digits_end(s@, j as int) == j as int);
        assert(end == j as int);
        assert(i < j) by {
            if i == j {
                assert(is_digit(s@[i as int]));
                lemma_digits_end_bounds(s@, i as int + 1);
            }
        }
    }
    Some((v, j))
}

/// The value of a digit run only grows as the run extends.
proof fn lemma_dec_val_monotonic(s: Seq<char>, i: int, j1: int, j2: int)
    requires
        0 <= i <= j1 <= j2 <= s.len(),
    ensures
        dec_val(s.subrange(i, j1)) <= dec_val(s.subrange(i, j2)),
    decreases j2 - j1,
{
    if j1 < j2 {
        let a = s.subrange(i, j1);
        let b = s.subrange(i, j1 + 1);
        assert(b.drop_last() =~= a);
        assert(dec_val(b) == dec_val(a) * 10 + digit_val(b.last()));
        assert(dec_val(a) * 10 >= dec_val(a));
        lemma_dec_val_monotonic(s, i, j1 + 1, j2);
    }
}

fn chars_match(v: &Vec<char>, s: &str) -> (r: bool)
    ensures
        r == (v@ == s@),
{
    let n = s.unicode_len();
    if v.len() != n {
        proof {
            assert(v@ != s@) by {
                if v@ == s@ {
                    assert(v@.len() == s@.len());
                }
            }
        }
        return false;
    }
    let mut i: usize = 0;
    while i < n
        invariant
            i <= n,
            n == s@.len(),
            n == v@.len(),
            forall|k: int| 0 <= k < i ==> v@[k] == s@[k],
        decreases n - i,
    {
        if v[i] != s.get_char(i) {
            proof {
                assert(v@[i as int] != s@[i as int]);
            }
            return false;
        }
        i += 1;
    }
    proof {
        assert(v@ =~= s@);
    }
    true
}

fn parse_member_exec(s: &Vec<char>, i: usize, acc: PartialEvent) -> (r: Option<
    (PartialEvent, usize),
>)
    requires
        i <= s.len(),
    ensures
        match r {
            Some((p, j)) => parse_member(s@, i as int, acc@) == Some((p@, j as int)) && i < j
                <= s.len(),
            None => parse_member(s@, i as int, acc@) is None,
        },
{
    let (key, j) = match parse_string_exec(s, i) {
        None => {
            return None;
        },
        Some(kj) => kj,
    };
    let j2 = skip_ws_exec(s, j);
    if j2 >= s.len() || s[j2] != ':' {
        return None;
    }
    let j3 = skip_ws_exec(s, j2 + 1);
    if chars_match(&key, "time") {
        if acc.time.is_some() {
            return None;
        }
        match parse_string_exec(s, j3) {
            None => None,
            Some((v, j4)) => Some((PartialEvent { time: Some(v), ..acc }, j4)),
        }
    } else if chars_match(&key, "model") {
        if acc.model.is_some() {
            return None;
        }
        match parse_string_exec(s, j3) {
            None => None,
            Some((v, j4)) => Some((PartialEvent { model: Some(v), ..acc }, j4)),
        }
    } else if chars_match(&key, "state") {
        if acc.state.is_some() {
            return None;
        }
        match parse_string_exec(s, j3) {
            None => None,
            Some((v, j4)) => {
                if chars_match(&v, "ON") {
                    Some((PartialEvent { state: Some(true), ..acc }, j4))
                } else if chars_match(&v, "OFF") {
                    Some((PartialEvent { state: Some(false), ..acc }, j4))
                } else {
                    None
                }
            },
        }
    } else if chars_match(&key, "group") {
        if acc.group.is_some() {
            return None;
        }
        match parse_number_exec(s, j3) {
            None => None,
            Some((v, j4)) => Some((PartialEvent { group: Some(v), ..acc }, j4)),
        }
    } else if chars_match(&key, "unit") {
        if acc.unit.is_some() {
            return None;
        }
        match parse_number_exec(s, j3) {
            None => None,
            Some((v, j4)) => Some((PartialEvent { unit: Some(v), ..acc }, j4)),
        }
    } else if chars_match(&key, "id") {
        if acc.id.is_some() {
            return None;
        }
        match parse_number_exec(s, j3) {
            None => None,
            Some((v, j4)) => Some((PartialEvent { id: Some(v), ..acc }, j4)),
        }
    } else if chars_match(&key, "channel") {
        if acc.channel.is_some() {
            return None;
        }
        match parse_number_exec(s, j3) {
            None => None,
            Some((v, j4)) => Some((PartialEvent { channel: Some(v), ..acc }, j4)),
        }
    } else {
        None
    }
}

fn parse_object_exec(s: &Vec<char>, i: usize) -> (r: Option<(PartialEvent, usize)>)
    requires
        i <= s.len(),
    ensures
        match r {
            Some((p, j)) => parse_object(s@, i as int) == Some((p@, j as int)) && j <= s.len(),
            None => parse_object(s@, i as int) is None,
        },
{
    if i >= s.len() || s[i] != '{' {
        return None;
    }
    let j = skip_ws_exec(s, i + 1);
    if j < s.len() && s[j] == '}' {
        return Some((empty_partial_exec(), j + 1));
    }
    let mut pos = j;
    let mut acc = empty_partial_exec();
    loop
        invariant
            pos <= s@.len(),
            parse_object(s@, i as int) == member_list(s@, pos as int, acc@),
        decreases s@.len() - pos,
    {
        proof {
            lemma_parse_member_advances(s@, pos as int, acc@);
        }
        match parse_member_exec(s, pos, acc) {
            None => {
                return None;
            },
            Some((acc2, jj)) => {
                let j2 = skip_ws_exec(s, jj);
                if j2 < s.len() && s[j2] == '}' {
                    return Some((acc2, j2 + 1));
                }
                if j2 < s.len() && s[j2] == ',' {
                    let j3 = skip_ws_exec(s, j2 + 1);
                    acc = acc2;
                    pos = j3;
                } else {
                    return None;
                }
            },
        }
    }
}

/// Decode one line of the external decoder's output. Returns the event
/// exactly when the line is one well-formed event object; any other line is
/// a decode failure, fatal for the pipeline.
pub fn decode_event(line: &str) -> (r: Result<Event, DecodeError>)
    ensures
        match r {
            Ok(e) => parse_event(line@) == Some(e@),
            Err(_) => parse_event(line@) is None,
        },
{
    let s = str_to_chars(line);
    let i = skip_ws_exec(&s, 0);
    let (p, j) = match parse_object_exec(&s, i) {
        None => {
            return Err(DecodeError);
        },
        Some(x) => x,
    };
    if skip_ws_exec(&s, j) != s.len() {
        return Err(DecodeError);
    }
    match (p.time, p.model, p.group, p.unit, p.id, p.channel, p.state) {
        (Some(t), Some(m), Some(g), Some(u), Some(id), Some(c), Some(st)) => {
            let e = Event {
                time: chars_to_string(&t),
                model: chars_to_string(&m),
                group: g,
                unit: u,
                id: id,
                channel: c,
                state: st,
            };
            Ok(e)
        },
        _ => Err(DecodeError),
    }
}

} // verus!
