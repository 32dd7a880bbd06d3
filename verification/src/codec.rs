//! The wire codec: encoding a schedule request as its JSON body and decoding
//! JSON bodies back into typed values. The codec implements a strict JSON
//! subset that covers exactly the wire shapes of the scheduling protocol:
//! objects with string keys, string values (with the common escapes and
//! `\u00XX` for control characters), and unsigned decimal integers.
//! Decoding rejects unknown keys, duplicate keys, missing keys and unknown
//! status tags instead of defaulting.

use vstd::prelude::*;

use crate::error::ClientError;
use crate::strutil::{chars_eq_str, chars_to_string, push_chars, str_chars, tail_vec};

verus! {

// ---------------------------------------------------------------------------
// Characters
// ---------------------------------------------------------------------------

/// Insignificant whitespace between JSON tokens.
pub open spec fn is_ws(c: char) -> bool {
    c == ' ' || c == '\t' || c == '\n' || c == '\r'
}

/// A decimal digit.
pub open spec fn is_digit(c: char) -> bool {
    '0' <= c && c <= '9'
}

/// The numeric value of a decimal digit.
pub open spec fn digit_val(c: char) -> nat {
    ((c as int) - ('0' as int)) as nat
}

/// A hexadecimal digit, either case.
pub open spec fn is_hex(c: char) -> bool {
    is_digit(c) || ('a' <= c && c <= 'f') || ('A' <= c && c <= 'F')
}

/// The numeric value of a hexadecimal digit.
pub open spec fn hex_val(c: char) -> nat {
    if is_digit(c) {
        digit_val(c)
    } else if 'a' <= c && c <= 'f' {
        ((c as int) - ('a' as int) + 10) as nat
    } else {
        ((c as int) - ('A' as int) + 10) as nat
    }
}

/// The lowercase character for a hexadecimal digit value.
pub open spec fn hex_char(d: nat) -> char {
    if d == 0 {
        '0'
    } else if d == 1 {
        '1'
    } else if d == 2 {
        '2'
    } else if d == 3 {
        '3'
    } else if d == 4 {
        '4'
    } else if d == 5 {
        '5'
    } else if d == 6 {
        '6'
    } else if d == 7 {
        '7'
    } else if d == 8 {
        '8'
    } else if d == 9 {
        '9'
    } else if d == 10 {
        'a'
    } else if d == 11 {
        'b'
    } else if d == 12 {
        'c'
    } else if d == 13 {
        'd'
    } else if d == 14 {
        'e'
    } else {
        'f'
    }
}

// ---------------------------------------------------------------------------
// Escaping
// ---------------------------------------------------------------------------

/// The JSON rendering of one string character: quotes and backslashes get a
/// two-character escape, the common control characters get their short forms,
/// any other control character is written as `\u00XX`, and everything else
/// stands for itself.
pub open spec fn esc_char(c: char) -> Seq<char> {
    if c == '"' {
        seq!['\\', '"']
    } else if c == '\\' {
        seq!['\\', '\\']
    } else if c == '\n' {
        seq!['\\', 'n']
    } else if c == '\r' {
        seq!['\\', 'r']
    } else if c == '\t' {
        seq!['\\', 't']
    } else if (c as u32) < 32 {
        seq!['\\', 'u', '0', '0', hex_char(((c as u32) / 16) as nat), hex_char(((c as u32) % 16) as nat)]
    } else {
        seq![c]
    }
}

/// The JSON rendering of a whole string content (without the quotes).
pub open spec fn json_escape(s: Seq<char>) -> Seq<char>
    decreases s.len(),
{
    if s.len() == 0 {
        Seq::empty()
    } else {
        esc_char(s[0]) + json_escape(s.skip(1))
    }
}

/// Escaping distributes over concatenation.
pub proof fn lemma_json_escape_append(a: Seq<char>, b: Seq<char>)
    ensures
        json_escape(a + b) == json_escape(a) + json_escape(b),
    decreases a.len(),
{
    if a.len() == 0 {
        assert(a + b =~= b);
        assert(json_escape(a) + json_escape(b) =~= json_escape(b));
    } else {
        lemma_json_escape_append(a.skip(1), b);
        assert((a + b).skip(1) =~= a.skip(1) + b);
        assert(esc_char(a[0]) + (json_escape(a.skip(1)) + json_escape(b)) =~= (esc_char(a[0])
            + json_escape(a.skip(1))) + json_escape(b));
    }
}

/// Renders one character into the output.
fn push_esc_char(out: &mut Vec<char>, c: char)
    ensures
        final(out)@ == old(out)@ + esc_char(c),
{
    if c == '"' {
        out.push('\\');
        out.push('"');
    } else if c == '\\' {
        out.push('\\');
        out.push('\\');
    } else if c == '\n' {
        out.push('\\');
        out.push('n');
    } else if c == '\r' {
        out.push('\\');
        out.push('r');
    } else if c == '\t' {
        out.push('\\');
        out.push('t');
    } else if (c as u32) < 32 {
        out.push('\\');
        out.push('u');
        out.push('0');
        out.push('0');
        let hi = (c as u32) / 16;
        let lo = (c as u32) % 16;
        out.push(hex_char_exec(hi));
        out.push(hex_char_exec(lo));
    } else {
        out.push(c);
    }
    proof {
        assert(out@ =~= old(out)@ + esc_char(c));
    }
}

/// The lowercase character for a hexadecimal digit value.
fn hex_char_exec(d: u32) -> (c: char)
    requires
        d < 16,
    ensures
        c == hex_char(d as nat),
{
    match d {
        0 => '0',
        1 => '1',
        2 => '2',
        3 => '3',
        4 => '4',
        5 => '5',
        6 => '6',
        7 => '7',
        8 => '8',
        9 => '9',
        10 => 'a',
        11 => 'b',
        12 => 'c',
        13 => 'd',
        14 => 'e',
        _ => 'f',
    }
}

/// Renders a whole string content into the output.
fn push_escaped(out: &mut Vec<char>, s: &str)
    ensures
        final(out)@ == old(out)@ + json_escape(s@),
{
    let n = s.unicode_len();
    let mut i: usize = 0;
    while i < n
        invariant
            n == s@.len(),
            i <= n,
            out@ == old(out)@ + json_escape(s@.take(i as int)),
        decreases n - i,
    {
        push_esc_char(out, s.get_char(i));
        proof {
            assert(s@.take(i as int).push(s@[i as int]) =~= s@.take(i + 1));
            lemma_json_escape_append(s@.take(i as int), seq![s@[i as int]]);
            assert(seq![s@[i as int]].skip(1) =~= Seq::<char>::empty());
            assert(json_escape(Seq::<char>::empty()) =~= Seq::<char>::empty());
            assert(esc_char(s@[i as int]) + Seq::<char>::empty() =~= esc_char(s@[i as int]));
            assert(json_escape(seq![s@[i as int]]) =~= esc_char(s@[i as int]));
            assert(s@.take(i as int) + seq![s@[i as int]] =~= s@.take(i + 1));
            assert(out@ =~= old(out)@ + json_escape(s@.take(i + 1)));
        }
        i = i + 1;
    }
    proof {
        assert(s@.take(n as int) =~= s@);
    }
}

// ---------------------------------------------------------------------------
// Specification-level parsing
//
// Each parser takes the remaining input and returns the parsed value together
// with the rest of the input, or `None` where the input does not match the
// grammar.
// ---------------------------------------------------------------------------

/// Drops insignificant leading whitespace.
pub open spec fn spec_skip_ws(s: Seq<char>) -> Seq<char>
    decreases s.len(),
{
    if s.len() > 0 && is_ws(s[0]) {
        spec_skip_ws(s.skip(1))
    } else {
        s
    }
}

pub proof fn lemma_skip_ws_len(s: Seq<char>)
    ensures
        spec_skip_ws(s).len() <= s.len(),
    decreases s.len(),
{
    if s.len() > 0 && is_ws(s[0]) {
        lemma_skip_ws_len(s.skip(1));
    }
}

/// The character for a short escape code, e.g. `n` stands for a line feed.
pub open spec fn unesc_short(e: char) -> char {
    if e == 'n' {
        '\n'
    } else if e == 'r' {
        '\r'
    } else if e == 't' {
        '\t'
    } else if e == 'b' {
        '\u{8}'
    } else if e == 'f' {
        '\u{c}'
    } else {
        e
    }
}

/// A short escape code: the escapes of one character each.
pub open spec fn is_short_escape(e: char) -> bool {
    e == '"' || e == '\\' || e == '/' || e == 'n' || e == 'r' || e == 't' || e == 'b' || e == 'f'
}

/// Parses the remainder of a JSON string after its opening quote: the decoded
/// content and the rest after the closing quote. Accepts the short escapes,
/// `\u00XX` (for code points below 256), and raw characters outside the
/// control range.
pub open spec fn spec_parse_string_body(s: Seq<char>) -> Option<(Seq<char>, Seq<char>)>
    decreases s.len(),
{
    if s.len() == 0 {
        None
    } else if s[0] == '"' {
        Some((Seq::empty(), s.skip(1)))
    } else if s[0] == '\\' {
        if s.len() < 2 {
            None
        } else if is_short_escape(s[1]) {
            match spec_parse_string_body(s.skip(2)) {
                None => None,
                Some((t, rest)) => Some((seq![unesc_short(s[1])] + t, rest)),
            }
        } else if s[1] == 'u' && s.len() >= 6 && is_hex(s[2]) && is_hex(s[3]) && is_hex(s[4])
            && is_hex(s[5]) && hex_val(s[2]) * 4096 + hex_val(s[3]) * 256 + hex_val(s[4]) * 16
            + hex_val(s[5]) < 256 {
            let w = hex_val(s[2]) * 4096 + hex_val(s[3]) * 256 + hex_val(s[4]) * 16 + hex_val(
                s[5],
            );
            match spec_parse_string_body(s.skip(6)) {
                None => None,
                Some((t, rest)) => Some((seq![(w as u8) as char] + t, rest)),
            }
        } else {
            None
        }
    } else if (s[0] as u32) >= 32 {
        match spec_parse_string_body(s.skip(1)) {
            None => None,
            Some((t, rest)) => Some((seq![s[0]] + t, rest)),
        }
    } else {
        None
    }
}

pub proof fn lemma_parse_string_body_len(s: Seq<char>)
    requires
        spec_parse_string_body(s) is Some,
    ensures
        (spec_parse_string_body(s)->0).1.len() < s.len(),
    decreases s.len(),
{
    if s[0] == '"' {
    } else if s[0] == '\\' {
        if is_short_escape(s[1]) {
            lemma_parse_string_body_len(s.skip(2));
        } else {
            lemma_parse_string_body_len(s.skip(6));
        }
    } else {
        lemma_parse_string_body_len(s.skip(1));
    }
}

/// Parses a JSON string, quotes included.
pub open spec fn spec_parse_string(s: Seq<char>) -> Option<(Seq<char>, Seq<char>)> {
    if s.len() > 0 && s[0] == '"' {
        spec_parse_string_body(s.skip(1))
    } else {
        None
    }
}

pub proof fn lemma_parse_string_len(s: Seq<char>)
    requires
        spec_parse_string(s) is Some,
    ensures
        (spec_parse_string(s)->0).1.len() < s.len(),
{
    lemma_parse_string_body_len(s.skip(1));
}

/// How many leading characters of the input are decimal digits.
pub open spec fn digit_prefix_len(s: Seq<char>) -> nat
    decreases s.len(),
{
    if s.len() > 0 && is_digit(s[0]) {
        1 + digit_prefix_len(s.skip(1))
    } else {
        0
    }
}

pub proof fn lemma_digit_prefix_len(s: Seq<char>)
    ensures
        digit_prefix_len(s) <= s.len(),
    decreases s.len(),
{
    if s.len() > 0 && is_digit(s[0]) {
        lemma_digit_prefix_len(s.skip(1));
    }
}

/// The value of a run of decimal digits.
pub open spec fn digits_val(s: Seq<char>) -> nat
    decreases s.len(),
{
    if s.len() == 0 {
        0
    } else {
        digits_val(s.take(s.len() - 1)) * 10 + digit_val(s[s.len() - 1])
    }
}

/// Parses an unsigned decimal integer: the maximal run of leading digits,
/// rejected when it is empty or its value does not fit in 64 bits.
pub open spec fn spec_parse_u64(s: Seq<char>) -> Option<(u64, Seq<char>)> {
    let k = digit_prefix_len(s);
    if k == 0 {
        None
    } else if digits_val(s.take(k as int)) > u64::MAX {
        None
    } else {
        Some((digits_val(s.take(k as int)) as u64, s.skip(k as int)))
    }
}

pub proof fn lemma_parse_u64_len(s: Seq<char>)
    requires
        spec_parse_u64(s) is Some,
    ensures
        (spec_parse_u64(s)->0).1.len() < s.len(),
{
    lemma_digit_prefix_len(s);
}

/// The JSON key of each wire field.
pub open spec fn key_secs() -> Seq<char> {
    seq!['s', 'e', 'c', 's']
}

pub open spec fn key_nanos() -> Seq<char> {
    seq!['n', 'a', 'n', 'o', 's']
}

pub open spec fn key_job_id() -> Seq<char> {
    seq!['j', 'o', 'b', '_', 'i', 'd']
}

pub open spec fn key_next_run() -> Seq<char> {
    seq!['n', 'e', 'x', 't', '_', 'r', 'u', 'n']
}

pub open spec fn key_status() -> Seq<char> {
    seq!['s', 't', 'a', 't', 'u', 's']
}

pub open spec fn key_cron() -> Seq<char> {
    seq!['c', 'r', 'o', 'n']
}

pub open spec fn key_command() -> Seq<char> {
    seq!['c', 'o', 'm', 'm', 'a', 'n', 'd']
}

/// Parses the members of a duration object after its opening brace and any
/// following whitespace: `"secs"` and `"nanos"`, in either order, each exactly
/// once, `nanos` below one billion. Returns the parsed pair and the rest after
/// the closing brace.
pub open spec fn spec_duration_members(
    s: Seq<char>,
    secs: Option<u64>,
    nanos: Option<u64>,
) -> Option<((u64, u32), Seq<char>)>
    decreases s.len(),
    via spec_duration_members_dec
{
    match spec_parse_string(s) {
        None => None,
        Some((key, r1)) => {
            let r2 = spec_skip_ws(r1);
            if r2.len() == 0 || r2[0] != ':' {
                None
            } else {
                let r3 = spec_skip_ws(r2.skip(1));
                match spec_parse_u64(r3) {
                    None => None,
                    Some((v, r4)) => {
                        let slots = if key == key_secs() && secs is None {
                            Some((Some(v), nanos))
                        } else if key == key_nanos() && nanos is None {
                            Some((secs, Some(v)))
                        } else {
                            None
                        };
                        match slots {
                            None => None,
                            Some((secs2, nanos2)) => {
                                let r5 = spec_skip_ws(r4);
                                if r5.len() == 0 {
                                    None
                                } else if r5[0] == ',' {
                                    spec_duration_members(spec_skip_ws(r5.skip(1)), secs2, nanos2)
                                } else if r5[0] == '}' {
                                    match (secs2, nanos2) {
                                        (Some(sv), Some(nv)) => if nv < 1000000000 {
                                            Some(((sv, nv as u32), r5.skip(1)))
                                        } else {
                                            None
                                        },
                                        _ => None,
                                    }
                                } else {
                                    None
                                }
                            },
                        }
                    },
                }
            }
        },
    }
}

#[via_fn]
proof fn spec_duration_members_dec(s: Seq<char>, secs: Option<u64>, nanos: Option<u64>) {
    lemma_members_step_len(s);
}

/// After one `key: number` member and a trailing comma, strictly less input
/// is left than the member started with.
proof fn lemma_members_step_len(s: Seq<char>)
    ensures
        (match spec_parse_string(s) {
            None => true,
            Some((key, r1)) => {
                let r2 = spec_skip_ws(r1);
                r2.len() <= r1.len() < s.len() && (r2.len() == 0 || {
                    let r3 = spec_skip_ws(r2.skip(1));
                    r3.len() < s.len() && (match spec_parse_u64(r3) {
                        None => true,
                        Some((v, r4)) => {
                            let r5 = spec_skip_ws(r4);
                            r5.len() <= r4.len() < r3.len() && (r5.len() == 0 || spec_skip_ws(
                                r5.skip(1),
                            ).len() < s.len())
                        },
                    })
                })
            },
        }),
{
    match spec_parse_string(s) {
        None => {},
        Some((key, r1)) => {
            lemma_parse_string_len(s);
            let r2 = spec_skip_ws(r1);
            lemma_skip_ws_len(r1);
            if r2.len() > 0 {
                let r3 = spec_skip_ws(r2.skip(1));
                lemma_skip_ws_len(r2.skip(1));
                match spec_parse_u64(r3) {
                    None => {},
                    Some((v, r4)) => {
                        lemma_parse_u64_len(r3);
                        let r5 = spec_skip_ws(r4);
                        lemma_skip_ws_len(r4);
                        if r5.len() > 0 {
                            lemma_skip_ws_len(r5.skip(1));
                        }
                    },
                }
            }
        },
    }
}

/// Parses a duration object `{"secs": u64, "nanos": u32}`.
pub open spec fn spec_parse_duration(s: Seq<char>) -> Option<((u64, u32), Seq<char>)> {
    if s.len() > 0 && s[0] == '{' {
        spec_duration_members(spec_skip_ws(s.skip(1)), None, None)
    } else {
        None
    }
}

pub proof fn lemma_duration_members_len(s: Seq<char>, secs: Option<u64>, nanos: Option<u64>)
    requires
        spec_duration_members(s, secs, nanos) is Some,
    ensures
        (spec_duration_members(s, secs, nanos)->0).1.len() < s.len(),
    decreases s.len(),
{
    lemma_members_step_len(s);
    match spec_parse_string(s) {
        None => {},
        Some((key, r1)) => {
            let r2 = spec_skip_ws(r1);
            if !(r2.len() == 0 || r2[0] != ':') {
                let r3 = spec_skip_ws(r2.skip(1));
                match spec_parse_u64(r3) {
                    None => {},
                    Some((v, r4)) => {
                        let r5 = spec_skip_ws(r4);
                        if r5.len() > 0 && r5[0] == ',' {
                            let slots = if key == key_secs() && secs is None {
                                Some((Some(v), nanos))
                            } else if key == key_nanos() && nanos is None {
                                Some((secs, Some(v)))
                            } else {
                                None
                            };
                            match slots {
                                None => {},
                                Some((secs2, nanos2)) => {
                                    lemma_duration_members_len(
                                        spec_skip_ws(r5.skip(1)),
                                        secs2,
                                        nanos2,
                                    );
                                },
                            }
                        }
                    },
                }
            }
        },
    }
}

pub proof fn lemma_parse_duration_len(s: Seq<char>)
    requires
        spec_parse_duration(s) is Some,
    ensures
        (spec_parse_duration(s)->0).1.len() < s.len(),
{
    lemma_skip_ws_len(s.skip(1));
    lemma_duration_members_len(spec_skip_ws(s.skip(1)), None, None);
}

// ---------------------------------------------------------------------------
// Wire types
// ---------------------------------------------------------------------------

/// The tagged status of a scheduling answer: `"s"` on the wire means
/// scheduled, `"f"` means failed; any other tag is a decode failure.
#[derive(Debug, Clone, Copy, PartialEq, Eq, Structural)]
pub enum JobScheduleStatus {
    Scheduled,
    Failed,
}

/// A span of time on the wire: whole seconds and the nanoseconds below one
/// billion that complete them.
#[derive(Debug, Clone, Copy, PartialEq, Eq, Structural)]
pub struct WireDuration {
    pub secs: u64,
    pub nanos: u32,
}

/// Request to schedule a job.
#[derive(Debug)]
pub struct JobScheduleRequest {
    /// Cron expression.
    pub cron: String,
    /// Command to execute.
    pub command: String,
}

/// Response after scheduling a job.
#[derive(Debug)]
pub struct JobScheduleResponse {
    /// Job ID issued by the server.
    pub job_id: String,
    /// Time until the next run.
    pub next_run: WireDuration,
    /// Whether the job was scheduled or refused.
    pub status: JobScheduleStatus,
}

/// Parses a status tag: the one-character string `s` or `f`.
pub open spec fn spec_parse_status(s: Seq<char>) -> Option<(JobScheduleStatus, Seq<char>)> {
    match spec_parse_string(s) {
        None => None,
        Some((t, rest)) => if t == seq!['s'] {
            Some((JobScheduleStatus::Scheduled, rest))
        } else if t == seq!['f'] {
            Some((JobScheduleStatus::Failed, rest))
        } else {
            None
        },
    }
}

pub proof fn lemma_parse_status_len(s: Seq<char>)
    requires
        spec_parse_status(s) is Some,
    ensures
        (spec_parse_status(s)->0).1.len() < s.len(),
{
    lemma_parse_string_len(s);
}

/// Parses the members of a schedule response object after its opening brace
/// and any following whitespace: `"job_id"` (a string), `"next_run"` (a
/// duration object) and `"status"` (a status tag), in any order, each exactly
/// once. Returns the fields and the rest after the closing brace.
pub open spec fn spec_response_members(
    s: Seq<char>,
    job_id: Option<Seq<char>>,
    dur: Option<(u64, u32)>,
    status: Option<JobScheduleStatus>,
) -> Option<((Seq<char>, (u64, u32), JobScheduleStatus), Seq<char>)>
    decreases s.len(),
    via spec_response_members_dec
{
    match spec_parse_string(s) {
        None => None,
        Some((key, r1)) => {
            let r2 = spec_skip_ws(r1);
            if r2.len() == 0 || r2[0] != ':' {
                None
            } else {
                let r3 = spec_skip_ws(r2.skip(1));
                let parsed: Option<((Option<Seq<char>>, Option<(u64, u32)>, Option<
                    JobScheduleStatus,
                >), Seq<char>)> = if key == key_job_id() && job_id is None {
                    match spec_parse_string(r3) {
                        None => None,
                        Some((val, r4)) => Some(((Some(val), dur, status), r4)),
                    }
                } else if key == key_next_run() && dur is None {
                    match spec_parse_duration(r3) {
                        None => None,
                        Some((val, r4)) => Some(((job_id, Some(val), status), r4)),
                    }
                } else if key == key_status() && status is None {
                    match spec_parse_status(r3) {
                        None => None,
                        Some((val, r4)) => Some(((job_id, dur, Some(val)), r4)),
                    }
                } else {
                    None
                };
                match parsed {
                    None => None,
                    Some(((job_id2, dur2, status2), r4)) => {
                        let r5 = spec_skip_ws(r4);
                        if r5.len() == 0 {
                            None
                        } else if r5[0] == ',' {
                            spec_response_members(
                                spec_skip_ws(r5.skip(1)),
                                job_id2,
                                dur2,
                                status2,
                            )
                        } else if r5[0] == '}' {
                            match (job_id2, dur2, status2) {
                                (Some(id), Some(d), Some(st)) => Some(((id, d, st), r5.skip(1))),
                                _ => None,
                            }
                        } else {
                            None
                        }
                    },
                }
            }
        },
    }
}

#[via_fn]
proof fn spec_response_members_dec(
    s: Seq<char>,
    job_id: Option<Seq<char>>,
    dur: Option<(u64, u32)>,
    status: Option<JobScheduleStatus>,
) {
    match spec_parse_string(s) {
        None => {},
        Some((key, r1)) => {
            lemma_parse_string_len(s);
            let r2 = spec_skip_ws(r1);
            lemma_skip_ws_len(r1);
            if !(r2.len() == 0 || r2[0] != ':') {
                let r3 = spec_skip_ws(r2.skip(1));
                lemma_skip_ws_len(r2.skip(1));
                if key == key_job_id() && job_id is None {
                    if spec_parse_string(r3) is Some {
                        lemma_parse_string_len(r3);
                        lemma_member_rest_step(s, r3, (spec_parse_string(r3)->0).1);
                    }
                } else if key == key_next_run() && dur is None {
                    if spec_parse_duration(r3) is Some {
                        lemma_parse_duration_len(r3);
                        lemma_member_rest_step(s, r3, (spec_parse_duration(r3)->0).1);
                    }
                } else if key == key_status() && status is None {
                    if spec_parse_status(r3) is Some {
                        lemma_parse_status_len(r3);
                        lemma_member_rest_step(s, r3, (spec_parse_status(r3)->0).1);
                    }
                }
            }
        },
    }
}

/// After a member's value there is strictly less input than the member list
/// started with, whether the list continues or closes.
proof fn lemma_member_rest_step(s: Seq<char>, r3: Seq<char>, r4: Seq<char>)
    requires
        r3.len() < s.len(),
        r4.len() < r3.len(),
    ensures
        spec_skip_ws(r4).len() < s.len(),
        spec_skip_ws(r4).len() == 0 || spec_skip_ws(spec_skip_ws(r4).skip(1)).len() < s.len(),
{
    lemma_skip_ws_len(r4);
    let r5 = spec_skip_ws(r4);
    if r5.len() > 0 {
        lemma_skip_ws_len(r5.skip(1));
    }
}

/// Parses the members of a schedule request object: `"cron"` and `"command"`,
/// both strings, in either order, each exactly once.
pub open spec fn spec_request_members(
    s: Seq<char>,
    cron: Option<Seq<char>>,
    command: Option<Seq<char>>,
) -> Option<((Seq<char>, Seq<char>), Seq<char>)>
    decreases s.len(),
    via spec_request_members_dec
{
    match spec_parse_string(s) {
        None => None,
        Some((key, r1)) => {
            let r2 = spec_skip_ws(r1);
            if r2.len() == 0 || r2[0] != ':' {
                None
            } else {
                let r3 = spec_skip_ws(r2.skip(1));
                match spec_parse_string(r3) {
                    None => None,
                    Some((val, r4)) => {
                        let slots = if key == key_cron() && cron is None {
                            Some((Some(val), command))
                        } else if key == key_command() && command is None {
                            Some((cron, Some(val)))
                        } else {
                            None
                        };
                        match slots {
                            None => None,
                            Some((cron2, command2)) => {
                                let r5 = spec_skip_ws(r4);
                                if r5.len() == 0 {
                                    None
                                } else if r5[0] == ',' {
                                    spec_request_members(spec_skip_ws(r5.skip(1)), cron2, command2)
                                } else if r5[0] == '}' {
                                    match (cron2, command2) {
                                        (Some(c), Some(m)) => Some(((c, m), r5.skip(1))),
                                        _ => None,
                                    }
                                } else {
                                    None
                                }
                            },
                        }
                    },
                }
            }
        },
    }
}

#[via_fn]
proof fn spec_request_members_dec(
    s: Seq<char>,
    cron: Option<Seq<char>>,
    command: Option<Seq<char>>,
) {
    match spec_parse_string(s) {
        None => {},
        Some((key, r1)) => {
            lemma_parse_string_len(s);
            let r2 = spec_skip_ws(r1);
            lemma_skip_ws_len(r1);
            if !(r2.len() == 0 || r2[0] != ':') {
                let r3 = spec_skip_ws(r2.skip(1));
                lemma_skip_ws_len(r2.skip(1));
                if spec_parse_string(r3) is Some {
                    lemma_parse_string_len(r3);
                    lemma_member_rest_step(s, r3, (spec_parse_string(r3)->0).1);
                }
            }
        },
    }
}

/// Decodes a whole schedule response body: one response object, possibly
/// surrounded by whitespace, with nothing after it.
pub open spec fn spec_decode_response(s: Seq<char>) -> Option<
    (Seq<char>, (u64, u32), JobScheduleStatus),
> {
    let s0 = spec_skip_ws(s);
    if s0.len() > 0 && s0[0] == '{' {
        match spec_response_members(spec_skip_ws(s0.skip(1)), None, None, None) {
            None => None,
            Some((fields, rest)) => if spec_skip_ws(rest).len() == 0 {
                Some(fields)
            } else {
                None
            },
        }
    } else {
        None
    }
}

/// Decodes a whole schedule request body: one request object, possibly
/// surrounded by whitespace, with nothing after it.
pub open spec fn spec_decode_request(s: Seq<char>) -> Option<(Seq<char>, Seq<char>)> {
    let s0 = spec_skip_ws(s);
    if s0.len() > 0 && s0[0] == '{' {
        match spec_request_members(spec_skip_ws(s0.skip(1)), None, None) {
            None => None,
            Some((fields, rest)) => if spec_skip_ws(rest).len() == 0 {
                Some(fields)
            } else {
                None
            },
        }
    } else {
        None
    }
}

/// The JSON body of a schedule request:
/// `{"cron": <escaped cron>, "command": <escaped command>}` without spaces.
pub open spec fn spec_schedule_request_json(cron: Seq<char>, command: Seq<char>) -> Seq<char> {
    seq!['{', '"', 'c', 'r', 'o', 'n', '"', ':', '"'] + json_escape(cron) + seq![
        '"',
        ',',
        '"',
        'c',
        'o',
        'm',
        'm',
        'a',
        'n',
        'd',
        '"',
        ':',
        '"',
    ] + json_escape(command) + seq!['"', '}']
}

// ---------------------------------------------------------------------------
// Executable parsing
// ---------------------------------------------------------------------------

/// A whitespace run of known extent localizes `spec_skip_ws`.
proof fn lemma_skip_ws_index(s: Seq<char>, i: int)
    requires
        0 <= i <= s.len(),
        forall|j: int| 0 <= j < i ==> is_ws(s[j]),
        i == s.len() || !is_ws(s[i]),
    ensures
        spec_skip_ws(s) == s.skip(i),
    decreases i,
{
    if i == 0 {
        assert(s.skip(0) =~= s);
    } else {
        lemma_skip_ws_index(s.skip(1), i - 1);
        assert(s.skip(1).skip(i - 1) =~= s.skip(i));
    }
}

/// Drops leading whitespace.
fn skip_ws_vec(v: &Vec<char>) -> (r: Vec<char>)
    ensures
        r@ == spec_skip_ws(v@),
{
    let mut i: usize = 0;
    while i < v.len() && (v[i] == ' ' || v[i] == '\t' || v[i] == '\n' || v[i] == '\r')
        invariant
            i <= v@.len(),
            forall|j: int| 0 <= j < i ==> is_ws(v@[j]),
        decreases v@.len() - i,
    {
        i = i + 1;
    }
    proof {
        lemma_skip_ws_index(v@, i as int);
    }
    tail_vec(v, i)
}

/// A digit run of known extent localizes `digit_prefix_len`.
proof fn lemma_digit_prefix_index(s: Seq<char>, i: int)
    requires
        0 <= i <= s.len(),
        forall|j: int| 0 <= j < i ==> is_digit(s[j]),
        i == s.len() || !is_digit(s[i]),
    ensures
        digit_prefix_len(s) == i,
    decreases i,
{
    if i == 0 {
    } else {
        lemma_digit_prefix_index(s.skip(1), i - 1);
    }
}

/// Parses an unsigned decimal integer.
fn parse_u64_vec(v: &Vec<char>) -> (r: Option<(u64, Vec<char>)>)
    ensures
        match spec_parse_u64(v@) {
            None => r is None,
            Some((val, rest)) => r is Some && (r->0).0 == val && (r->0).1@ == rest,
        },
{
    let mut i: usize = 0;
    let mut acc: u64 = 0;
    let mut over: bool = false;
    while i < v.len() && '0' <= v[i] && v[i] <= '9'
        invariant
            i <= v@.len(),
            forall|j: int| 0 <= j < i ==> is_digit(v@[j]),
            !over ==> acc == digits_val(v@.take(i as int)),
            over ==> digits_val(v@.take(i as int)) > u64::MAX,
        decreases v@.len() - i,
    {
        let d: u32 = (v[i] as u32) - ('0' as u32);
        proof {
            assert(v@.take(i + 1).take(i as int) =~= v@.take(i as int));
            assert(digits_val(v@.take(i + 1)) == digits_val(v@.take(i as int)) * 10 + digit_val(
                v@[i as int],
            ));
        }
        if !over {
            let wide: u128 = (acc as u128) * 10 + (d as u128);
            if wide > u64::MAX as u128 {
                over = true;
            } else {
                acc = wide as u64;
            }
        } else {
            proof {
                let prev = digits_val(v@.take(i as int));
                assert(prev * 10 + digit_val(v@[i as int]) >= prev);
            }
        }
        i = i + 1;
    }
    proof {
        lemma_digit_prefix_index(v@, i as int);
    }
    if i == 0 {
        None
    } else if over {
        None
    } else {
        Some((acc, tail_vec(v, i)))
    }
}

/// The character for a short escape code.
fn unesc_short_exec(e: char) -> (c: char)
    ensures
        c == unesc_short(e),
{
    match e {
        'n' => '\n',
        'r' => '\r',
        't' => '\t',
        'b' => '\u{8}',
        'f' => '\u{c}',
        _ => e,
    }
}

/// The value of a hexadecimal digit.
fn hex_val_exec(c: char) -> (d: u32)
    requires
        is_hex(c),
    ensures
        d == hex_val(c),
        d < 16,
{
    if '0' <= c && c <= '9' {
        (c as u32) - ('0' as u32)
    } else if 'a' <= c && c <= 'f' {
        (c as u32) - ('a' as u32) + 10
    } else {
        (c as u32) - ('A' as u32) + 10
    }
}

/// Parses the remainder of a JSON string after its opening quote.
fn parse_string_body_vec(v: &Vec<char>) -> (r: Option<(Vec<char>, Vec<char>)>)
    ensures
        match spec_parse_string_body(v@) {
            None => r is None,
            Some((t, rest)) => r is Some && (r->0).0@ == t && (r->0).1@ == rest,
        },
    decreases v@.len(),
{
    if v.len() == 0 {
        return None;
    }
    let c = v[0];
    if c == '"' {
        Some((Vec::new(), tail_vec(v, 1)))
    } else if c == '\\' {
        if v.len() < 2 {
            return None;
        }
        let e = v[1];
        if e == '"' || e == '\\' || e == '/' || e == 'n' || e == 'r' || e == 't' || e == 'b' || e
            == 'f' {
            let u = unesc_short_exec(e);
            let t2 = tail_vec(v, 2);
            match parse_string_body_vec(&t2) {
                None => None,
                Some((t, rest)) => {
                    let mut out: Vec<char> = Vec::new();
                    out.push(u);
                    push_chars(&mut out, &t);
                    proof {
                        assert(out@ =~= seq![unesc_short(e)] + t@);
                    }
                    Some((out, rest))
                },
            }
        } else if e == 'u' && v.len() >= 6 {
            let h2 = v[2];
            let h3 = v[3];
            let h4 = v[4];
            let h5 = v[5];
            if !(is_hex_exec(h2) && is_hex_exec(h3) && is_hex_exec(h4) && is_hex_exec(h5)) {
                return None;
            }
            let w: u32 = hex_val_exec(h2) * 4096 + hex_val_exec(h3) * 256 + hex_val_exec(h4) * 16
                + hex_val_exec(h5);
            if w >= 256 {
                return None;
            }
            let t6 = tail_vec(v, 6);
            match parse_string_body_vec(&t6) {
                None => None,
                Some((t, rest)) => {
                    let mut out: Vec<char> = Vec::new();
                    out.push((w as u8) as char);
                    push_chars(&mut out, &t);
                    proof {
                        assert(out@ =~= seq![((w as nat) as u8) as char] + t@);
                    }
                    Some((out, rest))
                },
            }
        } else {
            None
        }
    } else if (c as u32) >= 32 {
        let t1 = tail_vec(v, 1);
        match parse_string_body_vec(&t1) {
            None => None,
            Some((t, rest)) => {
                let mut out: Vec<char> = Vec::new();
                out.push(c);
                push_chars(&mut out, &t);
                proof {
                    assert(out@ =~= seq![c] + t@);
                }
                Some((out, rest))
            },
        }
    } else {
        None
    }
}

/// A hexadecimal digit, either case.
fn is_hex_exec(c: char) -> (r: bool)
    ensures
        r == is_hex(c),
{
    ('0' <= c && c <= '9') || ('a' <= c && c <= 'f') || ('A' <= c && c <= 'F')
}

/// Parses a JSON string, quotes included.
fn parse_string_vec(v: &Vec<char>) -> (r: Option<(Vec<char>, Vec<char>)>)
    ensures
        match spec_parse_string(v@) {
            None => r is None,
            Some((t, rest)) => r is Some && (r->0).0@ == t && (r->0).1@ == rest,
        },
{
    if v.len() > 0 && v[0] == '"' {
        let t = tail_vec(v, 1);
        parse_string_body_vec(&t)
    } else {
        None
    }
}

/// Parses a status tag.
fn parse_status_vec(v: &Vec<char>) -> (r: Option<(JobScheduleStatus, Vec<char>)>)
    ensures
        match spec_parse_status(v@) {
            None => r is None,
            Some((st, rest)) => r is Some && (r->0).0 == st && (r->0).1@ == rest,
        },
{
    match parse_string_vec(v) {
        None => None,
        Some((t, rest)) => {
            proof {
                reveal_strlit("s");
                reveal_strlit("f");
                assert("s"@ =~= seq!['s']);
                assert("f"@ =~= seq!['f']);
            }
            if chars_eq_str(&t, "s") {
                Some((JobScheduleStatus::Scheduled, rest))
            } else if chars_eq_str(&t, "f") {
                Some((JobScheduleStatus::Failed, rest))
            } else {
                None
            }
        },
    }
}

/// Parses the members of a duration object.
fn duration_members_vec(v: &Vec<char>, secs: Option<u64>, nanos: Option<u64>) -> (r: Option<
    ((u64, u32), Vec<char>),
>)
    ensures
        match spec_duration_members(v@, secs, nanos) {
            None => r is None,
            Some((d, rest)) => r is Some && (r->0).0 == d && (r->0).1@ == rest,
        },
    decreases v@.len(),
{
    match parse_string_vec(v) {
        None => None,
        Some((key, r1)) => {
            let r2 = skip_ws_vec(&r1);
            if r2.len() == 0 {
                return None;
            }
            if r2[0] != ':' {
                return None;
            }
            let r2t = tail_vec(&r2, 1);
            let r3 = skip_ws_vec(&r2t);
            match parse_u64_vec(&r3) {
                None => None,
                Some((val, r4)) => {
                    proof {
                        reveal_strlit("secs");
                        reveal_strlit("nanos");
                        assert("secs"@ =~= key_secs());
                        assert("nanos"@ =~= key_nanos());
                    }
                    let is_secs = chars_eq_str(&key, "secs");
                    let is_nanos = chars_eq_str(&key, "nanos");
                    let secs2: Option<u64>;
                    let nanos2: Option<u64>;
                    if is_secs && secs.is_none() {
                        secs2 = Some(val);
                        nanos2 = nanos;
                    } else if is_nanos && nanos.is_none() {
                        secs2 = secs;
                        nanos2 = Some(val);
                    } else {
                        return None;
                    }
                    let r5 = skip_ws_vec(&r4);
                    if r5.len() == 0 {
                        None
                    } else if r5[0] == ',' {
                        let r5t = tail_vec(&r5, 1);
                        let next = skip_ws_vec(&r5t);
                        proof {
                            lemma_parse_string_len(v@);
                            lemma_skip_ws_len(r1@);
                            lemma_skip_ws_len(r2t@);
                            lemma_parse_u64_len(r3@);
                            lemma_skip_ws_len(r4@);
                            lemma_skip_ws_len(r5t@);
                        }
                        duration_members_vec(&next, secs2, nanos2)
                    } else if r5[0] == '}' {
                        match (secs2, nanos2) {
                            (Some(sv), Some(nv)) => {
                                if nv < 1000000000 {
                                    Some(((sv, nv as u32), tail_vec(&r5, 1)))
                                } else {
                                    None
                                }
                            },
                            _ => None,
                        }
                    } else {
                        None
                    }
                },
            }
        },
    }
}

/// Parses a duration object.
fn parse_duration_vec(v: &Vec<char>) -> (r: Option<((u64, u32), Vec<char>)>)
    ensures
        match spec_parse_duration(v@) {
            None => r is None,
            Some((d, rest)) => r is Some && (r->0).0 == d && (r->0).1@ == rest,
        },
{
    if v.len() > 0 && v[0] == '{' {
        let t = tail_vec(v, 1);
        let s1 = skip_ws_vec(&t);
        duration_members_vec(&s1, None, None)
    } else {
        None
    }
}

/// The sequences a vector of optional characters stands for.
pub open spec fn opt_chars_view(o: Option<Vec<char>>) -> Option<Seq<char>> {
    match o {
        None => None,
        Some(x) => Some(x@),
    }
}

/// Parses the members of a schedule response object.
fn response_members_vec(
    v: &Vec<char>,
    job_id: Option<Vec<char>>,
    dur: Option<(u64, u32)>,
    status: Option<JobScheduleStatus>,
) -> (r: Option<((Vec<char>, (u64, u32), JobScheduleStatus), Vec<char>)>)
    ensures
        match spec_response_members(v@, opt_chars_view(job_id), dur, status) {
            None => r is None,
            Some((fields, rest)) => r is Some && (r->0).0.0@ == fields.0 && (r->0).0.1 == fields.1
                && (r->0).0.2 == fields.2 && (r->0).1@ == rest,
        },
    decreases v@.len(),
{
    match parse_string_vec(v) {
        None => None,
        Some((key, r1)) => {
            let r2 = skip_ws_vec(&r1);
            if r2.len() == 0 {
                return None;
            }
            if r2[0] != ':' {
                return None;
            }
            let r2t = tail_vec(&r2, 1);
            let r3 = skip_ws_vec(&r2t);
            proof {
                reveal_strlit("job_id");
                reveal_strlit("next_run");
                reveal_strlit("status");
                assert("job_id"@ =~= key_job_id());
                assert("next_run"@ =~= key_next_run());
                assert("status"@ =~= key_status());
            }
            let job_id2: Option<Vec<char>>;
            let dur2: Option<(u64, u32)>;
            let status2: Option<JobScheduleStatus>;
            let r4: Vec<char>;
            if chars_eq_str(&key, "job_id") && job_id.is_none() {
                match parse_string_vec(&r3) {
                    None => {
                        return None;
                    },
                    Some((val, rest)) => {
                        job_id2 = Some(val);
                        dur2 = dur;
                        status2 = status;
                        r4 = rest;
                    },
                }
            } else if chars_eq_str(&key, "next_run") && dur.is_none() {
                match parse_duration_vec(&r3) {
                    None => {
                        return None;
                    },
                    Some((val, rest)) => {
                        job_id2 = job_id;
                        dur2 = Some(val);
                        status2 = status;
                        r4 = rest;
                    },
                }
            } else if chars_eq_str(&key, "status") && status.is_none() {
                match parse_status_vec(&r3) {
                    None => {
                        return None;
                    },
                    Some((val, rest)) => {
                        job_id2 = job_id;
                        dur2 = dur;
                        status2 = Some(val);
                        r4 = rest;
                    },
                }
            } else {
                return None;
            }
            let r5 = skip_ws_vec(&r4);
            if r5.len() == 0 {
                None
            } else if r5[0] == ',' {
                let r5t = tail_vec(&r5, 1);
                let next = skip_ws_vec(&r5t);
                proof {
                    lemma_parse_string_len(v@);
                    lemma_skip_ws_len(r1@);
                    lemma_skip_ws_len(r2t@);
                    if spec_parse_string(r3@) is Some {
                        lemma_parse_string_len(r3@);
                    }
                    if spec_parse_duration(r3@) is Some {
                        lemma_parse_duration_len(r3@);
                    }
                    if spec_parse_status(r3@) is Some {
                        lemma_parse_status_len(r3@);
                    }
                    lemma_skip_ws_len(r4@);
                    lemma_skip_ws_len(r5t@);
                }
                response_members_vec(&next, job_id2, dur2, status2)
            } else if r5[0] == '}' {
                match (job_id2, dur2, status2) {
                    (Some(id), Some(d), Some(st)) => Some(((id, d, st), tail_vec(&r5, 1))),
                    _ => None,
                }
            } else {
                None
            }
        },
    }
}

/// Parses the members of a schedule request object.
fn request_members_vec(v: &Vec<char>, cron: Option<Vec<char>>, command: Option<Vec<char>>) -> (r:
    Option<((Vec<char>, Vec<char>), Vec<char>)>)
    ensures
        match spec_request_members(v@, opt_chars_view(cron), opt_chars_view(command)) {
            None => r is None,
            Some((fields, rest)) => r is Some && (r->0).0.0@ == fields.0 && (r->0).0.1@ == fields.1
                && (r->0).1@ == rest,
        },
    decreases v@.len(),
{
    match parse_string_vec(v) {
        None => None,
        Some((key, r1)) => {
            let r2 = skip_ws_vec(&r1);
            if r2.len() == 0 {
                return None;
            }
            if r2[0] != ':' {
                return None;
            }
            let r2t = tail_vec(&r2, 1);
            let r3 = skip_ws_vec(&r2t);
            match parse_string_vec(&r3) {
                None => None,
                Some((val, r4)) => {
                    proof {
                        reveal_strlit("cron");
                        reveal_strlit("command");
                        assert("cron"@ =~= key_cron());
                        assert("command"@ =~= key_command());
                    }
                    let cron2: Option<Vec<char>>;
                    let command2: Option<Vec<char>>;
                    if chars_eq_str(&key, "cron") && cron.is_none() {
                        cron2 = Some(val);
                        command2 = command;
                    } else if chars_eq_str(&key, "command") && command.is_none() {
                        cron2 = cron;
                        command2 = Some(val);
                    } else {
                        return None;
                    }
                    let r5 = skip_ws_vec(&r4);
                    if r5.len() == 0 {
                        None
                    } else if r5[0] == ',' {
                        let r5t = tail_vec(&r5, 1);
                        let next = skip_ws_vec(&r5t);
                        proof {
                            lemma_parse_string_len(v@);
                            lemma_skip_ws_len(r1@);
                            lemma_skip_ws_len(r2t@);
                            lemma_parse_string_len(r3@);
                            lemma_skip_ws_len(r4@);
                            lemma_skip_ws_len(r5t@);
                        }
                        request_members_vec(&next, cron2, command2)
                    } else if r5[0] == '}' {
                        match (cron2, command2) {
                            (Some(c), Some(m)) => Some(((c, m), tail_vec(&r5, 1))),
                            _ => None,
                        }
                    } else {
                        None
                    }
                },
            }
        },
    }
}

// ---------------------------------------------------------------------------
// Public codec interface
// ---------------------------------------------------------------------------

impl JobScheduleRequest {
    /// Builds a schedule request from its two fields.
    pub fn new(cron: &str, command: &str) -> (r: Self)
        ensures
            r.cron@ == cron@,
            r.command@ == command@,
    {
        Self { cron: cron.to_owned(), command: command.to_owned() }
    }

    /// Encodes the request as its JSON wire body.
    pub fn json(&self) -> (r: String)
        ensures
            r@ == spec_schedule_request_json(self.cron@, self.command@),
    {
        let mut out: Vec<char> = Vec::new();
        out.push('{');
        out.push('"');
        out.push('c');
        out.push('r');
        out.push('o');
        out.push('n');
        out.push('"');
        out.push(':');
        out.push('"');
        proof {
            assert(out@ =~= seq!['{', '"', 'c', 'r', 'o', 'n', '"', ':', '"']);
        }
        push_escaped(&mut out, self.cron.as_str());
        let ghost mid0 = out@;
        out.push('"');
        out.push(',');
        out.push('"');
        out.push('c');
        out.push('o');
        out.push('m');
        out.push('m');
        out.push('a');
        out.push('n');
        out.push('d');
        out.push('"');
        out.push(':');
        out.push('"');
        proof {
            assert(out@ =~= mid0 + seq![
                '"',
                ',',
                '"',
                'c',
                'o',
                'm',
                'm',
                'a',
                'n',
                'd',
                '"',
                ':',
                '"',
            ]);
        }
        push_escaped(&mut out, self.command.as_str());
        out.push('"');
        out.push('}');
        proof {
            assert(out@ =~= spec_schedule_request_json(self.cron@, self.command@));
        }
        chars_to_string(&out)
    }
}

impl JobScheduleResponse {
    /// Decodes a schedule response from a raw HTTP response body. Succeeds
    /// exactly on bodies the wire grammar accepts, and fails with a
    /// serialization error on every other body.
    pub fn from_str(body: &str) -> (r: Result<JobScheduleResponse, ClientError>)
        ensures
            match spec_decode_response(body@) {
                Some((id, d, st)) => r is Ok && (r->Ok_0).job_id@ == id && (r->Ok_0).next_run.secs
                    == d.0 && (r->Ok_0).next_run.nanos == d.1 && (r->Ok_0).status == st,
                None => r is Err && ((r->Err_0) matches ClientError::Serde(m) && m@
                    == "invalid schedule response"@),
            },
    {
        let chars = str_chars(body);
        let s0 = skip_ws_vec(&chars);
        if s0.len() > 0 && s0[0] == '{' {
            let s0t = tail_vec(&s0, 1);
            let s1 = skip_ws_vec(&s0t);
            match response_members_vec(&s1, None, None, None) {
                Some((fields, rest)) => {
                    let trail = skip_ws_vec(&rest);
                    if trail.len() == 0 {
                        let (id, d, st) = fields;
                        Ok(
                            JobScheduleResponse {
                                job_id: chars_to_string(&id),
                                next_run: WireDuration { secs: d.0, nanos: d.1 },
                                status: st,
                            },
                        )
                    } else {
                        Err(ClientError::Serde("invalid schedule response".to_owned()))
                    }
                },
                None => Err(ClientError::Serde("invalid schedule response".to_owned())),
            }
        } else {
            Err(ClientError::Serde("invalid schedule response".to_owned()))
        }
    }
}

/// Decodes a schedule request from a wire body. Succeeds exactly on bodies
/// the wire grammar accepts, and fails with a serialization error otherwise.
pub fn decode_schedule_request(body: &str) -> (r: Result<JobScheduleRequest, ClientError>)
    ensures
        match spec_decode_request(body@) {
            Some((c, m)) => r is Ok && (r->Ok_0).cron@ == c && (r->Ok_0).command@ == m,
            None => r is Err && ((r->Err_0) matches ClientError::Serde(msg) && msg@
                == "invalid schedule request"@),
        },
{
    let chars = str_chars(body);
    let s0 = skip_ws_vec(&chars);
    if s0.len() > 0 && s0[0] == '{' {
        let s0t = tail_vec(&s0, 1);
        let s1 = skip_ws_vec(&s0t);
        match request_members_vec(&s1, None, None) {
            Some((fields, rest)) => {
                let trail = skip_ws_vec(&rest);
                if trail.len() == 0 {
                    Ok(
                        JobScheduleRequest {
                            cron: chars_to_string(&fields.0),
                            command: chars_to_string(&fields.1),
                        },
                    )
                } else {
                    Err(ClientError::Serde("invalid schedule request".to_owned()))
                }
            },
            None => Err(ClientError::Serde("invalid schedule request".to_owned())),
        }
    } else {
        Err(ClientError::Serde("invalid schedule request".to_owned()))
    }
}

// ---------------------------------------------------------------------------
// The encode/decode round trip
// ---------------------------------------------------------------------------

/// Hexadecimal digits survive the value/character round trip.
proof fn lemma_hex_round_trip(d: nat)
    requires
        d < 16,
    ensures
        is_hex(hex_char(d)),
        hex_val(hex_char(d)) == d,
{
}

/// A character that needs no escaping: neither quote, backslash nor control.
pub open spec fn is_plain_char(c: char) -> bool {
    c != '"' && c != '\\' && (c as u32) >= 32
}

/// Escaping leaves a string of plain characters unchanged.
pub proof fn lemma_escape_plain_id(s: Seq<char>)
    requires
        forall|i: int| 0 <= i < s.len() ==> is_plain_char(s[i]),
    ensures
        json_escape(s) == s,
    decreases s.len(),
{
    if s.len() == 0 {
        assert(json_escape(s) =~= s);
    } else {
        lemma_escape_plain_id(s.skip(1));
        assert(is_plain_char(s[0]));
        assert(esc_char(s[0]) =~= seq![s[0]]);
        assert(seq![s[0]] + s.skip(1) =~= s);
    }
}

/// Parsing a string body undoes escaping: the escaped content followed by the
/// closing quote and anything after parses back to the content, leaving
/// exactly what followed.
#[verifier::rlimit(50)]
pub proof fn lemma_parse_body_of_escaped(s: Seq<char>, rest: Seq<char>)
    ensures
        spec_parse_string_body(json_escape(s) + seq!['"'] + rest) == Some((s, rest)),
    decreases s.len(),
{
    let input = json_escape(s) + seq!['"'] + rest;
    if s.len() == 0 {
        assert(input =~= seq!['"'] + rest);
        assert(input[0] == '"');
        assert(input.skip(1) =~= rest);
    } else {
        lemma_parse_body_of_escaped(s.skip(1), rest);
        let tail_input = json_escape(s.skip(1)) + seq!['"'] + rest;
        let c = s[0];
        assert(json_escape(s) == esc_char(c) + json_escape(s.skip(1)));
        assert(input =~= esc_char(c) + tail_input);
        if c == '"' {
            assert(input[0] == '\\' && input[1] == '"');
            assert(input.skip(2) =~= tail_input);
            assert(seq![unesc_short('"')] + s.skip(1) =~= s);
        } else if c == '\\' {
            assert(input[0] == '\\' && input[1] == '\\');
            assert(input.skip(2) =~= tail_input);
            assert(seq![unesc_short('\\')] + s.skip(1) =~= s);
        } else if c == '\n' {
            assert(input[0] == '\\' && input[1] == 'n');
            assert(input.skip(2) =~= tail_input);
            assert(seq![unesc_short('n')] + s.skip(1) =~= s);
        } else if c == '\r' {
            assert(input[0] == '\\' && input[1] == 'r');
            assert(input.skip(2) =~= tail_input);
            assert(seq![unesc_short('r')] + s.skip(1) =~= s);
        } else if c == '\t' {
            assert(input[0] == '\\' && input[1] == 't');
            assert(input.skip(2) =~= tail_input);
            assert(seq![unesc_short('t')] + s.skip(1) =~= s);
        } else if (c as u32) < 32 {
            let hi = ((c as u32) / 16) as nat;
            let lo = ((c as u32) % 16) as nat;
            lemma_hex_round_trip(hi);
            lemma_hex_round_trip(lo);
            assert(input[0] == '\\' && input[1] == 'u');
            assert(input[2] == '0' && input[3] == '0');
            assert(input[4] == hex_char(hi) && input[5] == hex_char(lo));
            assert(input.len() >= 6);
            assert(hex_val('0') == 0);
            let w = hex_val(input[2]) * 4096 + hex_val(input[3]) * 256 + hex_val(input[4]) * 16
                + hex_val(input[5]);
            assert(w == hi * 16 + lo);
            assert(w == (c as u32) as nat);
            assert(w < 256);
            assert(input.skip(6) =~= tail_input);
            assert(((w as u8) as char) == c) by {
                vstd::utf8::char_u32_cast(c, c as u32);
                assert(((w as u8) as u32) == c as u32);
            }
            assert(seq![(w as u8) as char] + s.skip(1) =~= s);
        } else {
            assert(input[0] == c);
            assert(is_plain_char(c));
            assert(input.skip(1) =~= tail_input);
            assert(seq![c] + s.skip(1) =~= s);
        }
    }
}

/// A quoted escaped string parses back to its content.
pub proof fn lemma_parse_quoted_escaped(s: Seq<char>, after: Seq<char>)
    ensures
        spec_parse_string(seq!['"'] + json_escape(s) + seq!['"'] + after) == Some((s, after)),
{
    let input = seq!['"'] + json_escape(s) + seq!['"'] + after;
    assert(input[0] == '"');
    lemma_parse_body_of_escaped(s, after);
    assert(input.skip(1) =~= json_escape(s) + seq!['"'] + after);
}

/// A quoted plain key parses back to itself.
proof fn lemma_parse_quoted_plain(key: Seq<char>, after: Seq<char>)
    requires
        forall|i: int| 0 <= i < key.len() ==> is_plain_char(key[i]),
    ensures
        spec_parse_string(seq!['"'] + key + seq!['"'] + after) == Some((key, after)),
{
    lemma_escape_plain_id(key);
    lemma_parse_quoted_escaped(key, after);
}

/// Law: the encode/decode round trip. The JSON body encoded from a cron
/// expression and a command line decodes back to exactly that cron expression
/// and command line.
pub proof fn lemma_schedule_request_round_trip(cron: Seq<char>, command: Seq<char>)
    ensures
        spec_decode_request(spec_schedule_request_json(cron, command)) == Some((cron, command)),
{
    let body = spec_schedule_request_json(cron, command);
    let ec = json_escape(cron);
    let em = json_escape(command);
    // The input after the opening brace: the first member, then the rest.
    let after_key1 = seq![':', '"'] + ec + seq![
        '"',
        ',',
        '"',
        'c',
        'o',
        'm',
        'm',
        'a',
        'n',
        'd',
        '"',
        ':',
        '"',
    ] + em + seq!['"', '}'];
    let s1 = seq!['"'] + key_cron() + seq!['"'] + after_key1;
    assert(body[0] == '{');
    assert(body.skip(1) =~= s1);
    assert(spec_skip_ws(body) == body);
    assert(spec_skip_ws(body.skip(1)) == body.skip(1)) by {
        assert(body.skip(1)[0] == '"');
    }
    // First member: key "cron", then its string value.
    assert(forall|i: int| 0 <= i < key_cron().len() ==> is_plain_char(key_cron()[i]));
    lemma_parse_quoted_plain(key_cron(), after_key1);
    assert(spec_parse_string(s1) == Some((key_cron(), after_key1)));
    assert(spec_skip_ws(after_key1) == after_key1) by {
        assert(after_key1[0] == ':');
    }
    let after_colon1 = seq!['"'] + ec + seq![
        '"',
        ',',
        '"',
        'c',
        'o',
        'm',
        'm',
        'a',
        'n',
        'd',
        '"',
        ':',
        '"',
    ] + em + seq!['"', '}'];
    assert(after_key1.skip(1) =~= after_colon1);
    assert(spec_skip_ws(after_colon1) == after_colon1) by {
        assert(after_colon1[0] == '"');
    }
    let after_val1 = seq![',', '"', 'c', 'o', 'm', 'm', 'a', 'n', 'd', '"', ':', '"'] + em + seq![
        '"',
        '}',
    ];
    assert(seq!['"'] + ec + seq!['"'] + after_val1 =~= after_colon1);
    lemma_parse_quoted_escaped(cron, after_val1);
    assert(spec_parse_string(after_colon1) == Some((cron, after_val1)));
    assert(key_cron() != key_command());
    assert(spec_skip_ws(after_val1) == after_val1) by {
        assert(after_val1[0] == ',');
    }
    // Second member: key "command", then its string value.
    let after_key2 = seq![':', '"'] + em + seq!['"', '}'];
    let s2 = seq!['"'] + key_command() + seq!['"'] + after_key2;
    assert(after_val1.skip(1) =~= s2);
    assert(spec_skip_ws(s2) == s2) by {
        assert(s2[0] == '"');
    }
    assert(forall|i: int| 0 <= i < key_command().len() ==> is_plain_char(key_command()[i]));
    lemma_parse_quoted_plain(key_command(), after_key2);
    assert(spec_parse_string(s2) == Some((key_command(), after_key2)));
    assert(spec_skip_ws(after_key2) == after_key2) by {
        assert(after_key2[0] == ':');
    }
    let after_colon2 = seq!['"'] + em + seq!['"', '}'];
    assert(after_key2.skip(1) =~= after_colon2);
    assert(spec_skip_ws(after_colon2) == after_colon2) by {
        assert(after_colon2[0] == '"');
    }
    let after_val2 = seq!['}'];
    assert(seq!['"'] + em + seq!['"'] + after_val2 =~= after_colon2);
    lemma_parse_quoted_escaped(command, after_val2);
    assert(spec_parse_string(after_colon2) == Some((command, after_val2)));
    assert(spec_skip_ws(after_val2) == after_val2);
    assert(after_val2[0] == '}');
    assert(after_val2.skip(1) =~= Seq::<char>::empty());
    // Assemble the member steps.
    assert(spec_request_members(s2, Some(cron), None) == Some(
        ((cron, command), Seq::<char>::empty()),
    ));
    assert(spec_skip_ws(after_val1.skip(1)) == s2);
    assert(spec_request_members(s1, None, None) == Some(((cron, command), Seq::<char>::empty())));
    assert(spec_skip_ws(Seq::<char>::empty()).len() == 0);
}

} // verus!
