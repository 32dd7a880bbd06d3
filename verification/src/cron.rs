//! Client-side validation of six-field cron expressions (seconds, minutes,
//! hours, day of month, month, day of week), checked before any network call.
//!
//! The accepted grammar: fields are separated by runs of spaces or tabs; each
//! field is a comma-separated list of items; an item is `*`, a one- or
//! two-digit number, or a range `a-b` of such numbers, optionally followed by
//! `/step` with a positive one- or two-digit step. Numbers must lie within the
//! field's range: 0-59 for seconds and minutes, 0-23 for hours, 1-31 for the
//! day of month, 1-12 for the month, and 0-6 for the day of week. The check is
//! advisory: the server's parser stays authoritative.

use vstd::prelude::*;

use crate::codec::{digit_val, is_digit};
use crate::strutil::{tail_vec, take_vec};

verus! {

/// A separator between cron fields.
pub open spec fn is_field_sep(c: char) -> bool {
    c == ' ' || c == '\t'
}

/// The longest separator-free prefix of the input.
pub open spec fn take_field(s: Seq<char>) -> Seq<char>
    decreases s.len(),
{
    if s.len() == 0 || is_field_sep(s[0]) {
        Seq::empty()
    } else {
        seq![s[0]] + take_field(s.skip(1))
    }
}

pub proof fn lemma_take_field_len(s: Seq<char>)
    ensures
        take_field(s).len() <= s.len(),
        s.len() > 0 && !is_field_sep(s[0]) ==> take_field(s).len() >= 1,
    decreases s.len(),
{
    if s.len() > 0 && !is_field_sep(s[0]) {
        lemma_take_field_len(s.skip(1));
    }
}

/// A separator-free run of known extent localizes `take_field`.
proof fn lemma_take_field_index(s: Seq<char>, i: int)
    requires
        0 <= i <= s.len(),
        forall|j: int| 0 <= j < i ==> !is_field_sep(s[j]),
        i == s.len() || is_field_sep(s[i]),
    ensures
        take_field(s) == s.take(i),
    decreases i,
{
    if i == 0 {
        assert(s.take(0) =~= Seq::<char>::empty());
    } else {
        lemma_take_field_index(s.skip(1), i - 1);
        assert(seq![s[0]] + s.skip(1).take(i - 1) =~= s.take(i));
    }
}

/// The whitespace-separated fields of the input, in order.
pub open spec fn split_fields(s: Seq<char>) -> Seq<Seq<char>>
    decreases s.len(),
    via split_fields_dec
{
    if s.len() == 0 {
        Seq::empty()
    } else if is_field_sep(s[0]) {
        split_fields(s.skip(1))
    } else {
        seq![take_field(s)] + split_fields(s.skip(take_field(s).len() as int))
    }
}

#[via_fn]
proof fn split_fields_dec(s: Seq<char>) {
    lemma_take_field_len(s);
}

/// The first index at which a character occurs.
pub open spec fn find_char(s: Seq<char>, c: char) -> Option<nat>
    decreases s.len(),
{
    if s.len() == 0 {
        None
    } else if s[0] == c {
        Some(0)
    } else {
        match find_char(s.skip(1), c) {
            None => None,
            Some(k) => Some(k + 1),
        }
    }
}

pub proof fn lemma_find_char(s: Seq<char>, c: char)
    ensures
        match find_char(s, c) {
            None => forall|j: int| 0 <= j < s.len() ==> s[j] != c,
            Some(k) => k < s.len() && s[k as int] == c && forall|j: int| 0 <= j < k ==> s[j] != c,
        },
    decreases s.len(),
{
    if s.len() > 0 && s[0] != c {
        lemma_find_char(s.skip(1), c);
        match find_char(s.skip(1), c) {
            None => {
                assert forall|j: int| 0 <= j < s.len() implies s[j] != c by {
                    if j > 0 {
                        assert(s.skip(1)[j - 1] != c);
                    }
                }
            },
            Some(k) => {
                assert(s[(k + 1) as int] == s.skip(1)[k as int]);
                assert forall|j: int| 0 <= j < k + 1 implies s[j] != c by {
                    if j > 0 {
                        assert(s.skip(1)[j - 1] != c);
                    }
                }
            },
        }
    }
}

/// A run without `c` of known extent localizes `find_char`.
proof fn lemma_find_char_index(s: Seq<char>, c: char, i: int)
    requires
        0 <= i <= s.len(),
        forall|j: int| 0 <= j < i ==> s[j] != c,
        i == s.len() || s[i] == c,
    ensures
        find_char(s, c) == if i == s.len() {
            None::<nat>
        } else {
            Some(i as nat)
        },
    decreases i,
{
    if i > 0 {
        lemma_find_char_index(s.skip(1), c, i - 1);
    }
}

/// A one- or two-digit number token.
pub open spec fn is_num_tok(t: Seq<char>) -> bool {
    (t.len() == 1 || t.len() == 2) && (forall|j: int| 0 <= j < t.len() ==> is_digit(t[j]))
}

/// The value of a one- or two-digit number token.
pub open spec fn num_val(t: Seq<char>) -> nat {
    if t.len() == 1 {
        digit_val(t[0])
    } else {
        digit_val(t[0]) * 10 + digit_val(t[1])
    }
}

/// A number token whose value lies within the field's range.
pub open spec fn in_range_num(t: Seq<char>, lo: nat, hi: nat) -> bool {
    is_num_tok(t) && lo <= num_val(t) && num_val(t) <= hi
}

/// The base of an item: `*`, a number in range, or an ascending range of two
/// numbers in range.
pub open spec fn valid_base(t: Seq<char>, lo: nat, hi: nat) -> bool {
    if t == seq!['*'] {
        true
    } else {
        match find_char(t, '-') {
            None => in_range_num(t, lo, hi),
            Some(k) => in_range_num(t.take(k as int), lo, hi) && in_range_num(
                t.skip((k + 1) as int),
                lo,
                hi,
            ) && num_val(t.take(k as int)) <= num_val(t.skip((k + 1) as int)),
        }
    }
}

/// A step suffix: a positive one- or two-digit number.
pub open spec fn is_step(t: Seq<char>) -> bool {
    is_num_tok(t) && num_val(t) >= 1
}

/// One item of a field list: a base, optionally followed by `/step`.
pub open spec fn valid_item(t: Seq<char>, lo: nat, hi: nat) -> bool {
    match find_char(t, '/') {
        None => valid_base(t, lo, hi),
        Some(k) => valid_base(t.take(k as int), lo, hi) && is_step(t.skip((k + 1) as int)),
    }
}

/// A whole field: a non-empty comma-separated list of valid items.
pub open spec fn valid_field(t: Seq<char>, lo: nat, hi: nat) -> bool
    decreases t.len(),
    via valid_field_dec
{
    match find_char(t, ',') {
        None => valid_item(t, lo, hi),
        Some(k) => valid_item(t.take(k as int), lo, hi) && valid_field(t.skip((k + 1) as int), lo, hi),
    }
}

#[via_fn]
proof fn valid_field_dec(t: Seq<char>, lo: nat, hi: nat) {
    lemma_find_char(t, ',');
}

/// The inclusive bounds of each of the six fields.
pub open spec fn field_lo(i: int) -> nat {
    if i == 3 || i == 4 {
        1
    } else {
        0
    }
}

pub open spec fn field_hi(i: int) -> nat {
    if i == 0 || i == 1 {
        59
    } else if i == 2 {
        23
    } else if i == 3 {
        31
    } else if i == 4 {
        12
    } else {
        6
    }
}

/// A syntactically valid six-field cron expression.
pub open spec fn valid_cron(s: Seq<char>) -> bool {
    &&& split_fields(s).len() == 6
    &&& forall|i: int|
        0 <= i < 6 ==> valid_field(#[trigger] split_fields(s)[i], field_lo(i), field_hi(i))
}

/// Law: an expression with fewer than six whitespace-separated fields is
/// never a valid cron expression.
pub proof fn lemma_few_fields_invalid(s: Seq<char>)
    requires
        split_fields(s).len() < 6,
    ensures
        !valid_cron(s),
{
}

/// Why a cron expression was rejected.
#[derive(Debug, PartialEq, Eq, Structural)]
pub enum CronError {
    /// The expression does not have exactly six fields; carries the count found.
    WrongFieldCount(usize),
    /// The field with this index (counted from zero) is malformed or holds an
    /// out-of-range value.
    InvalidField(usize),
}

impl CronError {
    /// Renders the rejection for the user.
    pub fn message(&self) -> (m: String)
        ensures
            m@ == "Invalid cron expression"@,
    {
        "Invalid cron expression".to_owned()
    }
}

// ---------------------------------------------------------------------------
// Executable validation
// ---------------------------------------------------------------------------

/// The first index at which a character occurs.
fn find_char_vec(v: &Vec<char>, c: char) -> (r: Option<usize>)
    ensures
        match find_char(v@, c) {
            None => r is None,
            Some(k) => r is Some && r->0 == k,
        },
{
    let mut i: usize = 0;
    while i < v.len() && v[i] != c
        invariant
            i <= v@.len(),
            forall|j: int| 0 <= j < i ==> v@[j] != c,
        decreases v@.len() - i,
    {
        i = i + 1;
    }
    proof {
        lemma_find_char_index(v@, c, i as int);
    }
    if i == v.len() {
        None
    } else {
        Some(i)
    }
}

/// Checks a number token against the field's range.
fn in_range_num_vec(v: &Vec<char>, lo: u32, hi: u32) -> (r: bool)
    ensures
        r == in_range_num(v@, lo as nat, hi as nat),
{
    if v.len() != 1 && v.len() != 2 {
        return false;
    }
    let mut i: usize = 0;
    while i < v.len()
        invariant
            i <= v@.len(),
            forall|j: int| 0 <= j < i ==> is_digit(v@[j]),
        decreases v@.len() - i,
    {
        if !('0' <= v[i] && v[i] <= '9') {
            return false;
        }
        i = i + 1;
    }
    let val: u32 = if v.len() == 1 {
        (v[0] as u32) - ('0' as u32)
    } else {
        ((v[0] as u32) - ('0' as u32)) * 10 + ((v[1] as u32) - ('0' as u32))
    };
    lo <= val && val <= hi
}

/// Checks a step suffix.
fn is_step_vec(v: &Vec<char>) -> (r: bool)
    ensures
        r == is_step(v@),
{
    in_range_num_vec(v, 1, 99)
}

/// Checks the base of an item.
fn valid_base_vec(v: &Vec<char>, lo: u32, hi: u32) -> (r: bool)
    ensures
        r == valid_base(v@, lo as nat, hi as nat),
{
    if v.len() == 1 && v[0] == '*' {
        proof {
            assert(v@ =~= seq!['*']);
        }
        return true;
    }
    proof {
        assert(v@ != seq!['*']);
    }
    match find_char_vec(v, '-') {
        None => in_range_num_vec(v, lo, hi),
        Some(k) => {
            let n = v.len();
            proof {
                lemma_find_char(v@, '-');
                assert(k < n);
            }
            let a = take_vec(v, k);
            let b = tail_vec(v, k + 1);
            if !(in_range_num_vec(&a, lo, hi) && in_range_num_vec(&b, lo, hi)) {
                return false;
            }
            let av: u32 = if a.len() == 1 {
                (a[0] as u32) - ('0' as u32)
            } else {
                ((a[0] as u32) - ('0' as u32)) * 10 + ((a[1] as u32) - ('0' as u32))
            };
            let bv: u32 = if b.len() == 1 {
                (b[0] as u32) - ('0' as u32)
            } else {
                ((b[0] as u32) - ('0' as u32)) * 10 + ((b[1] as u32) - ('0' as u32))
            };
            av <= bv
        },
    }
}

/// Checks one item of a field list.
fn valid_item_vec(v: &Vec<char>, lo: u32, hi: u32) -> (r: bool)
    ensures
        r == valid_item(v@, lo as nat, hi as nat),
{
    match find_char_vec(v, '/') {
        None => valid_base_vec(v, lo, hi),
        Some(k) => {
            let n = v.len();
            proof {
                lemma_find_char(v@, '/');
                assert(k < n);
            }
            let base = take_vec(v, k);
            let step = tail_vec(v, k + 1);
            valid_base_vec(&base, lo, hi) && is_step_vec(&step)
        },
    }
}

/// Checks a whole field.
fn valid_field_vec(v: &Vec<char>, lo: u32, hi: u32) -> (r: bool)
    ensures
        r == valid_field(v@, lo as nat, hi as nat),
    decreases v@.len(),
{
    match find_char_vec(v, ',') {
        None => valid_item_vec(v, lo, hi),
        Some(k) => {
            let n = v.len();
            proof {
                lemma_find_char(v@, ',');
                assert(k < n);
            }
            let head = take_vec(v, k);
            let rest = tail_vec(v, k + 1);
            valid_item_vec(&head, lo, hi) && valid_field_vec(&rest, lo, hi)
        },
    }
}

/// Splits the input into its whitespace-separated fields.
fn split_fields_vec(v: &Vec<char>) -> (r: Vec<Vec<char>>)
    ensures
        r.deep_view() == split_fields(v@),
    decreases v@.len(),
{
    if v.len() == 0 {
        let r: Vec<Vec<char>> = Vec::new();
        proof {
            assert(r.deep_view() =~~= split_fields(v@));
        }
        r
    } else if v[0] == ' ' || v[0] == '\t' {
        let t = tail_vec(v, 1);
        let r = split_fields_vec(&t);
        proof {
            assert(r.deep_view() =~~= split_fields(v@));
        }
        r
    } else {
        let mut i: usize = 0;
        while i < v.len() && v[i] != ' ' && v[i] != '\t'
            invariant
                i <= v@.len(),
                forall|j: int| 0 <= j < i ==> !is_field_sep(v@[j]),
            decreases v@.len() - i,
        {
            i = i + 1;
        }
        proof {
            lemma_take_field_index(v@, i as int);
        }
        let field = take_vec(v, i);
        let rest = tail_vec(v, i);
        let mut r = split_fields_vec(&rest);
        let ghost before = r.deep_view();
        r.insert(0, field);
        proof {
            assert(r.deep_view() =~~= seq![field@] + before);
            assert(seq![field@] + before =~~= split_fields(v@));
        }
        r
    }
}

/// Validates a candidate cron expression: succeeds exactly on syntactically
/// valid six-field expressions and then returns the input unchanged; rejects
/// a wrong field count, an out-of-range value, and malformed syntax, naming
/// the first offence.
pub fn validate_cron_expression(cron: &str) -> (r: Result<String, CronError>)
    ensures
        match r {
            Ok(s) => valid_cron(cron@) && s@ == cron@,
            Err(CronError::WrongFieldCount(n)) => split_fields(cron@).len() != 6 && n
                == split_fields(cron@).len(),
            Err(CronError::InvalidField(i)) => split_fields(cron@).len() == 6 && i < 6
                && !valid_field(split_fields(cron@)[i as int], field_lo(i as int), field_hi(
                i as int,
            )) && (forall|j: int|
                0 <= j < i ==> valid_field(
                    #[trigger] split_fields(cron@)[j],
                    field_lo(j),
                    field_hi(j),
                )),
        },
        r is Ok <==> valid_cron(cron@),
{
    let chars = crate::strutil::str_chars(cron);
    let fields = split_fields_vec(&chars);
    if fields.len() != 6 {
        return Err(CronError::WrongFieldCount(fields.len()));
    }
    let mut i: usize = 0;
    while i < 6
        invariant
            i <= 6,
            fields.deep_view() == split_fields(cron@),
            fields.deep_view().len() == 6,
            forall|j: int|
                0 <= j < i ==> valid_field(
                    #[trigger] split_fields(cron@)[j],
                    field_lo(j),
                    field_hi(j),
                ),
        decreases 6 - i,
    {
        let lo: u32 = if i == 3 || i == 4 {
            1
        } else {
            0
        };
        let hi: u32 = if i == 0 || i == 1 {
            59
        } else if i == 2 {
            23
        } else if i == 3 {
            31
        } else if i == 4 {
            12
        } else {
            6
        };
        proof {
            assert(fields@[i as int]@ == fields.deep_view()[i as int]);
            assert(fields@[i as int]@ == split_fields(cron@)[i as int]);
            assert(lo as nat == field_lo(i as int));
            assert(hi as nat == field_hi(i as int));
        }
        if !valid_field_vec(&fields[i], lo, hi) {
            return Err(CronError::InvalidField(i));
        }
        i = i + 1;
    }
    Ok(cron.to_owned())
}

} // verus!
