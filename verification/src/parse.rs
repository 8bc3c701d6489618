//! Decimal integer and boolean parsing with the semantics of `str::parse`.
use vstd::prelude::*;
use crate::text::chars_of;

verus! {

broadcast use vstd::string::group_string_axioms;

/// Why a text is not a decimal integer of the wanted type.
#[derive(Clone, Copy, Debug, PartialEq, Eq, Structural)]
pub enum IntErrorKind {
    Empty,
    InvalidDigit,
    PosOverflow,
    NegOverflow,
}

pub open spec fn is_digit(c: char) -> bool {
    0x30 <= (c as u32) <= 0x39
}

pub open spec fn digit_value(c: char) -> int {
    (c as u32) - 0x30
}

/// Reads the digits of `d` from the left onto `acc`, failing at the first
/// character that is not a digit or at the first step that passes `max`.
pub open spec fn accumulate_up(d: Seq<char>, acc: int, max: int) -> Result<int, IntErrorKind>
    decreases d.len(),
{
    if d.len() == 0 {
        Ok(acc)
    } else if !is_digit(d[0]) {
        Err(IntErrorKind::InvalidDigit)
    } else if acc * 10 + digit_value(d[0]) > max {
        Err(IntErrorKind::PosOverflow)
    } else {
        accumulate_up(d.drop_first(), acc * 10 + digit_value(d[0]), max)
    }
}

/// As `accumulate_up`, for the digits of a negative number, which are
/// subtracted and may not pass below `min`.
pub open spec fn accumulate_down(d: Seq<char>, acc: int, min: int) -> Result<int, IntErrorKind>
    decreases d.len(),
{
    if d.len() == 0 {
        Ok(acc)
    } else if !is_digit(d[0]) {
        Err(IntErrorKind::InvalidDigit)
    } else if acc * 10 - digit_value(d[0]) < min {
        Err(IntErrorKind::NegOverflow)
    } else {
        accumulate_down(d.drop_first(), acc * 10 - digit_value(d[0]), min)
    }
}

/// What `str::parse` gives for an integer type with the bounds `min..=max`;
/// a leading `-` is a sign only for a signed type.
pub open spec fn parse_int(s: Seq<char>, signed: bool, min: int, max: int) -> Result<
    int,
    IntErrorKind,
> {
    if s.len() == 0 {
        Err(IntErrorKind::Empty)
    } else if (s[0] == '+' || s[0] == '-') && s.len() == 1 {
        Err(IntErrorKind::InvalidDigit)
    } else if s[0] == '+' {
        accumulate_up(s.drop_first(), 0, max)
    } else if s[0] == '-' && signed {
        accumulate_down(s.drop_first(), 0, min)
    } else {
        accumulate_up(s, 0, max)
    }
}

pub open spec fn parse_usize_spec(s: Seq<char>) -> Result<int, IntErrorKind> {
    parse_int(s, false, 0, usize::MAX as int)
}

pub open spec fn parse_u64_spec(s: Seq<char>) -> Result<int, IntErrorKind> {
    parse_int(s, false, 0, u64::MAX as int)
}

pub open spec fn parse_i64_spec(s: Seq<char>) -> Result<int, IntErrorKind> {
    parse_int(s, true, i64::MIN as int, i64::MAX as int)
}

/// The message that the standard library's `ParseIntError` displays.
pub open spec fn int_error_text(k: IntErrorKind) -> Seq<char> {
    match k {
        IntErrorKind::Empty => "cannot parse integer from empty string"@,
        IntErrorKind::InvalidDigit => "invalid digit found in string"@,
        IntErrorKind::PosOverflow => "number too large to fit in target type"@,
        IntErrorKind::NegOverflow => "number too small to fit in target type"@,
    }
}

/// The message that the standard library's `ParseBoolError` displays.
pub open spec fn bool_error_text() -> Seq<char> {
    "provided string was not `true` or `false`"@
}

pub open spec fn parse_bool_spec(s: Seq<char>) -> Option<bool> {
    if s == "true"@ {
        Some(true)
    } else if s == "false"@ {
        Some(false)
    } else {
        None
    }
}

/// The text of a parse error, as `{}` formats it.
pub fn int_error_message(k: IntErrorKind) -> (res: String)
    ensures
        res@ == int_error_text(k),
{
    match k {
        IntErrorKind::Empty => "cannot parse integer from empty string".to_string(),
        IntErrorKind::InvalidDigit => "invalid digit found in string".to_string(),
        IntErrorKind::PosOverflow => "number too large to fit in target type".to_string(),
        IntErrorKind::NegOverflow => "number too small to fit in target type".to_string(),
    }
}

/// The text of a failed boolean parse.
pub fn bool_error_message() -> (res: String)
    ensures
        res@ == bool_error_text(),
{
    "provided string was not `true` or `false`".to_string()
}

fn digit_of(c: char) -> (v: u32)
    requires
        is_digit(c),
    ensures
        v == digit_value(c),
        v < 10,
{
    (c as u32) - 0x30
}

/// Reads `cs[start..end]` as unsigned digits, with the bound `max`.
fn accumulate_up_exec(cs: &Vec<char>, start: usize, end: usize, max: u64) -> (res: Result<
    u64,
    IntErrorKind,
>)
    requires
        start <= end <= cs.len(),
    ensures
        match accumulate_up(cs@.subrange(start as int, end as int), 0, max as int) {
            Ok(v) => res is Ok && res->Ok_0 == v && v <= max,
            Err(k) => res == Err::<u64, IntErrorKind>(k),
        },
{
    let mut acc: u64 = 0;
    let mut i: usize = start;
    while i < end
        invariant
            start <= i <= end <= cs.len(),
            acc <= max,
            accumulate_up(cs@.subrange(start as int, end as int), 0, max as int) == accumulate_up(
                cs@.subrange(i as int, end as int),
                acc as int,
                max as int,
            ),
        decreases end - i,
    {
        let c = cs[i];
        assert(cs@.subrange(i as int, end as int).drop_first() =~= cs@.subrange(
            i + 1,
            end as int,
        ));
        if !(0x30 <= (c as u32) && (c as u32) <= 0x39) {
            return Err(IntErrorKind::InvalidDigit);
        }
        let v = digit_of(c);
        let next: u128 = (acc as u128) * 10 + (v as u128);
        if next > max as u128 {
            return Err(IntErrorKind::PosOverflow);
        }
        acc = next as u64;
        i = i + 1;
    }
    assert(cs@.subrange(i as int, end as int).len() == 0);
    Ok(acc)
}

/// Reads `cs[start..end]` as the digits of a negative number, with the
/// bound `i64::MIN`.
fn accumulate_down_exec(cs: &Vec<char>, start: usize, end: usize) -> (res: Result<
    i64,
    IntErrorKind,
>)
    requires
        start <= end <= cs.len(),
    ensures
        match accumulate_down(cs@.subrange(start as int, end as int), 0, i64::MIN as int) {
            Ok(v) => res is Ok && res->Ok_0 == v && v <= 0,
            Err(k) => res == Err::<i64, IntErrorKind>(k),
        },
{
    let mut acc: i64 = 0;
    let mut i: usize = start;
    while i < end
        invariant
            start <= i <= end <= cs.len(),
            acc <= 0,
            accumulate_down(cs@.subrange(start as int, end as int), 0, i64::MIN as int)
                == accumulate_down(cs@.subrange(i as int, end as int), acc as int, i64::MIN as int),
        decreases end - i,
    {
        let c = cs[i];
        assert(cs@.subrange(i as int, end as int).drop_first() =~= cs@.subrange(
            i + 1,
            end as int,
        ));
        if !(0x30 <= (c as u32) && (c as u32) <= 0x39) {
            return Err(IntErrorKind::InvalidDigit);
        }
        let v = digit_of(c);
        let next: i128 = (acc as i128) * 10 - (v as i128);
        if next < i64::MIN as i128 {
            return Err(IntErrorKind::NegOverflow);
        }
        acc = next as i64;
        i = i + 1;
    }
    assert(cs@.subrange(i as int, end as int).len() == 0);
    Ok(acc)
}

/// Parses `cs[start..end]` as an unsigned integer of at most `max`.
fn parse_unsigned_chars(cs: &Vec<char>, start: usize, end: usize, max: u64) -> (res: Result<
    u64,
    IntErrorKind,
>)
    requires
        start <= end <= cs.len(),
    ensures
        match parse_int(cs@.subrange(start as int, end as int), false, 0, max as int) {
            Ok(v) => res is Ok && res->Ok_0 == v && v <= max,
            Err(k) => res == Err::<u64, IntErrorKind>(k),
        },
{
    let ghost s = cs@.subrange(start as int, end as int);
    if start == end {
        return Err(IntErrorKind::Empty);
    }
    let first = cs[start];
    assert(s[0] == first && s.len() == end - start);
    if (first == '+' || first == '-') && end - start == 1 {
        return Err(IntErrorKind::InvalidDigit);
    }
    if first == '+' {
        assert(s.drop_first() =~= cs@.subrange(start + 1, end as int));
        accumulate_up_exec(cs, start + 1, end, max)
    } else {
        accumulate_up_exec(cs, start, end, max)
    }
}

/// Parses `cs[start..end]` as an `i64`.
fn parse_signed_chars(cs: &Vec<char>, start: usize, end: usize) -> (res: Result<
    i64,
    IntErrorKind,
>)
    requires
        start <= end <= cs.len(),
    ensures
        match parse_i64_spec(cs@.subrange(start as int, end as int)) {
            Ok(v) => res is Ok && res->Ok_0 == v,
            Err(k) => res == Err::<i64, IntErrorKind>(k),
        },
{
    let ghost s = cs@.subrange(start as int, end as int);
    if start == end {
        return Err(IntErrorKind::Empty);
    }
    let first = cs[start];
    assert(s[0] == first && s.len() == end - start);
    if (first == '+' || first == '-') && end - start == 1 {
        return Err(IntErrorKind::InvalidDigit);
    }
    if first == '-' {
        assert(s.drop_first() =~= cs@.subrange(start + 1, end as int));
        accumulate_down_exec(cs, start + 1, end)
    } else {
        let r = if first == '+' {
            assert(s.drop_first() =~= cs@.subrange(start + 1, end as int));
            accumulate_up_exec(cs, start + 1, end, i64::MAX as u64)
        } else {
            accumulate_up_exec(cs, start, end, i64::MAX as u64)
        };
        match r {
            Ok(v) => Ok(v as i64),
            Err(k) => Err(k),
        }
    }
}

/// `s.parse::<usize>()`.
pub fn parse_usize(s: &str) -> (res: Result<usize, IntErrorKind>)
    ensures
        match parse_usize_spec(s@) {
            Ok(v) => res is Ok && res->Ok_0 == v,
            Err(k) => res == Err::<usize, IntErrorKind>(k),
        },
{
    let cs = chars_of(s);
    assert(cs@.subrange(0, cs@.len() as int) =~= s@);
    match parse_unsigned_chars(&cs, 0, cs.len(), usize::MAX as u64) {
        Ok(v) => Ok(v as usize),
        Err(k) => Err(k),
    }
}

/// `s.parse::<u64>()`.
pub fn parse_u64(s: &str) -> (res: Result<u64, IntErrorKind>)
    ensures
        match parse_u64_spec(s@) {
            Ok(v) => res is Ok && res->Ok_0 == v,
            Err(k) => res == Err::<u64, IntErrorKind>(k),
        },
{
    let cs = chars_of(s);
    assert(cs@.subrange(0, cs@.len() as int) =~= s@);
    parse_unsigned_chars(&cs, 0, cs.len(), u64::MAX)
}

/// `s.parse::<i64>()`.
pub fn parse_i64(s: &str) -> (res: Result<i64, IntErrorKind>)
    ensures
        match parse_i64_spec(s@) {
            Ok(v) => res is Ok && res->Ok_0 == v,
            Err(k) => res == Err::<i64, IntErrorKind>(k),
        },
{
    let cs = chars_of(s);
    assert(cs@.subrange(0, cs@.len() as int) =~= s@);
    parse_signed_chars(&cs, 0, cs.len())
}

/// Parses the first `len` characters of `cs` as an `i64`.
pub fn parse_i64_prefix(cs: &Vec<char>, len: usize) -> (res: Result<i64, IntErrorKind>)
    requires
        len <= cs.len(),
    ensures
        match parse_i64_spec(cs@.take(len as int)) {
            Ok(v) => res is Ok && res->Ok_0 == v,
            Err(k) => res == Err::<i64, IntErrorKind>(k),
        },
{
    assert(cs@.subrange(0, len as int) =~= cs@.take(len as int));
    parse_signed_chars(cs, 0, len)
}

/// `s.parse::<bool>()`: `Some` of the value, `None` for a parse error.
pub fn parse_bool(s: &str) -> (res: Option<bool>)
    ensures
        res == parse_bool_spec(s@),
{
    proof {
        reveal_strlit("true");
        reveal_strlit("false");
    }
    let cs = chars_of(s);
    if cs.len() == 4 && cs[0] == 't' && cs[1] == 'r' && cs[2] == 'u' && cs[3] == 'e' {
        assert(s@ =~= "true"@);
        Some(true)
    } else if cs.len() == 5 && cs[0] == 'f' && cs[1] == 'a' && cs[2] == 'l' && cs[3] == 's'
        && cs[4] == 'e' {
        assert(s@ =~= "false"@);
        Some(false)
    } else {
        assert(s@ != "true"@ ==> true);
        None
    }
}

} // verus!

verus! {

proof fn lemma_accumulate_up_push(d: Seq<char>, acc: int, max: int, c: char)
    requires
        accumulate_up(d, acc, max) is Ok,
    ensures
        ({
            let n = accumulate_up(d, acc, max)->Ok_0;
            accumulate_up(d.push(c), acc, max) == if !is_digit(c) {
                Err::<int, IntErrorKind>(IntErrorKind::InvalidDigit)
            } else if n * 10 + digit_value(c) > max {
                Err(IntErrorKind::PosOverflow)
            } else {
                Ok(n * 10 + digit_value(c))
            }
        }),
    decreases d.len(),
{
    if d.len() == 0 {
        assert(d.push(c).drop_first() =~= Seq::<char>::empty());
        assert(d.push(c)[0] == c);
        assert(accumulate_up(Seq::<char>::empty(), acc * 10 + digit_value(c), max) == Ok::<
            int,
            IntErrorKind,
        >(acc * 10 + digit_value(c)));
    } else {
        assert(d.push(c).drop_first() =~= d.drop_first().push(c));
        assert(d.push(c)[0] == d[0]);
        lemma_accumulate_up_push(d.drop_first(), acc * 10 + digit_value(d[0]), max, c);
    }
}

proof fn lemma_accumulate_down_push(d: Seq<char>, acc: int, min: int, c: char)
    requires
        accumulate_down(d, acc, min) is Ok,
    ensures
        ({
            let n = accumulate_down(d, acc, min)->Ok_0;
            accumulate_down(d.push(c), acc, min) == if !is_digit(c) {
                Err::<int, IntErrorKind>(IntErrorKind::InvalidDigit)
            } else if n * 10 - digit_value(c) < min {
                Err(IntErrorKind::NegOverflow)
            } else {
                Ok(n * 10 - digit_value(c))
            }
        }),
    decreases d.len(),
{
    if d.len() == 0 {
        assert(d.push(c).drop_first() =~= Seq::<char>::empty());
        assert(d.push(c)[0] == c);
        assert(accumulate_down(Seq::<char>::empty(), acc * 10 - digit_value(c), min) == Ok::<
            int,
            IntErrorKind,
        >(acc * 10 - digit_value(c)));
    } else {
        assert(d.push(c).drop_first() =~= d.drop_first().push(c));
        assert(d.push(c)[0] == d[0]);
        lemma_accumulate_down_push(d.drop_first(), acc * 10 - digit_value(d[0]), min, c);
    }
}

/// Reading a number digit by digit: a single digit reads as itself, and a
/// text that reads as `n` followed by one more character reads as
/// `10 * n + d` when that character is the digit `d` and the result stays
/// within the type (`10 * n - d` for a negative number), is refused as too
/// large (or too small) when it does not, and is refused as holding an
/// invalid digit when the character is not a digit. The empty text and a
/// lone sign are refused.
pub proof fn lemma_parse_digit_by_digit(s: Seq<char>, signed: bool, min: int, max: int, c: char)
    requires
        min <= 0 <= max,
    ensures
        parse_int(Seq::empty(), signed, min, max) == Err::<int, IntErrorKind>(IntErrorKind::Empty),
        parse_int(seq!['+'], signed, min, max) == Err::<int, IntErrorKind>(
            IntErrorKind::InvalidDigit,
        ),
        parse_int(seq!['-'], signed, min, max) == Err::<int, IntErrorKind>(
            IntErrorKind::InvalidDigit,
        ),
        is_digit(c) && digit_value(c) <= max ==> parse_int(seq![c], signed, min, max) == Ok::<
            int,
            IntErrorKind,
        >(digit_value(c)),
        !is_digit(c) && c != '+' && (c != '-' || !signed) ==> parse_int(seq![c], signed, min, max)
            == Err::<int, IntErrorKind>(IntErrorKind::InvalidDigit),
        parse_int(s, signed, min, max) matches Ok(n) ==> ({
            let next = parse_int(s.push(c), signed, min, max);
            if !is_digit(c) {
                next == Err::<int, IntErrorKind>(IntErrorKind::InvalidDigit)
            } else if s[0] == '-' && signed {
                if n * 10 - digit_value(c) < min {
                    next == Err::<int, IntErrorKind>(IntErrorKind::NegOverflow)
                } else {
                    next == Ok::<int, IntErrorKind>(n * 10 - digit_value(c))
                }
            } else if n * 10 + digit_value(c) > max {
                next == Err::<int, IntErrorKind>(IntErrorKind::PosOverflow)
            } else {
                next == Ok::<int, IntErrorKind>(n * 10 + digit_value(c))
            }
        }),
{
    let e = Seq::<char>::empty();
    assert(seq![c].drop_first() =~= e);
    assert(accumulate_up(e, digit_value(c), max) == Ok::<int, IntErrorKind>(digit_value(c)));
    if let Ok(n) = parse_int(s, signed, min, max) {
        let t = s.push(c);
        assert(t[0] == s[0]);
        assert(t.len() > 1);
        assert(t.drop_first() =~= s.drop_first().push(c));
        if s[0] == '+' {
            lemma_accumulate_up_push(s.drop_first(), 0, max, c);
        } else if s[0] == '-' && signed {
            lemma_accumulate_down_push(s.drop_first(), 0, min, c);
        } else {
            lemma_accumulate_up_push(s, 0, max, c);
        }
    }
}

} // verus!
