//! Decimal text of integers, as `{}` writes them.
use vstd::prelude::*;
use crate::parse::{
    accumulate_down, accumulate_up, is_digit, parse_i64_spec, IntErrorKind,
};

verus! {

broadcast use vstd::string::group_string_axioms;

pub open spec fn digit_char(d: int) -> char {
    (d + 0x30) as char
}

/// The decimal digits of `m`, most significant first, with no leading zero.
pub open spec fn digits_of(m: nat) -> Seq<char>
    decreases m,
{
    if m < 10 {
        seq![digit_char(m as int)]
    } else {
        digits_of(m / 10).push(digit_char((m % 10) as int))
    }
}

/// The decimal text of `n`: its digits, after a `-` where it is negative.
pub open spec fn decimal_text(n: int) -> Seq<char> {
    if n < 0 {
        seq!['-'] + digits_of((-n) as nat)
    } else {
        digits_of(n as nat)
    }
}

fn digit_str(d: u64) -> (s: &'static str)
    requires
        d < 10,
    ensures
        s@ == seq![digit_char(d as int)],
{
    proof {
        reveal_strlit("0");
        reveal_strlit("1");
        reveal_strlit("2");
        reveal_strlit("3");
        reveal_strlit("4");
        reveal_strlit("5");
        reveal_strlit("6");
        reveal_strlit("7");
        reveal_strlit("8");
        reveal_strlit("9");
    }
    let s = if d == 0 {
        "0"
    } else if d == 1 {
        "1"
    } else if d == 2 {
        "2"
    } else if d == 3 {
        "3"
    } else if d == 4 {
        "4"
    } else if d == 5 {
        "5"
    } else if d == 6 {
        "6"
    } else if d == 7 {
        "7"
    } else if d == 8 {
        "8"
    } else {
        "9"
    };
    assert(s@ =~= seq![digit_char(d as int)]);
    s
}

/// Appends the digits of `m` to `out`.
fn append_digits(out: &mut String, m: u64)
    ensures
        final(out)@ == old(out)@ + digits_of(m as nat),
    decreases m,
{
    if m >= 10 {
        append_digits(out, m / 10);
    }
    let d = m % 10;
    out.append(digit_str(d));
    assert(out@ =~= old(out)@ + digits_of(m as nat));
}

/// The decimal text of `n`, as `n.to_string()` gives it.
pub fn i64_to_decimal(n: i64) -> (res: String)
    ensures
        res@ == decimal_text(n as int),
{
    let mut out = String::new();
    if n < 0 {
        proof {
            reveal_strlit("-");
        }
        out.append("-");
        let m: u64 = (0i128 - (n as i128)) as u64;
        append_digits(&mut out, m);
    } else {
        append_digits(&mut out, n as u64);
    }
    assert(out@ =~= decimal_text(n as int));
    out
}

proof fn lemma_digits_are_digits(m: nat)
    ensures
        digits_of(m).len() >= 1,
        forall|i: int| 0 <= i < digits_of(m).len() ==> is_digit(#[trigger] digits_of(m)[i]),
    decreases m,
{
    if m >= 10 {
        lemma_digits_are_digits(m / 10);
    }
}

proof fn lemma_accumulate_up_digits(m: nat, rest: Seq<char>, max: int)
    requires
        m <= max,
    ensures
        accumulate_up(digits_of(m) + rest, 0, max) == accumulate_up(rest, m as int, max),
    decreases m,
{
    if m < 10 {
        let s = digits_of(m) + rest;
        assert(s[0] == digit_char(m as int));
        assert(s.drop_first() =~= rest);
    } else {
        let d = digit_char((m % 10) as int);
        let tail = seq![d] + rest;
        assert(digits_of(m) + rest =~= digits_of(m / 10) + tail);
        lemma_accumulate_up_digits(m / 10, tail, max);
        assert(tail.drop_first() =~= rest);
        assert(tail[0] == d);
    }
}

proof fn lemma_accumulate_down_digits(m: nat, rest: Seq<char>, min: int)
    requires
        -m >= min,
    ensures
        accumulate_down(digits_of(m) + rest, 0, min) == accumulate_down(rest, -m, min),
    decreases m,
{
    if m < 10 {
        let s = digits_of(m) + rest;
        assert(s[0] == digit_char(m as int));
        assert(s.drop_first() =~= rest);
    } else {
        let d = digit_char((m % 10) as int);
        let tail = seq![d] + rest;
        assert(digits_of(m) + rest =~= digits_of(m / 10) + tail);
        lemma_accumulate_down_digits(m / 10, tail, min);
        assert(tail.drop_first() =~= rest);
        assert(tail[0] == d);
    }
}

/// Reading back the decimal text of an `i64` gives the same number.
pub proof fn lemma_decimal_parse_roundtrip(n: i64)
    ensures
        parse_i64_spec(decimal_text(n as int)) == Ok::<int, IntErrorKind>(n as int),
{
    let s = decimal_text(n as int);
    if n < 0 {
        let m = (-n) as nat;
        lemma_digits_are_digits(m);
        lemma_accumulate_down_digits(m, Seq::empty(), i64::MIN as int);
        assert(digits_of(m) + Seq::<char>::empty() =~= digits_of(m));
        assert(s.drop_first() =~= digits_of(m));
        assert(s[0] == '-');
    } else {
        let m = n as nat;
        lemma_digits_are_digits(m);
        lemma_accumulate_up_digits(m, Seq::empty(), i64::MAX as int);
        assert(digits_of(m) + Seq::<char>::empty() =~= digits_of(m));
        assert(is_digit(s[0]));
    }
}

} // verus!

verus! {

proof fn lemma_digits_canonical(m: nat)
    ensures
        digits_of(m).len() >= 1,
        forall|i: int| 0 <= i < digits_of(m).len() ==> is_digit(#[trigger] digits_of(m)[i]),
        m > 0 ==> digits_of(m)[0] != '0',
        m == 0 ==> digits_of(m) == seq!['0'],
    decreases m,
{
    lemma_digits_are_digits(m);
    if m >= 10 {
        lemma_digits_canonical(m / 10);
        assert(digits_of(m)[0] == digits_of(m / 10)[0]);
    } else if m == 0 {
        assert(digits_of(m) =~= seq!['0']);
    } else {
        assert(digits_of(m)[0] == digit_char(m as int));
    }
}

/// The decimal text of an `i64` is the shortest one: a `-` exactly when the
/// number is negative, then only digits, with no leading zero except for
/// the number zero itself, which is written `0`. Together with
/// `lemma_decimal_parse_roundtrip` this fixes the text of every number.
pub proof fn lemma_decimal_canonical(n: i64)
    ensures
        decimal_text(n as int).len() >= 1,
        (decimal_text(n as int)[0] == '-') <==> n < 0,
        ({
            let body = if n < 0 {
                decimal_text(n as int).drop_first()
            } else {
                decimal_text(n as int)
            };
            &&& body.len() >= 1
            &&& forall|i: int| 0 <= i < body.len() ==> is_digit(#[trigger] body[i])
            &&& (n != 0 ==> body[0] != '0')
            &&& (n == 0 ==> body == seq!['0'])
        }),
{
    if n < 0 {
        let m = (-n) as nat;
        lemma_digits_canonical(m);
        assert(decimal_text(n as int).drop_first() =~= digits_of(m));
    } else {
        lemma_digits_canonical(n as nat);
        assert(is_digit(decimal_text(n as int)[0]));
    }
}

} // verus!
