//! Decimal digits: rendering integers as strings and parsing unsigned
//! integers, with exact character-level specifications.
use vstd::prelude::*;

verus! {

/// The character for one decimal digit value.
pub open spec fn digit_char(d: int) -> char {
    if d == 0 {
        '0'
    } else if d == 1 {
        '1'
    } else if d == 2 {
        '2'
    } else if d == 3 {
        '3'
    } else if d == 4 {
        '4'
    } else if d == 5 {
        '5'
    } else if d == 6 {
        '6'
    } else if d == 7 {
        '7'
    } else if d == 8 {
        '8'
    } else {
        '9'
    }
}

/// The decimal rendering of a nonnegative integer, most significant digit
/// first, with no leading zeros (except for zero itself).
pub open spec fn dec_chars(n: nat) -> Seq<char>
    decreases n,
{
    if n < 10 {
        seq![digit_char(n as int)]
    } else {
        dec_chars(n / 10) + seq![digit_char((n % 10) as int)]
    }
}

/// The decimal rendering of a signed integer: a leading '-' for negatives.
pub open spec fn int_chars(v: int) -> Seq<char> {
    if v >= 0 {
        dec_chars(v as nat)
    } else {
        seq!['-'] + dec_chars((-v) as nat)
    }
}

/// Whether `c` is an ASCII decimal digit.
pub open spec fn is_digit(c: char) -> bool {
    '0' <= c && c <= '9'
}

/// The numeric value of an ASCII digit character.
pub open spec fn digit_val(c: char) -> int {
    c as int - '0' as int
}

/// The value of a digit string, most significant digit first.
pub open spec fn digits_value(s: Seq<char>) -> int
    decreases s.len(),
{
    if s.len() == 0 {
        0
    } else {
        digits_value(s.drop_last()) * 10 + digit_val(s.last())
    }
}

/// The digit body of an unsigned decimal literal: an optional leading '+'
/// is stripped, as `str::parse` for unsigned integers does.
pub open spec fn unsigned_body(s: Seq<char>) -> Seq<char> {
    if s.len() > 0 && s[0] == '+' {
        s.drop_first()
    } else {
        s
    }
}

/// Whether `s` is a well-formed unsigned decimal literal with a value
/// of at most `bound`.
pub open spec fn is_unsigned_literal(s: Seq<char>, bound: int) -> bool {
    let body = unsigned_body(s);
    &&& body.len() > 0
    &&& forall|i: int| 0 <= i < body.len() ==> is_digit(#[trigger] body[i])
    &&& digits_value(body) <= bound
}

/// A one-character string for a digit value.
fn digit_str(d: u64) -> (s: String)
    requires
        d < 10,
    ensures
        s@ == seq![digit_char(d as int)],
{
    let s: &str = if d == 0 {
        "0"
    } else if d == 1 {
        "1"
    } else if d == 2 {
        "2"
    } else if d == 3 {
        "3"
    } else if d == 4 {
        "4"
    } else if d == 5 {
        "5"
    } else if d == 6 {
        "6"
    } else if d == 7 {
        "7"
    } else if d == 8 {
        "8"
    } else {
        "9"
    };
    proof {
        reveal_strlit("0");
        reveal_strlit("1");
        reveal_strlit("2");
        reveal_strlit("3");
        reveal_strlit("4");
        reveal_strlit("5");
        reveal_strlit("6");
        reveal_strlit("7");
        reveal_strlit("8");
        reveal_strlit("9");
    }
    String::from_str(s)
}

/// The reversed rendering of a stack of digit remainders: the last
/// remainder pushed is the most significant digit.
spec fn rev_digit_chars(ds: Seq<u64>) -> Seq<char>
    decreases ds.len(),
{
    if ds.len() == 0 {
        Seq::empty()
    } else {
        seq![digit_char(ds.last() as int)] + rev_digit_chars(ds.drop_last())
    }
}

/// Renders an unsigned integer in decimal.
pub fn u64_to_string(n: u64) -> (s: String)
    ensures
        s@ == dec_chars(n as nat),
{
    let mut digits: Vec<u64> = Vec::new();
    let mut m: u64 = n;
    while m >= 10
        invariant
            dec_chars(n as nat) =~= dec_chars(m as nat) + rev_digit_chars(digits@),
            forall|x: int| 0 <= x < digits@.len() ==> #[trigger] digits@[x] < 10,
        decreases m,
    {
        let d: u64 = m % 10;
        proof {
            assert(dec_chars(m as nat) =~= dec_chars((m as nat) / 10) + seq![
                digit_char(((m as nat) % 10) as int),
            ]);
            assert(digits@.push(d).last() == d);
            assert(digits@.push(d).drop_last() =~= digits@);
            assert(rev_digit_chars(digits@.push(d)) =~= seq![digit_char(d as int)]
                + rev_digit_chars(digits@));
        }
        digits.push(d);
        m = m / 10;
        proof {
            assert(dec_chars(n as nat) =~= dec_chars(m as nat) + rev_digit_chars(digits@));
        }
    }
    let mut s: String = digit_str(m);
    proof {
        assert(dec_chars(m as nat) =~= seq![digit_char(m as int)]);
        assert(digits@.subrange(0, digits@.len() as int) =~= digits@);
        assert(s@ + rev_digit_chars(digits@) =~= dec_chars(n as nat));
    }
    let mut j: usize = digits.len();
    while j > 0
        invariant
            j <= digits.len(),
            forall|x: int| 0 <= x < digits@.len() ==> #[trigger] digits@[x] < 10,
            s@ + rev_digit_chars(digits@.subrange(0, j as int)) =~= dec_chars(n as nat),
        decreases j,
    {
        j = j - 1;
        let ghost pre = s@;
        let d: u64 = digits[j];
        let piece = digit_str(d);
        s.append(piece.as_str());
        proof {
            let sub = digits@.subrange(0, j + 1);
            assert(sub.last() == d);
            assert(sub.drop_last() =~= digits@.subrange(0, j as int));
            assert(rev_digit_chars(sub) =~= seq![digit_char(d as int)] + rev_digit_chars(
                digits@.subrange(0, j as int),
            ));
            assert(s@ + rev_digit_chars(digits@.subrange(0, j as int)) =~= pre + rev_digit_chars(
                sub,
            ));
        }
    }
    proof {
        assert(digits@.subrange(0, 0) =~= Seq::<u64>::empty());
        assert(s@ =~= s@ + rev_digit_chars(Seq::<u64>::empty()));
    }
    s
}

/// Renders a signed integer in decimal, with a leading '-' for negatives.
pub fn i64_to_string(v: i64) -> (s: String)
    ensures
        s@ == int_chars(v as int),
{
    if v >= 0 {
        u64_to_string(v as u64)
    } else {
        let mag: u64 = if v == i64::MIN {
            9223372036854775808u64
        } else {
            (-v) as u64
        };
        let mut s = String::from_str("-");
        proof {
            reveal_strlit("-");
        }
        let rest = u64_to_string(mag);
        s.append(rest.as_str());
        proof {
            assert(s@ =~= seq!['-'] + dec_chars(mag as nat));
        }
        s
    }
}

/// Parses an unsigned decimal literal, as `str::parse::<u64>` accepts it:
/// an optional leading '+', then one or more ASCII digits, value within
/// range. Anything else is rejected.
pub fn parse_u64(s: &str) -> (r: Option<u64>)
    ensures
        match r {
            Some(v) => is_unsigned_literal(s@, u64::MAX as int) && v == digits_value(
                unsigned_body(s@),
            ),
            None => !is_unsigned_literal(s@, u64::MAX as int),
        },
{
    let n: usize = s.unicode_len();
    let mut i: usize = 0;
    if n > 0 && s.get_char(0) == '+' {
        i = 1;
    }
    let ghost body = unsigned_body(s@);
    if i >= n {
        assert(body.len() == 0);
        return None;
    }
    let mut acc: u128 = 0;
    let mut k: usize = i;
    while k < n
        invariant
            i <= k <= n,
            n == s@.len(),
            body == unsigned_body(s@),
            body =~= s@.subrange(i as int, n as int),
            forall|j: int| 0 <= j < k - i ==> is_digit(#[trigger] body[j]),
            acc == digits_value(body.subrange(0, k - i)),
            acc <= u64::MAX,
        decreases n - k,
    {
        let c = s.get_char(k);
        if c < '0' || c > '9' {
            assert(!is_digit(body[k - i]));
            return None;
        }
        let d: u32 = c as u32 - 48;
        acc = acc * 10 + d as u128;
        proof {
            let sub = body.subrange(0, k + 1 - i);
            assert(sub.last() == body[k - i]);
            assert(sub.drop_last() =~= body.subrange(0, k - i));
            assert(digit_val(body[k - i]) == d as int);
            assert(acc == digits_value(sub));
        }
        if acc > u64::MAX as u128 {
            proof {
                if is_unsigned_literal(s@, u64::MAX as int) {
                    lemma_digits_value_grows(body, k + 1 - i);
                    assert(false);
                }
            }
            return None;
        }
        k = k + 1;
    }
    proof {
        assert(body.subrange(0, n - i) =~= body);
    }
    Some(acc as u64)
}

/// A digit string's value never shrinks as more digits are appended.
proof fn lemma_digits_value_grows(s: Seq<char>, k: int)
    requires
        0 <= k <= s.len(),
        forall|i: int| 0 <= i < s.len() ==> is_digit(#[trigger] s[i]),
    ensures
        digits_value(s) >= digits_value(s.subrange(0, k)),
        digits_value(s) >= 0,
    decreases s.len() - k,
{
    if k == s.len() {
        assert(s.subrange(0, k) =~= s);
        lemma_digits_value_nonneg(s);
    } else {
        lemma_digits_value_grows(s, k + 1);
        let a = s.subrange(0, k);
        let b = s.subrange(0, k + 1);
        assert(b.drop_last() =~= a);
        assert(b.last() == s[k]);
        lemma_digits_value_nonneg(a);
        assert(digits_value(b) == digits_value(a) * 10 + digit_val(s[k]));
        assert(digit_val(s[k]) >= 0);
        assert(digits_value(a) * 10 >= digits_value(a)) by (nonlinear_arith)
            requires
                digits_value(a) >= 0,
        ;
    }
}

/// A digit string's value is nonnegative.
proof fn lemma_digits_value_nonneg(s: Seq<char>)
    requires
        forall|i: int| 0 <= i < s.len() ==> is_digit(#[trigger] s[i]),
    ensures
        digits_value(s) >= 0,
    decreases s.len(),
{
    if s.len() > 0 {
        lemma_digits_value_nonneg(s.drop_last());
        assert(digits_value(s.drop_last()) * 10 >= 0) by (nonlinear_arith)
            requires
                digits_value(s.drop_last()) >= 0,
        ;
    }
}

/// Parses an unsigned decimal literal into `u32`, as `str::parse::<u32>`
/// accepts it.
pub fn parse_u32(s: &str) -> (r: Option<u32>)
    ensures
        match r {
            Some(v) => is_unsigned_literal(s@, u32::MAX as int) && v == digits_value(
                unsigned_body(s@),
            ),
            None => !is_unsigned_literal(s@, u32::MAX as int),
        },
{
    match parse_u64(s) {
        Some(v) => {
            if v <= u32::MAX as u64 {
                Some(v as u32)
            } else {
                None
            }
        },
        None => None,
    }
}

} // verus!
