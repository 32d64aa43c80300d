use vstd::prelude::*;

verus! {

/// The character of a decimal digit.
pub open spec fn digit_char(d: nat) -> char
    recommends
        d < 10,
{
    ((d + 48) as u32) as char
}

/// Whether `c` is an ASCII decimal digit.
pub open spec fn is_digit(c: char) -> bool {
    48 <= c as u32 && c as u32 <= 57
}

/// Value of a non-empty run of digits.
pub open spec fn digits_value(s: Seq<char>) -> nat
    decreases s.len(),
{
    if s.len() == 0 {
        0
    } else {
        digits_value(s.drop_last()) * 10 + ((s.last() as u32) - 48) as nat
    }
}

/// The decimal digits of `n`, without leading zeros.
pub open spec fn nat_digits(n: nat) -> Seq<char>
    decreases n,
{
    if n < 10 {
        seq![digit_char(n)]
    } else {
        nat_digits(n / 10).push(digit_char(n % 10))
    }
}

/// Decimal rendering of an integer, with a minus sign when negative.
pub open spec fn format_int(v: int) -> Seq<char> {
    if v < 0 {
        seq!['-'] + nat_digits((-v) as nat)
    } else {
        nat_digits(v as nat)
    }
}

/// Whether every character of `s` is a decimal digit.
pub open spec fn all_digits(s: Seq<char>) -> bool {
    forall|i: int| 0 <= i < s.len() ==> is_digit(#[trigger] s[i])
}

/// `s` without its leading sign, if it has one.
pub open spec fn unsigned_part(s: Seq<char>) -> Seq<char> {
    if s.len() > 0 && (s[0] == '-' || s[0] == '+') {
        s.drop_first()
    } else {
        s
    }
}

/// Reading of a decimal `i64`, as `str::parse::<i64>` does it: an optional sign,
/// then one or more digits, with a value in range.
pub open spec fn parse_i64_spec(s: Seq<char>) -> Option<i64> {
    let body = unsigned_part(s);
    let v: int = if s.len() > 0 && s[0] == '-' {
        -digits_value(body)
    } else {
        digits_value(body) as int
    };
    if body.len() == 0 || !all_digits(body) {
        None
    } else if i64::MIN <= v && v <= i64::MAX {
        Some(v as i64)
    } else {
        None
    }
}

/// Magnitude of `i64::MIN`, the largest magnitude an `i64` holds.
const I64_MAGNITUDE_LIMIT: u64 = 0x8000_0000_0000_0000;

fn digit_str(d: u64) -> (r: String)
    requires
        d < 10,
    ensures
        r@ == seq![digit_char(d as nat)],
{
    let digits = "0123456789";
    proof {
        reveal_strlit("0123456789");
    }
    let r = String::from_str(digits.substring_ascii(d as usize, d as usize + 1));
    assert(r@ =~= seq![digit_char(d as nat)]);
    r
}

/// Renders `v` in decimal.
pub fn format_i64(v: i64) -> (r: String)
    ensures
        r@ == format_int(v as int),
{
    let mag: u64 = if v < 0 {
        (-(v as i128)) as u64
    } else {
        v as u64
    };
    let mut n: u64 = mag;
    let mut r = String::new();
    assert(nat_digits(mag as nat) =~= nat_digits(n as nat) + r@);
    while n >= 10
        invariant
            nat_digits(mag as nat) == nat_digits(n as nat) + r@,
        decreases n,
    {
        let mut next = digit_str(n % 10);
        next.append(r.as_str());
        proof {
            assert(nat_digits(n as nat) == nat_digits((n / 10) as nat).push(
                digit_char((n % 10) as nat),
            ));
            assert(nat_digits(mag as nat) =~= nat_digits((n / 10) as nat) + next@);
        }
        r = next;
        n = n / 10;
    }
    let mut out = digit_str(n);
    out.append(r.as_str());
    assert(out@ =~= nat_digits(mag as nat));
    if v < 0 {
        let mut signed = String::from_str("-");
        proof {
            reveal_strlit("-");
            assert("-"@ =~= seq!['-']);
        }
        signed.append(out.as_str());
        signed
    } else {
        out
    }
}

proof fn lemma_digits_value_grows(s: Seq<char>, k: int)
    requires
        0 <= k <= s.len(),
        forall|i: int| 0 <= i < s.len() ==> is_digit(#[trigger] s[i]),
    ensures
        digits_value(s) >= digits_value(s.take(k)),
    decreases s.len(),
{
    if k < s.len() {
        assert(s.drop_last().take(k) =~= s.take(k));
        lemma_digits_value_grows(s.drop_last(), k);
    } else {
        assert(s.take(k) =~= s);
    }
}

/// Reads the digits of `s` from `start` on: their value when all are digits
/// and the value is at most `I64_MAGNITUDE_LIMIT`, `None` otherwise.
fn parse_magnitude(s: &str, start: usize) -> (r: Option<u64>)
    requires
        start <= s@.len(),
    ensures
        ({
            let body = s@.skip(start as int);
            match r {
                Some(v) => all_digits(body) && v == digits_value(body) && v <= I64_MAGNITUDE_LIMIT,
                None => !all_digits(body) || digits_value(body) > I64_MAGNITUDE_LIMIT,
            }
        }),
{
    let len = s.unicode_len();
    let ghost body = s@.skip(start as int);
    let mut acc: u64 = 0;
    let mut i: usize = start;
    assert(body.take(0) =~= Seq::<char>::empty());
    while i < len
        invariant
            start <= i <= len,
            len == s@.len(),
            body == s@.skip(start as int),
            acc <= I64_MAGNITUDE_LIMIT,
            acc == digits_value(body.take(i - start)),
            forall|j: int| 0 <= j < i - start ==> is_digit(#[trigger] body[j]),
        decreases len - i,
    {
        let c = s.get_char(i);
        assert(body[i - start] == c);
        let code = c as u32;
        if !(48 <= code && code <= 57) {
            return None;
        }
        let d = (code - 48) as u64;
        proof {
            assert(body.take(i - start + 1).drop_last() =~= body.take(i - start));
        }
        if acc > (I64_MAGNITUDE_LIMIT - d) / 10 {
            proof {
                assert(digits_value(body.take(i - start + 1)) > I64_MAGNITUDE_LIMIT) by (nonlinear_arith)
                    requires
                        digits_value(body.take(i - start + 1)) == acc * 10 + d,
                        acc > (I64_MAGNITUDE_LIMIT - d) / 10,
                        d < 10,
                ;
                if all_digits(body) {
                    lemma_digits_value_grows(body, i - start + 1);
                }
            }
            return None;
        }
        proof {
            assert(acc * 10 + d <= I64_MAGNITUDE_LIMIT) by (nonlinear_arith)
                requires
                    acc <= (I64_MAGNITUDE_LIMIT - d) / 10,
                    d < 10,
            ;
        }
        acc = acc * 10 + d;
        i = i + 1;
    }
    assert(body.take(len - start) =~= body);
    Some(acc)
}

/// Reads a decimal `i64`; `None` when `s` is not one.
pub fn parse_i64(s: &str) -> (r: Option<i64>)
    ensures
        r == parse_i64_spec(s@),
{
    let len = s.unicode_len();
    if len == 0 {
        return None;
    }
    let c0 = s.get_char(0);
    let start: usize = if c0 == '-' || c0 == '+' {
        1
    } else {
        0
    };
    assert(unsigned_part(s@) =~= s@.skip(start as int));
    if start == len {
        return None;
    }
    match parse_magnitude(s, start) {
        None => None,
        Some(m) => {
            if c0 == '-' {
                Some((-(m as i128)) as i64)
            } else if m == I64_MAGNITUDE_LIMIT {
                None
            } else {
                Some(m as i64)
            }
        },
    }
}

proof fn lemma_nat_digits(n: nat)
    ensures
        nat_digits(n).len() >= 1,
        all_digits(nat_digits(n)),
        digits_value(nat_digits(n)) == n,
    decreases n,
{
    let d = digit_char(n % 10);
    assert((((n % 10) + 48) as u32) as char as u32 == (n % 10) + 48);
    if n >= 10 {
        lemma_nat_digits(n / 10);
        let s = nat_digits(n);
        assert(s.drop_last() == nat_digits(n / 10));
        assert forall|i: int| 0 <= i < s.len() implies is_digit(#[trigger] s[i]) by {
            if i < s.len() - 1 {
                assert(s[i] == nat_digits(n / 10)[i]);
            }
        }
        assert(s.last() == d);
        assert((n / 10) * 10 + n % 10 == n);
        assert(digits_value(s) == digits_value(nat_digits(n / 10)) * 10 + ((d as u32) - 48) as nat);
    } else {
        let s = nat_digits(n);
        assert(s.drop_last() =~= Seq::<char>::empty());
        assert(digits_value(s.drop_last()) == 0);
        assert(s.last() == d);
        assert(is_digit(s[0]));
    }
}

/// Reading back the decimal rendering of an `i64` gives the same `i64`.
pub proof fn lemma_parse_format(v: i64)
    ensures
        parse_i64_spec(format_int(v as int)) == Some(v),
{
    let s = format_int(v as int);
    if v < 0 {
        let m = (-v) as nat;
        lemma_nat_digits(m);
        assert(s.drop_first() =~= nat_digits(m));
        assert(unsigned_part(s) == nat_digits(m));
    } else {
        lemma_nat_digits(v as nat);
        assert(is_digit(s[0]));
        assert(unsigned_part(s) == s);
    }
}

} // verus!
