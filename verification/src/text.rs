use vstd::prelude::*;

verus! {

// Character-level utilities shared by the parsers and formatters: decimal
// numbers as sequences of characters, and conversion between `&str` and
// `Vec<char>` so the rest of the crate can work on indexed characters.

pub open spec fn is_digit_char(c: char) -> bool {
    48 <= c as u32 && c as u32 <= 57
}

pub open spec fn digit_of(c: char) -> nat {
    (c as u32 - 48) as nat
}

pub open spec fn all_digits(s: Seq<char>) -> bool {
    forall|i: int| 0 <= i < s.len() ==> is_digit_char(#[trigger] s[i])
}

/// The value of a sequence of decimal digits, most significant first.
pub open spec fn digits_val(s: Seq<char>) -> nat
    decreases s.len(),
{
    if s.len() == 0 {
        0
    } else {
        digits_val(s.drop_last()) * 10 + digit_of(s.last())
    }
}

/// `u64::from_str` semantics: an optional leading `+`, then at least one
/// digit, and a value that fits in the type.
pub open spec fn spec_parse_u64(s: Seq<char>) -> Option<u64> {
    let body = if s.len() > 0 && s[0] == '+' {
        s.subrange(1, s.len() as int)
    } else {
        s
    };
    if body.len() > 0 && all_digits(body) && digits_val(body) <= u64::MAX {
        Some(digits_val(body) as u64)
    } else {
        None
    }
}

/// `i64::from_str` semantics: an optional sign, then at least one digit,
/// and a value that fits in the type.
pub open spec fn spec_parse_i64(s: Seq<char>) -> Option<i64> {
    let neg = s.len() > 0 && s[0] == '-';
    let body = if s.len() > 0 && (s[0] == '+' || s[0] == '-') {
        s.subrange(1, s.len() as int)
    } else {
        s
    };
    if body.len() > 0 && all_digits(body) {
        if neg && digits_val(body) <= 0x8000_0000_0000_0000 {
            Some((0 - digits_val(body)) as i64)
        } else if !neg && digits_val(body) <= i64::MAX {
            Some(digits_val(body) as i64)
        } else {
            None
        }
    } else {
        None
    }
}

proof fn lemma_digits_val_step(s: Seq<char>, i: int)
    requires
        0 <= i < s.len(),
    ensures
        digits_val(s.take(i + 1)) == digits_val(s.take(i)) * 10 + digit_of(s[i]),
{
    assert(s.take(i + 1).drop_last() =~= s.take(i));
    assert(s.take(i + 1).last() == s[i]);
}

proof fn lemma_digits_val_mono(s: Seq<char>, i: int, j: int)
    requires
        0 <= i <= j <= s.len(),
    ensures
        digits_val(s.take(i)) <= digits_val(s.take(j)),
    decreases j - i,
{
    if i < j {
        lemma_digits_val_mono(s, i, j - 1);
        lemma_digits_val_step(s, j - 1);
    }
}

/// Collect the characters of a string, so callers can index them.
pub fn chars_of(s: &str) -> (v: Vec<char>)
    ensures
        v@ == s@,
{
    let n = s.unicode_len();
    let mut v: Vec<char> = Vec::new();
    let mut i: usize = 0;
    while i < n
        invariant
            n == s@.len(),
            i <= n,
            v@ =~= s@.take(i as int),
        decreases n - i,
    {
        v.push(s.get_char(i));
        i += 1;
    }
    assert(v@ =~= s@);
    v
}

/// Relies on `String::push`: appends exactly one character.
#[verifier::external_body]
pub fn push_char(s: &mut String, c: char)
    ensures
        final(s)@ == old(s)@.push(c),
{
    s.push(c);
}

/// Character-by-character string equality.
#[verifier::loop_isolation(false)]
pub fn str_eq(a: &str, b: &str) -> (r: bool)
    ensures
        r == (a@ == b@),
{
    let na = a.unicode_len();
    let nb = b.unicode_len();
    if na != nb {
        return false;
    }
    let mut i: usize = 0;
    while i < na
        invariant
            i <= na,
            forall|t: int| 0 <= t < i ==> a@[t] == b@[t],
        decreases na - i,
    {
        if a.get_char(i) != b.get_char(i) {
            return false;
        }
        i += 1;
    }
    proof {
        assert(a@ =~= b@);
    }
    true
}

/// Parse the digits of `cs[start..end]` as a `u64`, with `u64::from_str`
/// semantics.
#[verifier::loop_isolation(false)]
pub fn parse_u64_range(cs: &Vec<char>, start: usize, end: usize) -> (r: Option<u64>)
    requires
        start <= end <= cs@.len(),
    ensures
        r == spec_parse_u64(cs@.subrange(start as int, end as int)),
{
    let ghost s = cs@.subrange(start as int, end as int);
    let mut i: usize = start;
    if i < end && cs[i] == '+' {
        i += 1;
    }
    let ghost body = cs@.subrange(i as int, end as int);
    assert(body =~= if s.len() > 0 && s[0] == '+' { s.subrange(1, s.len() as int) } else { s });
    if i == end {
        return None;
    }
    let mut acc: u64 = 0;
    let mut j: usize = i;
    while j < end
        invariant
            start <= i <= j <= end <= cs@.len(),
            body == cs@.subrange(i as int, end as int),
            all_digits(body.take(j - i)),
            acc == digits_val(body.take(j - i)),
        decreases end - j,
    {
        let c = cs[j];
        let cv = c as u32;
        if !(48 <= cv && cv <= 57) {
            assert(body[j - i] == cs@[j as int]);
            return None;
        }
        let d: u64 = (cv - 48) as u64;
        if acc > (u64::MAX - d) / 10 {
            proof {
                lemma_digits_val_step(body, j - i);
                assert(digits_val(body.take(j - i + 1)) > u64::MAX) by {
                    assert(acc * 10 + d > u64::MAX) by (nonlinear_arith)
                        requires
                            acc > (u64::MAX - d) / 10,
                            d <= 9,
                    ;
                };
                lemma_digits_val_mono(body, j - i + 1, body.len() as int);
                assert(body.take(body.len() as int) =~= body);
            }
            return None;
        }
        proof {
            lemma_digits_val_step(body, j - i);
            assert(acc * 10 + d <= u64::MAX) by (nonlinear_arith)
                requires
                    acc <= (u64::MAX - d) / 10,
                    d <= 9,
            ;
            assert(body[j - i] == cs@[j as int]);
            assert(body.take(j - i + 1) =~= body.take(j - i).push(cs@[j as int]));
        }
        acc = acc * 10 + d;
        j += 1;
    }
    proof {
        assert(body.take(body.len() as int) =~= body);
    }
    Some(acc)
}

/// Parse the digits of `cs[start..end]` as an `i64`, with `i64::from_str`
/// semantics.
pub fn parse_i64_range(cs: &Vec<char>, start: usize, end: usize) -> (r: Option<i64>)
    requires
        start <= end <= cs@.len(),
    ensures
        r == spec_parse_i64(cs@.subrange(start as int, end as int)),
{
    let ghost s = cs@.subrange(start as int, end as int);
    let mut i: usize = start;
    let mut neg = false;
    if i < end && (cs[i] == '+' || cs[i] == '-') {
        neg = cs[i] == '-';
        i += 1;
    }
    let ghost body = cs@.subrange(i as int, end as int);
    assert(body =~= if s.len() > 0 && (s[0] == '+' || s[0] == '-') {
        s.subrange(1, s.len() as int)
    } else {
        s
    });
    let mag = parse_u64_magnitude(cs, i, end);
    match mag {
        Option::None => None,
        Option::Some(m) => {
            if neg {
                if m <= 0x8000_0000_0000_0000 {
                    if m == 0x8000_0000_0000_0000 {
                        Some(i64::MIN)
                    } else {
                        Some(0 - (m as i64))
                    }
                } else {
                    None
                }
            } else {
                if m <= i64::MAX as u64 {
                    Some(m as i64)
                } else {
                    None
                }
            }
        },
    }
}

/// Digits-only magnitude of `cs[start..end]`: `Some` exactly when the range
/// is nonempty, all digits, and the value fits in a `u64`.
#[verifier::loop_isolation(false)]
fn parse_u64_magnitude(cs: &Vec<char>, start: usize, end: usize) -> (r: Option<u64>)
    requires
        start <= end <= cs@.len(),
    ensures
        ({
            let body = cs@.subrange(start as int, end as int);
            if body.len() > 0 && all_digits(body) && digits_val(body) <= u64::MAX {
                r == Some(digits_val(body) as u64)
            } else {
                r is None
            }
        }),
{
    let ghost body = cs@.subrange(start as int, end as int);
    if start == end {
        return None;
    }
    let mut acc: u64 = 0;
    let mut j: usize = start;
    while j < end
        invariant
            start <= j <= end <= cs@.len(),
            body == cs@.subrange(start as int, end as int),
            all_digits(body.take(j - start)),
            acc == digits_val(body.take(j - start)),
        decreases end - j,
    {
        let c = cs[j];
        let cv = c as u32;
        if !(48 <= cv && cv <= 57) {
            assert(body[j - start] == cs@[j as int]);
            return None;
        }
        let d: u64 = (cv - 48) as u64;
        if acc > (u64::MAX - d) / 10 {
            proof {
                lemma_digits_val_step(body, j - start);
                assert(digits_val(body.take(j - start + 1)) > u64::MAX) by {
                    assert(acc * 10 + d > u64::MAX) by (nonlinear_arith)
                        requires
                            acc > (u64::MAX - d) / 10,
                            d <= 9,
                    ;
                };
                lemma_digits_val_mono(body, j - start + 1, body.len() as int);
                assert(body.take(body.len() as int) =~= body);
            }
            return None;
        }
        proof {
            lemma_digits_val_step(body, j - start);
            assert(acc * 10 + d <= u64::MAX) by (nonlinear_arith)
                requires
                    acc <= (u64::MAX - d) / 10,
                    d <= 9,
            ;
            assert(body[j - start] == cs@[j as int]);
            assert(body.take(j - start + 1) =~= body.take(j - start).push(cs@[j as int]));
        }
        acc = acc * 10 + d;
        j += 1;
    }
    proof {
        assert(body.take(body.len() as int) =~= body);
    }
    Some(acc)
}

/// Decimal rendering of `n`, most significant digit first, no sign and no
/// leading zeros (except for zero itself).
pub open spec fn dec_str(n: nat) -> Seq<char>
    decreases n,
{
    if n < 10 {
        seq![dec_digit(n)]
    } else {
        dec_str(n / 10) + seq![dec_digit(n % 10)]
    }
}

pub open spec fn dec_digit(d: nat) -> char {
    if d == 0 {
        '0'
    } else if d == 1 {
        '1'
    } else if d == 2 {
        '2'
    } else if d == 3 {
        '3'
    } else if d == 4 {
        '4'
    } else if d == 5 {
        '5'
    } else if d == 6 {
        '6'
    } else if d == 7 {
        '7'
    } else if d == 8 {
        '8'
    } else {
        '9'
    }
}

fn dec_digit_str(d: u64) -> (r: &'static str)
    requires
        d < 10,
    ensures
        r@ =~= seq![dec_digit(d as nat)],
{
    proof {
        reveal_strlit("0");
        reveal_strlit("1");
        reveal_strlit("2");
        reveal_strlit("3");
        reveal_strlit("4");
        reveal_strlit("5");
        reveal_strlit("6");
        reveal_strlit("7");
        reveal_strlit("8");
        reveal_strlit("9");
    }
    if d == 0 {
        "0"
    } else if d == 1 {
        "1"
    } else if d == 2 {
        "2"
    } else if d == 3 {
        "3"
    } else if d == 4 {
        "4"
    } else if d == 5 {
        "5"
    } else if d == 6 {
        "6"
    } else if d == 7 {
        "7"
    } else if d == 8 {
        "8"
    } else {
        "9"
    }
}

/// Render `n` in decimal.
pub fn u64_to_string(n: u64) -> (r: String)
    ensures
        r@ == dec_str(n as nat),
    decreases n,
{
    if n < 10 {
        dec_digit_str(n).to_owned()
    } else {
        let prefix = u64_to_string(n / 10);
        let r = prefix.concat(dec_digit_str(n % 10));
        assert(r@ =~= dec_str(n as nat));
        r
    }
}

} // verus!
