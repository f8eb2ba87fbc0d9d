use vstd::prelude::*;

verus! {

pub open spec fn is_digit(c: char) -> bool {
    '0' <= c && c <= '9'
}

pub open spec fn digit_val(c: char) -> nat {
    (c as nat - '0' as nat) as nat
}

pub open spec fn digit_char(d: nat) -> char {
    if d == 0 { '0' }
    else if d == 1 { '1' }
    else if d == 2 { '2' }
    else if d == 3 { '3' }
    else if d == 4 { '4' }
    else if d == 5 { '5' }
    else if d == 6 { '6' }
    else if d == 7 { '7' }
    else if d == 8 { '8' }
    else { '9' }
}

/// The decimal rendering of `n`, most significant digit first, no leading zeros.
pub open spec fn dec_chars(n: nat) -> Seq<char>
    decreases n,
{
    if n < 10 {
        seq![digit_char(n)]
    } else {
        dec_chars(n / 10).push(digit_char(n % 10))
    }
}

/// The number a digit string stands for.
pub open spec fn val_of(s: Seq<char>) -> nat
    decreases s.len(),
{
    if s.len() == 0 {
        0
    } else {
        val_of(s.drop_last()) * 10 + digit_val(s.last())
    }
}

pub open spec fn all_digits(s: Seq<char>) -> bool {
    forall|i: int| 0 <= i < s.len() ==> is_digit(#[trigger] s[i])
}

pub proof fn lemma_dec_chars_digits(n: nat)
    ensures
        dec_chars(n).len() >= 1,
        all_digits(dec_chars(n)),
        dec_chars(n)[0] == '0' <==> n == 0,
    decreases n,
{
    if n < 10 {
    } else {
        lemma_dec_chars_digits(n / 10);
        assert(dec_chars(n) == dec_chars(n / 10).push(digit_char(n % 10)));
        assert(dec_chars(n)[0] == dec_chars(n / 10)[0]);
    }
}

pub proof fn lemma_val_of_dec_chars(n: nat)
    ensures
        val_of(dec_chars(n)) == n,
    decreases n,
{
    if n < 10 {
        assert(dec_chars(n) == seq![digit_char(n)]);
        assert(dec_chars(n).drop_last() =~= Seq::<char>::empty());
        assert(dec_chars(n).last() == digit_char(n));
        assert(digit_val(digit_char(n)) == n);
        assert(val_of(Seq::<char>::empty()) == 0);
        assert(val_of(dec_chars(n)) == val_of(Seq::<char>::empty()) * 10 + digit_val(digit_char(n)));
    } else {
        lemma_val_of_dec_chars(n / 10);
        let s = dec_chars(n / 10).push(digit_char(n % 10));
        assert(dec_chars(n) == s);
        assert(s.drop_last() =~= dec_chars(n / 10));
        assert(s.last() == digit_char(n % 10));
        assert(digit_val(digit_char(n % 10)) == n % 10);
        assert(val_of(s) == val_of(dec_chars(n / 10)) * 10 + digit_val(digit_char(n % 10)));
    }
}

/// How many digits stand at the front of `s`.
pub open spec fn digit_run(s: Seq<char>) -> nat
    decreases s.len(),
{
    if s.len() == 0 || !is_digit(s[0]) {
        0
    } else {
        (1 + digit_run(s.skip(1))) as nat
    }
}

pub proof fn lemma_digit_run_le(s: Seq<char>)
    ensures
        digit_run(s) <= s.len(),
    decreases s.len(),
{
    if s.len() > 0 && is_digit(s[0]) {
        lemma_digit_run_le(s.skip(1));
    }
}

/// `digit_run` is exactly the first point where the digits stop.
pub proof fn lemma_digit_run_characterize(s: Seq<char>, k: nat)
    requires
        k <= s.len(),
        forall|i: int| 0 <= i < k ==> is_digit(#[trigger] s[i]),
        k == s.len() || !is_digit(s[k as int]),
    ensures
        digit_run(s) == k,
    decreases s.len(),
{
    if s.len() == 0 {
    } else if !is_digit(s[0]) {
        assert(k == 0);
    } else {
        assert(k >= 1);
        let t = s.skip(1);
        assert(forall|i: int| 0 <= i < k - 1 ==> is_digit(#[trigger] t[i]));
        if k < s.len() {
            assert(t[k - 1] == s[k as int]);
        }
        lemma_digit_run_characterize(t, (k - 1) as nat);
    }
}

/// The strict decimal-number parse used by the stored document: a nonempty
/// digit run, no leading zero, value within `u32`.
pub open spec fn parse_num(s: Seq<char>) -> Option<(u32, Seq<char>)> {
    let k = digit_run(s);
    if k == 0 {
        None
    } else if k > 1 && s[0] == '0' {
        None
    } else if val_of(s.take(k as int)) > u32::MAX {
        None
    } else {
        Some((val_of(s.take(k as int)) as u32, s.skip(k as int)))
    }
}

pub proof fn lemma_val_of_take_step(s: Seq<char>, m: int)
    requires
        0 <= m < s.len(),
    ensures
        val_of(s.take(m + 1)) == val_of(s.take(m)) * 10 + digit_val(s[m]),
{
    assert(s.take(m + 1).drop_last() =~= s.take(m));
    assert(s.take(m + 1).last() == s[m]);
}

pub proof fn lemma_val_of_take_mono(s: Seq<char>, m: int, k: int)
    requires
        0 <= m <= k <= s.len(),
    ensures
        val_of(s.take(m)) <= val_of(s.take(k)),
    decreases k - m,
{
    if m < k {
        lemma_val_of_take_mono(s, m + 1, k);
        lemma_val_of_take_step(s, m);
    }
}

/// A decimal rendering followed by anything that is not a digit parses back
/// to the number it came from.
pub proof fn lemma_parse_num_round_trip(n: u32, r: Seq<char>)
    requires
        r.len() == 0 || !is_digit(r[0]),
    ensures
        parse_num(dec_chars(n as nat) + r) == Some((n, r)),
{
    let d = dec_chars(n as nat);
    let s = d + r;
    lemma_dec_chars_digits(n as nat);
    lemma_val_of_dec_chars(n as nat);
    assert(forall|i: int| 0 <= i < d.len() ==> is_digit(#[trigger] s[i]));
    if d.len() < s.len() {
        assert(s[d.len() as int] == r[0]);
    }
    lemma_digit_run_characterize(s, d.len());
    assert(s.take(d.len() as int) =~= d);
    assert(s.skip(d.len() as int) =~= r);
    assert(s[0] == d[0]);
}

fn exec_digit_char(d: u32) -> (r: char)
    requires
        d < 10,
    ensures
        r == digit_char(d as nat),
{
    match d {
        0 => '0',
        1 => '1',
        2 => '2',
        3 => '3',
        4 => '4',
        5 => '5',
        6 => '6',
        7 => '7',
        8 => '8',
        _ => '9',
    }
}

/// The decimal digits of `n`, most significant first.
pub fn u32_to_chars(n: u32) -> (r: Vec<char>)
    ensures
        r@ == dec_chars(n as nat),
    decreases n,
{
    if n < 10 {
        let mut v: Vec<char> = Vec::new();
        v.push(exec_digit_char(n));
        proof {
            assert(v@ =~= seq![digit_char(n as nat)]);
        }
        v
    } else {
        let mut v = u32_to_chars(n / 10);
        v.push(exec_digit_char(n % 10));
        v
    }
}

/// Reads the digit run starting at `i`; `Some((n, j))` means the run stood
/// for `n` and ended at `j`, under the strict rules of `parse_num`.
pub fn parse_u32_at(v: &Vec<char>, i: usize) -> (r: Option<(u32, usize)>)
    requires
        i <= v@.len(),
    ensures
        match r {
            Some(p) => {
                &&& i <= p.1 <= v@.len()
                &&& parse_num(v@.skip(i as int)) == Some((p.0, v@.skip(p.1 as int)))
            },
            None => parse_num(v@.skip(i as int)) is None,
        },
{
    let ghost s = v@.skip(i as int);
    let mut j: usize = i;
    loop
        invariant
            i <= j <= v@.len(),
            s == v@.skip(i as int),
            forall|m: int| 0 <= m < j - i ==> is_digit(#[trigger] s[m]),
        ensures
            i <= j <= v@.len(),
            forall|m: int| 0 <= m < j - i ==> is_digit(#[trigger] s[m]),
            j == v@.len() || !is_digit(s[(j - i) as int]),
        decreases v@.len() - j,
    {
        if j == v.len() {
            break;
        }
        let c = v[j];
        proof {
            assert(s[(j - i) as int] == v@[j as int]);
        }
        if !('0' <= c && c <= '9') {
            break;
        }
        j = j + 1;
    }
    proof {
        lemma_digit_run_characterize(s, (j - i) as nat);
    }
    let k = j - i;
    if k == 0 {
        return None;
    }
    if k > 1 && v[i] == '0' {
        proof {
            assert(s[0] == v@[i as int]);
        }
        return None;
    }
    let vlen: usize = v.len();
    proof {
        assert(vlen == v@.len());
        assert(v@.len() <= usize::MAX);
    }
    let mut val: u64 = 0;
    let mut m: usize = 0;
    while m < k
        invariant
            0 <= m <= k,
            i + k <= v@.len(),
            v@.len() <= usize::MAX,
            k as nat == digit_run(s),
            s == v@.skip(i as int),
            forall|t: int| 0 <= t < k ==> is_digit(#[trigger] s[t]),
            val as nat == val_of(s.take(m as int)),
            val <= u32::MAX,
        decreases k - m,
    {
        let c = v[i + m];
        proof {
            assert(s[m as int] == v@[(i + m) as int]);
        }
        let d: u64 = (c as u64) - 48;
        proof {
            assert(is_digit(s[m as int]));
            assert(d == digit_val(s[m as int]));
            lemma_val_of_take_step(s, m as int);
        }
        val = val * 10 + d;
        if val > 0xFFFF_FFFFu64 {
            proof {
                assert(val_of(s.take(m + 1)) > u32::MAX);
                lemma_val_of_take_mono(s, m + 1, k as int);
            }
            return None;
        }
        m = m + 1;
    }
    proof {
        assert(s.take(k as int).len() == k);
        assert(v@.skip(j as int) =~= s.skip(k as int));
    }
    Some((val as u32, j))
}

/// The number a whole piece of user input stands for: an optional leading
/// plus sign, then decimal digits whose value fits in `u32`; leading
/// zeros are allowed.
pub open spec fn u32_from_decimal(s: Seq<char>) -> Option<u32> {
    let digits = if s.len() > 0 && s[0] == '+' {
        s.skip(1)
    } else {
        s
    };
    if digits.len() > 0 && all_digits(digits) && val_of(digits) <= u32::MAX {
        Some(val_of(digits) as u32)
    } else {
        None
    }
}

/// The rejection a caller sees for input that is not a number.
#[derive(Clone, Copy, Debug, PartialEq, Eq, Structural)]
pub struct ParseNumError;

/// Reads a whole string as a decimal `u32`, with one optional leading
/// plus sign.
pub fn parse_u32(s: &str) -> (r: Result<u32, ParseNumError>)
    ensures
        match u32_from_decimal(s@) {
            Some(n) => r == Ok::<u32, ParseNumError>(n),
            None => r == Err::<u32, ParseNumError>(ParseNumError),
        },
{
    let n = s.unicode_len();
    if n == 0 {
        return Err(ParseNumError);
    }
    let start: usize = if s.get_char(0) == '+' {
        1
    } else {
        0
    };
    let ghost digits = s@.skip(start as int);
    proof {
        if start == 0 {
            assert(digits =~= s@);
        }
    }
    if start == n {
        return Err(ParseNumError);
    }
    let mut val: u64 = 0;
    let mut m: usize = start;
    while m < n
        invariant
            start <= m <= n,
            start <= 1,
            start < n,
            n as nat == s@.len(),
            s@.len() > 0,
            start == 1 <==> s@[0] == '+',
            digits == s@.skip(start as int),
            digits.len() == n - start,
            forall|t: int| 0 <= t < m - start ==> is_digit(#[trigger] digits[t]),
            val as nat == val_of(digits.take((m - start) as int)),
            val <= u32::MAX,
        decreases n - m,
    {
        let c = s.get_char(m);
        proof {
            assert(digits[(m - start) as int] == s@[m as int]);
        }
        if !('0' <= c && c <= '9') {
            return Err(ParseNumError);
        }
        let d: u64 = (c as u64) - 48;
        proof {
            assert(d == digit_val(digits[(m - start) as int]));
            lemma_val_of_take_step(digits, (m - start) as int);
        }
        val = val * 10 + d;
        if val > 0xFFFF_FFFFu64 {
            proof {
                assert(val_of(digits.take((m - start) + 1)) > u32::MAX);
                lemma_val_of_take_mono(digits, (m - start) + 1, digits.len() as int);
                assert(digits.take(digits.len() as int) =~= digits);
                assert(val_of(digits) > u32::MAX);
                let ds = if s@.len() > 0 && s@[0] == '+' { s@.skip(1) } else { s@ };
                assert(ds == digits);
                assert(val_of(ds) > u32::MAX);
                assert(u32_from_decimal(s@) is None);
            }
            return Err(ParseNumError);
        }
        m = m + 1;
    }
    proof {
        assert(digits.take((n - start) as int) =~= digits);
    }
    Ok(val as u32)
}

/// Reads `input` as a number (an optional plus sign, then digits) and
/// tells whether it lies in `[start, end]`; input that is not a number is
/// an error.
pub fn validate_choice(input: &str, start: u32, end: u32) -> (r: Result<bool, ParseNumError>)
    ensures
        match u32_from_decimal(input@) {
            Some(n) => r == Ok::<bool, ParseNumError>(start <= n && n <= end),
            None => r == Err::<bool, ParseNumError>(ParseNumError),
        },
{
    match parse_u32(input) {
        Ok(value) => Ok(start <= value && value <= end),
        Err(e) => Err(e),
    }
}

} // verus!
