//! Dollar amounts as the user edits them: the decimal text of an amount held
//! in nano-dollars, and the amount that an edited text stands for.
use vstd::prelude::*;
use crate::text::{decimal, digit_char, decimal_chars, push_chars, string_of};

verus! {

pub open spec fn is_digit(c: char) -> bool {
    '0' <= c && c <= '9'
}

/// Text that the amount editor can hold: digits and at most one '.'.
pub open spec fn buffer_ok(s: Seq<char>) -> bool {
    &&& forall|i: int| 0 <= i < s.len() ==> is_digit(#[trigger] s[i]) || s[i] == '.'
    &&& forall|i: int, j: int|
        0 <= i < s.len() && 0 <= j < s.len() && #[trigger] s[i] == '.' && #[trigger] s[j] == '.'
            ==> i == j
}

/// The `width` lowest decimal digits of `f`, with leading zeros.
pub open spec fn padded_digits(f: nat, width: nat) -> Seq<char>
    decreases width,
{
    if width == 0 {
        seq![]
    } else {
        padded_digits(f / 10, (width - 1) as nat).push(digit_char((f % 10) as int))
    }
}

/// `s` without its trailing '0' characters.
pub open spec fn strip_trailing_zeros(s: Seq<char>) -> Seq<char>
    decreases s.len(),
{
    if s.len() > 0 && s.last() == '0' {
        strip_trailing_zeros(s.drop_last())
    } else {
        s
    }
}

/// The shortest decimal text of `x` nano-dollars in dollars: whole dollars,
/// then, when there is a fractional part, '.' and its digits without
/// trailing zeros (12_500_000_000 is "12.5", 100_000_000_000 is "100").
pub open spec fn amount_text(x: nat) -> Seq<char> {
    let whole = x / 1_000_000_000;
    let frac = x % 1_000_000_000;
    if frac == 0 {
        decimal(whole)
    } else {
        decimal(whole) + seq!['.'] + strip_trailing_zeros(padded_digits(frac, 9))
    }
}

/// The number a string of decimal digits denotes (0 for the empty string).
pub open spec fn digits_value(s: Seq<char>) -> nat
    decreases s.len(),
{
    if s.len() == 0 {
        0
    } else {
        digits_value(s.drop_last()) * 10 + ((s.last() as int - 48) as nat)
    }
}

pub open spec fn zeros(n: nat) -> Seq<char> {
    Seq::new(n, |i: int| '0')
}

/// The first nine digits after the decimal point, padded with zeros.
pub open spec fn nine_digits(t: Seq<char>) -> Seq<char> {
    if t.len() >= 9 {
        t.take(9)
    } else {
        t + zeros((9 - t.len()) as nat)
    }
}

/// The digits after a decimal point go on past a nano-dollar, and the
/// first of those further digits is 5 or more.
pub open spec fn rounds_up(t: Seq<char>) -> bool {
    t.len() > 9 && t[9] >= '5'
}

/// The nano-dollars that the digits after a decimal point stand for,
/// rounded to the nearest nano-dollar (a half rounds up): the first nine
/// digits, plus one when the digits past them make half a nano-dollar or
/// more.
pub open spec fn frac_value(t: Seq<char>) -> nat {
    digits_value(nine_digits(t)) + if rounds_up(t) {
        1nat
    } else {
        0nat
    }
}

/// The amount, in nano-dollars, that an edited text stands for: none for
/// the empty text and for a lone '.', otherwise whole dollars before the
/// point (none written means zero) and the fraction after it, rounded to
/// the nearest nano-dollar.
pub open spec fn spec_parse_amount(s: Seq<char>) -> Option<nat> {
    if s.len() == 0 || s == seq!['.'] {
        None
    } else if exists|k: int| 0 <= k < s.len() && s[k] == '.' {
        let k = choose|k: int| 0 <= k < s.len() && s[k] == '.';
        Some(digits_value(s.take(k)) * 1_000_000_000 + frac_value(s.skip(k + 1)))
    } else {
        Some(digits_value(s) * 1_000_000_000)
    }
}

/// The amount of an edited text, where it fits in a `u128`.
pub open spec fn spec_parse_amount_u128(s: Seq<char>) -> Option<u128> {
    match spec_parse_amount(s) {
        Some(v) => if v <= u128::MAX {
            Some(v as u128)
        } else {
            None
        },
        None => None,
    }
}

fn padded_chars(f: u128, width: usize) -> (v: Vec<char>)
    ensures
        v@ == padded_digits(f as nat, width as nat),
    decreases width,
{
    if width == 0 {
        Vec::new()
    } else {
        let mut v = padded_chars(f / 10, width - 1);
        v.push((48u8 + ((f % 10) as u8)) as char);
        v
    }
}

fn strip_zeros_chars(v: &Vec<char>) -> (r: Vec<char>)
    ensures
        r@ == strip_trailing_zeros(v@),
{
    let mut n = v.len();
    assert(v@.subrange(0, n as int) =~= v@);
    while n > 0 && v[n - 1] == '0'
        invariant
            n <= v.len(),
            strip_trailing_zeros(v@) == strip_trailing_zeros(v@.subrange(0, n as int)),
        decreases n,
    {
        assert(v@.subrange(0, n as int).drop_last() =~= v@.subrange(0, n - 1));
        n = n - 1;
    }
    crate::text::slice_chars(v, 0, n)
}

/// The decimal text of an amount of nano-dollars.
pub fn amount_chars(x: u128) -> (v: Vec<char>)
    ensures
        v@ == amount_text(x as nat),
{
    let whole = x / 1_000_000_000;
    let frac = x % 1_000_000_000;
    let mut out = decimal_chars(whole);
    if frac != 0 {
        out.push('.');
        let p = padded_chars(frac, 9);
        let q = strip_zeros_chars(&p);
        push_chars(&mut out, &q);
    }
    out
}

/// The editable text of an optional amount: empty when there is none.
pub fn fmt_opt(v: Option<u128>) -> (s: String)
    ensures
        s@ == (match v {
            Some(x) => amount_text(x as nat),
            None => Seq::<char>::empty(),
        }),
{
    match v {
        Some(x) => string_of(&amount_chars(x)),
        None => String::new(),
    }
}

/// A prefix of a string of digits denotes no more than the whole string.
pub proof fn lemma_digits_value_prefix(s: Seq<char>, i: int)
    requires
        0 <= i <= s.len(),
        forall|j: int| 0 <= j < s.len() ==> is_digit(#[trigger] s[j]),
    ensures
        digits_value(s.take(i)) <= digits_value(s),
    decreases s.len(),
{
    if i < s.len() {
        assert(s.drop_last().take(i) =~= s.take(i));
        assert forall|j: int| 0 <= j < s.drop_last().len() implies is_digit(
            #[trigger] s.drop_last()[j],
        ) by {
            assert(s.drop_last()[j] == s[j]);
        }
        lemma_digits_value_prefix(s.drop_last(), i);
    } else {
        assert(s.take(i) =~= s);
    }
}

/// The value of digits `s`, where it fits in a `u128`.
fn digits_value_u128(s: &Vec<char>, from: usize, to: usize) -> (r: Option<u128>)
    requires
        from <= to <= s.len(),
        forall|j: int| from <= j < to ==> is_digit(#[trigger] s@[j]),
    ensures
        r == (if digits_value(s@.subrange(from as int, to as int)) <= u128::MAX {
            Some(digits_value(s@.subrange(from as int, to as int)) as u128)
        } else {
            None
        }),
{
    let ghost t = s@.subrange(from as int, to as int);
    let mut acc: u128 = 0;
    let mut i = from;
    assert(s@.subrange(from as int, from as int) =~= Seq::<char>::empty());
    while i < to
        invariant
            from <= i <= to <= s.len(),
            t == s@.subrange(from as int, to as int),
            forall|j: int| from <= j < to ==> is_digit(#[trigger] s@[j]),
            acc == digits_value(s@.subrange(from as int, i as int)),
        decreases to - i,
    {
        let d = (s[i] as u32 - 48) as u128;
        assert(is_digit(s@[i as int]));
        assert(s@.subrange(from as int, i + 1).drop_last() =~= s@.subrange(from as int, i as int));
        match acc.checked_mul(10) {
            Some(a10) => match a10.checked_add(d) {
                Some(a) => {
                    acc = a;
                },
                None => {
                    proof {
                        assert forall|j: int| 0 <= j < t.len() implies is_digit(#[trigger] t[j]) by {
                            assert(t[j] == s@[from + j]);
                        }
                        lemma_digits_value_prefix(t, i + 1 - from);
                        assert(t.take(i + 1 - from) =~= s@.subrange(from as int, i + 1));
                    }
                    return None;
                },
            },
            None => {
                proof {
                    assert forall|j: int| 0 <= j < t.len() implies is_digit(#[trigger] t[j]) by {
                        assert(t[j] == s@[from + j]);
                    }
                    lemma_digits_value_prefix(t, i + 1 - from);
                    assert(t.take(i + 1 - from) =~= s@.subrange(from as int, i + 1));
                }
                return None;
            },
        }
        i = i + 1;
    }
    Some(acc)
}

/// The amount, in nano-dollars, that an edited text stands for.
pub fn parse_amount(s: &Vec<char>) -> (r: Option<u128>)
    requires
        buffer_ok(s@),
    ensures
        r == spec_parse_amount_u128(s@),
{
    let n = s.len();
    if n == 0 {
        return None;
    }
    if n == 1 && s[0] == '.' {
        assert(s@ =~= seq!['.']);
        return None;
    }
    assert(s@ != seq!['.']) by {
        if n == 1 {
            assert(s@[0] != seq!['.'][0]);
        }
    }
    let mut k: usize = 0;
    while k < n && s[k] != '.'
        invariant
            n == s.len(),
            k <= n,
            forall|j: int| 0 <= j < k ==> s@[j] != '.',
        decreases n - k,
    {
        k = k + 1;
    }
    if k == n {
        assert(!exists|j: int| 0 <= j < s.len() && s@[j] == '.');
        assert(s@.subrange(0, n as int) =~= s@);
        match digits_value_u128(s, 0, n) {
            Some(w) => w.checked_mul(1_000_000_000),
            None => None,
        }
    } else {
        proof {
            let c = choose|j: int| 0 <= j < s.len() && s@[j] == '.';
            assert(c == k);
            assert(s@.take(k as int) =~= s@.subrange(0, k as int));
        }
        let whole = digits_value_u128(s, 0, k);
        let ghost t = s@.skip(k + 1);
        // the first nine digits after the point, zero-padded
        let mut frac: u128 = 0;
        let mut i: usize = 0;
        let ghost nd = nine_digits(t);
        assert(nd.len() == 9);
        while i < 9
            invariant
                n == s.len(),
                k < n,
                buffer_ok(s@),
                s@[k as int] == '.',
                t == s@.skip(k + 1),
                nd == nine_digits(t),
                nd.len() == 9,
                i <= 9,
                frac == digits_value(nd.take(i as int)),
                frac < 1_000_000_000,
                digits_value(nd.take(i as int)) < crate::amount::pow10(i as nat),
            decreases 9 - i,
        {
            let d: u128 = if i < n - (k + 1) {
                assert(t[i as int] == s@[k + 1 + i]);
                assert(s@[k + 1 + i] != '.');
                assert(nd[i as int] == t[i as int]);
                (s[k + 1 + i] as u32 - 48) as u128
            } else {
                assert(nd[i as int] == '0');
                0
            };
            assert(nd.take(i + 1).drop_last() =~= nd.take(i as int));
            proof {
                lemma_pow10_step(frac as nat, i as nat, d as nat);
            }
            frac = frac * 10 + d;
            i = i + 1;
        }
        assert(nd.take(9) =~= nd);
        if n - (k + 1) > 9 && s[k + 1 + 9] >= '5' {
            assert(t[9] == s@[k + 1 + 9]);
            frac = frac + 1;
        } else {
            proof {
                if t.len() > 9 {
                    assert(t[9] == s@[k + 1 + 9]);
                }
            }
        }
        match whole {
            Some(w) => match w.checked_mul(1_000_000_000) {
                Some(wn) => wn.checked_add(frac),
                None => None,
            },
            None => None,
        }
    }
}

pub open spec fn pow10(n: nat) -> nat
    decreases n,
{
    if n == 0 {
        1
    } else {
        10 * pow10((n - 1) as nat)
    }
}

proof fn lemma_pow10_step(v: nat, i: nat, d: nat)
    requires
        v < pow10(i),
        d < 10,
        i < 9,
    ensures
        v * 10 + d < pow10(i + 1),
        pow10(i + 1) <= 1_000_000_000,
{
    reveal_with_fuel(pow10, 10);
    assert(pow10(i + 1) == 10 * pow10(i));
    assert(pow10(1) == 10);
    assert(pow10(2) == 100);
    assert(pow10(3) == 1000);
    assert(pow10(4) == 10000);
    assert(pow10(5) == 100000);
    assert(pow10(6) == 1000000);
    assert(pow10(7) == 10000000);
    assert(pow10(8) == 100000000);
    assert(pow10(9) == 1000000000);
    assert(v * 10 + d < 10 * pow10(i)) by (nonlinear_arith)
        requires
            v < pow10(i),
            d < 10,
    ;
}

proof fn lemma_digit_char(d: int)
    requires
        0 <= d < 10,
    ensures
        is_digit(digit_char(d)),
        digit_char(d) as int - 48 == d,
{
}

/// The decimal text of a number is a non-empty string of digits that
/// denotes the number.
pub proof fn lemma_decimal_digits(n: nat)
    ensures
        forall|i: int| 0 <= i < decimal(n).len() ==> is_digit(#[trigger] decimal(n)[i]),
        decimal(n).len() > 0,
        digits_value(decimal(n)) == n,
    decreases n,
{
    lemma_digit_char((n % 10) as int);
    if n >= 10 {
        lemma_decimal_digits(n / 10);
        assert(decimal(n).drop_last() =~= decimal(n / 10));
        assert(decimal(n).last() == digit_char((n % 10) as int));
        assert(n == (n / 10) * 10 + n % 10);
        assert(digits_value(decimal(n)) == digits_value(decimal(n / 10)) * 10 + (n % 10));
        assert(digits_value(decimal(n)) == n);
        assert forall|i: int| 0 <= i < decimal(n).len() implies is_digit(#[trigger] decimal(n)[i]) by {
            if i < decimal(n / 10).len() {
                assert(decimal(n)[i] == decimal(n / 10)[i]);
            }
        }
    } else {
        assert(decimal(n).drop_last() =~= Seq::<char>::empty());
        assert(decimal(n).last() == digit_char(n as int));
        assert(digits_value(decimal(n)) == digits_value(Seq::<char>::empty()) * 10 + (n % 10));
        assert(digits_value(decimal(n)) == n);
    }
}

proof fn lemma_padded_digits(f: nat, w: nat)
    requires
        f < pow10(w),
    ensures
        padded_digits(f, w).len() == w,
        forall|i: int| 0 <= i < w ==> is_digit(#[trigger] padded_digits(f, w)[i]),
        digits_value(padded_digits(f, w)) == f,
    decreases w,
{
    if w > 0 {
        let p = (w - 1) as nat;
        assert(f / 10 < pow10(p)) by (nonlinear_arith)
            requires
                f < 10 * pow10(p),
        ;
        lemma_padded_digits(f / 10, p);
        lemma_digit_char((f % 10) as int);
        assert(padded_digits(f, w).drop_last() =~= padded_digits(f / 10, p));
        assert forall|i: int| 0 <= i < w implies is_digit(#[trigger] padded_digits(f, w)[i]) by {
            if i < p {
                assert(padded_digits(f, w)[i] == padded_digits(f / 10, p)[i]);
            }
        }
    }
}

proof fn lemma_strip_trailing_zeros(s: Seq<char>)
    ensures
        exists|m: int|
            0 <= m <= s.len() && strip_trailing_zeros(s) == s.take(m) && forall|j: int|
                m <= j < s.len() ==> s[j] == '0',
    decreases s.len(),
{
    if s.len() > 0 && s.last() == '0' {
        lemma_strip_trailing_zeros(s.drop_last());
        let m = choose|m: int|
            0 <= m <= s.drop_last().len() && strip_trailing_zeros(s.drop_last())
                == s.drop_last().take(m) && forall|j: int|
                m <= j < s.drop_last().len() ==> s.drop_last()[j] == '0';
        assert(s.drop_last().take(m) =~= s.take(m));
        assert forall|j: int| m <= j < s.len() implies s[j] == '0' by {
            if j < s.len() - 1 {
                assert(s.drop_last()[j] == s[j]);
            }
        }
    } else {
        assert(s.take(s.len() as int) =~= s);
    }
}

/// The text of an amount is always one that the amount editor can hold.
pub proof fn lemma_amount_text_ok(x: nat)
    ensures
        buffer_ok(amount_text(x)),
        amount_text(x).len() > 0,
{
    reveal_with_fuel(pow10, 10);
    let whole = x / 1_000_000_000;
    let frac = x % 1_000_000_000;
    lemma_decimal_digits(whole);
    let d = decimal(whole);
    if frac != 0 {
        lemma_padded_digits(frac, 9);
        let p = padded_digits(frac, 9);
        lemma_strip_trailing_zeros(p);
        let q = strip_trailing_zeros(p);
        let t = d + seq!['.'] + q;
        assert(t == amount_text(x));
        assert forall|i: int| 0 <= i < t.len() implies is_digit(#[trigger] t[i]) || t[i] == '.' by {
            if i < d.len() {
                assert(t[i] == d[i]);
            } else if i > d.len() {
                assert(t[i] == q[i - d.len() - 1]);
                assert(q[i - d.len() - 1] == p[i - d.len() - 1]);
            }
        }
        assert forall|i: int, j: int|
            0 <= i < t.len() && 0 <= j < t.len() && #[trigger] t[i] == '.' && #[trigger] t[j]
                == '.' implies i == j by {
            if i < d.len() {
                assert(t[i] == d[i]);
            } else if i > d.len() {
                assert(t[i] == q[i - d.len() - 1]);
                assert(q[i - d.len() - 1] == p[i - d.len() - 1]);
            }
            if j < d.len() {
                assert(t[j] == d[j]);
            } else if j > d.len() {
                assert(t[j] == q[j - d.len() - 1]);
                assert(q[j - d.len() - 1] == p[j - d.len() - 1]);
            }
        }
    }
}

/// Reading back the text of an amount gives the amount: the editor opened
/// on a configured amount and confirmed unchanged keeps that amount.
pub proof fn law_amount_text_round_trip(x: nat)
    ensures
        spec_parse_amount(amount_text(x)) == Some(x),
{
    reveal_with_fuel(pow10, 10);
    lemma_amount_text_ok(x);
    let whole = x / 1_000_000_000;
    let frac = x % 1_000_000_000;
    lemma_decimal_digits(whole);
    let d = decimal(whole);
    let t = amount_text(x);
    if frac == 0 {
        assert(t == d);
        if t == seq!['.'] {
            assert(is_digit(t[0]));
        }
        assert(!exists|k: int| 0 <= k < t.len() && t[k] == '.') by {
            assert forall|k: int| 0 <= k < t.len() implies t[k] != '.' by {
                assert(is_digit(d[k]));
            }
        }
    } else {
        lemma_padded_digits(frac, 9);
        let p = padded_digits(frac, 9);
        lemma_strip_trailing_zeros(p);
        let q = strip_trailing_zeros(p);
        let m = choose|m: int|
            0 <= m <= p.len() && q == p.take(m) && forall|j: int| m <= j < p.len() ==> p[j] == '0';
        assert(t == d + seq!['.'] + q);
        let k = d.len() as int;
        assert(t[k] == '.');
        let c = choose|c: int| 0 <= c < t.len() && t[c] == '.';
        assert(c == k);
        assert(t.take(k) =~= d);
        assert(t.skip(k + 1) =~= q);
        assert(nine_digits(q) =~= p) by {
            if q.len() >= 9 {
                assert(q =~= p);
            } else {
                assert forall|j: int| 0 <= j < 9 implies #[trigger] nine_digits(q)[j] == p[j] by {
                    if j >= m {
                        assert(p[j] == '0');
                    }
                }
            }
        }
        assert(t != seq!['.']) by {
            assert(t.len() > 1);
        }
        assert(!rounds_up(q));
    }
}

} // verus!
