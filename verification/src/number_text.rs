//! Recognition of the text of a floating-point number, by the grammar that the
//! standard library documents for parsing `f64` (after lowercasing):
//!
//! ```text
//! Float  ::= Sign? ( 'inf' | 'infinity' | 'nan' | Number )
//! Number ::= ( Digit+ | Digit+ '.' Digit* | Digit* '.' Digit+ ) Exp?
//! Exp    ::= 'e' Sign? Digit+
//! Sign   ::= [+-]
//! Digit  ::= [0-9]
//! ```

use vstd::prelude::*;

verus! {

broadcast use vstd::string::group_string_axioms;

pub open spec fn is_digit(c: char) -> bool {
    '0' <= c && c <= '9'
}

pub open spec fn is_sign(c: char) -> bool {
    c == '+' || c == '-'
}

pub open spec fn is_exp_mark(c: char) -> bool {
    c == 'e' || c == 'E'
}

pub open spec fn all_digits(s: Seq<char>) -> bool {
    forall|i: int| 0 <= i < s.len() ==> is_digit(#[trigger] s[i])
}

/// `s` spells the word whose lower-case letters are `lower` and whose
/// upper-case letters are `upper`, each letter in either case.
pub open spec fn spells(s: Seq<char>, lower: Seq<char>, upper: Seq<char>) -> bool {
    &&& s.len() == lower.len()
    &&& lower.len() == upper.len()
    &&& forall|i: int| 0 <= i < s.len() ==> (#[trigger] s[i] == lower[i] || s[i] == upper[i])
}

/// `inf`, `infinity` or `nan`, in any letter case.
pub open spec fn is_special_value(s: Seq<char>) -> bool {
    ||| spells(s, seq!['i', 'n', 'f'], seq!['I', 'N', 'F'])
    ||| spells(
        s,
        seq!['i', 'n', 'f', 'i', 'n', 'i', 't', 'y'],
        seq!['I', 'N', 'F', 'I', 'N', 'I', 'T', 'Y'],
    )
    ||| spells(s, seq!['n', 'a', 'n'], seq!['N', 'A', 'N'])
}

/// Digits with at most one decimal point, and at least one digit.
pub open spec fn is_mantissa(s: Seq<char>) -> bool {
    &&& s.len() > 0
    &&& forall|i: int| 0 <= i < s.len() ==> (is_digit(#[trigger] s[i]) || s[i] == '.')
    &&& forall|i: int, j: int|
        0 <= i < s.len() && 0 <= j < s.len() && #[trigger] s[i] == '.' && #[trigger] s[j] == '.'
            ==> i == j
    &&& s != seq!['.']
}

/// `e` or `E`, an optional sign, then at least one digit.
pub open spec fn is_exponent(s: Seq<char>) -> bool {
    &&& s.len() >= 2
    &&& is_exp_mark(s[0])
    &&& if is_sign(s[1]) {
        s.len() >= 3 && all_digits(s.skip(2))
    } else {
        all_digits(s.skip(1))
    }
}

pub open spec fn is_number(s: Seq<char>) -> bool {
    ||| is_mantissa(s)
    ||| exists|k: int| 0 < k < s.len() && is_mantissa(s.take(k)) && is_exponent(#[trigger] s.skip(k))
}

/// The body of a number text: the text without its leading sign, if any.
pub open spec fn unsigned_part(s: Seq<char>) -> Seq<char> {
    if s.len() > 0 && is_sign(s[0]) {
        s.skip(1)
    } else {
        s
    }
}

/// `s` is the text of a floating-point number.
pub open spec fn is_number_text(s: Seq<char>) -> bool {
    is_special_value(unsigned_part(s)) || is_number(unsigned_part(s))
}

/// Digits with at most one decimal point and at least one digit.
pub open spec fn is_plain_decimal(m: Seq<char>) -> bool {
    &&& forall|i: int| 0 <= i < m.len() ==> ('0' <= #[trigger] m[i] <= '9' || m[i] == '.')
    &&& forall|i: int, j: int|
        0 <= i < m.len() && 0 <= j < m.len() && #[trigger] m[i] == '.' && #[trigger] m[j] == '.'
            ==> i == j
    &&& exists|i: int| 0 <= i < m.len() && '0' <= #[trigger] m[i] <= '9'
}

/// At most one character, a `+` or a `-`.
pub open spec fn is_optional_sign(s: Seq<char>) -> bool {
    s.len() <= 1 && forall|i: int| 0 <= i < s.len() ==> (#[trigger] s[i] == '+' || s[i] == '-')
}

proof fn lemma_plain_decimal_is_mantissa(m: Seq<char>)
    requires
        is_plain_decimal(m),
    ensures
        is_mantissa(m),
        m.len() > 0,
        !is_sign(m[0]),
        !is_exp_mark(m[0]),
{
    let i = choose|i: int| 0 <= i < m.len() && '0' <= #[trigger] m[i] <= '9';
    assert(m[i] != '.');
    if m == seq!['.'] {
        assert(m[0] == '.');
    }
    assert('0' <= m[0] <= '9' || m[0] == '.');
}

/// Every decimal text is a number text: an optional sign, then digits with at
/// most one decimal point and at least one digit, as `08.00`, `-1.5` or `.5`.
pub proof fn lemma_decimal_text_is_number(sign: Seq<char>, m: Seq<char>)
    requires
        is_optional_sign(sign),
        is_plain_decimal(m),
    ensures
        is_number_text(sign + m),
{
    lemma_plain_decimal_is_mantissa(m);
    let s = sign + m;
    if sign.len() == 1 {
        assert(s[0] == sign[0]);
        assert(s.skip(1) =~= m);
    } else {
        assert(sign + m =~= m);
    }
    assert(unsigned_part(s) == m);
}

/// A decimal text followed by an exponent is a number text: `e` or `E`, an
/// optional sign, and any positive number of digits, as `1e10` or `2.5E-3`.
pub proof fn lemma_exponent_text_is_number(
    sign: Seq<char>,
    m: Seq<char>,
    mark: char,
    exp_sign: Seq<char>,
    exp_digits: Seq<char>,
)
    requires
        is_optional_sign(sign),
        is_plain_decimal(m),
        mark == 'e' || mark == 'E',
        is_optional_sign(exp_sign),
        exp_digits.len() > 0,
        forall|i: int| 0 <= i < exp_digits.len() ==> '0' <= #[trigger] exp_digits[i] <= '9',
    ensures
        is_number_text(sign + m + seq![mark] + exp_sign + exp_digits),
{
    lemma_plain_decimal_is_mantissa(m);
    let body = m + seq![mark] + exp_sign + exp_digits;
    let s = sign + m + seq![mark] + exp_sign + exp_digits;
    if sign.len() == 1 {
        assert(s[0] == sign[0]);
        assert(s.skip(1) =~= body);
    } else {
        assert(s =~= body);
        assert(s[0] == m[0]);
    }
    assert(unsigned_part(s) == body);
    let k = m.len() as int;
    assert(body.take(k) =~= m);
    let e = body.skip(k);
    assert(e =~= seq![mark] + exp_sign + exp_digits);
    assert(e[0] == mark);
    if exp_sign.len() == 1 {
        assert(e[1] == exp_sign[0]);
        assert(e.skip(2) =~= exp_digits);
    } else {
        assert(e[1] == exp_digits[0]);
        assert(!is_sign(e[1]));
        assert(e.skip(1) =~= exp_digits);
    }
    assert(is_exponent(e));
    assert(0 < k < body.len());
}

fn chars_of(s: &str) -> (v: Vec<char>)
    ensures
        v@ == s@,
{
    let n: usize = s.unicode_len();
    let mut v: Vec<char> = Vec::new();
    let mut i: usize = 0;
    while i < n
        invariant
            n == s@.len(),
            i <= n,
            v@ == s@.take(i as int),
        decreases n - i,
    {
        let c: char = s.get_char(i);
        v.push(c);
        assert(s@.take(i + 1) == s@.take(i as int).push(c));
        i = i + 1;
    }
    assert(s@.take(n as int) == s@);
    v
}

fn digit(c: char) -> (r: bool)
    ensures
        r == is_digit(c),
{
    '0' <= c && c <= '9'
}

fn digits_between(v: &Vec<char>, lo: usize, hi: usize) -> (r: bool)
    requires
        lo <= hi <= v@.len(),
    ensures
        r == all_digits(v@.subrange(lo as int, hi as int)),
{
    let mut i: usize = lo;
    while i < hi
        invariant
            lo <= i <= hi <= v@.len(),
            forall|j: int| lo <= j < i ==> is_digit(#[trigger] v@[j]),
        decreases hi - i,
    {
        if !digit(v[i]) {
            assert(v@.subrange(lo as int, hi as int)[i - lo] == v@[i as int]);
            return false;
        }
        i = i + 1;
    }
    assert forall|j: int| 0 <= j < hi - lo implies is_digit(
        #[trigger] v@.subrange(lo as int, hi as int)[j],
    ) by {
        assert(v@.subrange(lo as int, hi as int)[j] == v@[lo + j]);
    }
    true
}

fn mantissa_between(v: &Vec<char>, lo: usize, hi: usize) -> (r: bool)
    requires
        lo <= hi <= v@.len(),
    ensures
        r == is_mantissa(v@.subrange(lo as int, hi as int)),
{
    let ghost s = v@.subrange(lo as int, hi as int);
    if lo == hi {
        return false;
    }
    let mut dot: Option<usize> = None;
    let mut i: usize = lo;
    while i < hi
        invariant
            lo < hi <= v@.len(),
            lo <= i <= hi,
            s == v@.subrange(lo as int, hi as int),
            forall|j: int| lo <= j < i ==> (is_digit(#[trigger] v@[j]) || v@[j] == '.'),
            match dot {
                None => forall|j: int| lo <= j < i ==> #[trigger] v@[j] != '.',
                Some(d) => lo <= d < i && v@[d as int] == '.' && forall|j: int|
                    lo <= j < i && j != d ==> #[trigger] v@[j] != '.',
            },
        decreases hi - i,
    {
        let c: char = v[i];
        if c == '.' {
            match dot {
                Some(d) => {
                    assert(s[d - lo] == '.' && s[i - lo] == '.');
                    return false;
                },
                None => {
                    dot = Some(i);
                },
            }
        } else if !digit(c) {
            assert(s[i - lo] == c);
            return false;
        }
        i = i + 1;
    }
    assert forall|j: int| 0 <= j < s.len() implies (is_digit(#[trigger] s[j]) || s[j] == '.') by {
        assert(s[j] == v@[lo + j]);
    }
    assert forall|a: int, b: int|
        0 <= a < s.len() && 0 <= b < s.len() && #[trigger] s[a] == '.' && #[trigger] s[b] == '.'
        implies a == b by {
        assert(s[a] == v@[lo + a]);
        assert(s[b] == v@[lo + b]);
    }
    if hi - lo == 1 && v[lo] == '.' {
        assert(s == seq!['.']);
        return false;
    }
    assert(s != seq!['.']) by {
        if s == seq!['.'] {
            assert(s.len() == 1 && s[0] == '.');
            assert(v@[lo as int] == s[0]);
        }
    }
    true
}

fn exponent_between(v: &Vec<char>, lo: usize, hi: usize) -> (r: bool)
    requires
        lo <= hi <= v@.len(),
    ensures
        r == is_exponent(v@.subrange(lo as int, hi as int)),
{
    let ghost s = v@.subrange(lo as int, hi as int);
    if hi - lo < 2 {
        return false;
    }
    assert(s[0] == v@[lo as int] && s[1] == v@[lo + 1]);
    if !(v[lo] == 'e' || v[lo] == 'E') {
        return false;
    }
    if v[lo + 1] == '+' || v[lo + 1] == '-' {
        if hi - lo < 3 {
            return false;
        }
        assert(s.skip(2) == v@.subrange(lo + 2, hi as int));
        digits_between(v, lo + 2, hi)
    } else {
        assert(s.skip(1) == v@.subrange(lo + 1, hi as int));
        digits_between(v, lo + 1, hi)
    }
}

fn spells_between(v: &Vec<char>, lo: usize, hi: usize, lower: &Vec<char>, upper: &Vec<char>) -> (r:
    bool)
    requires
        lo <= hi <= v@.len(),
        lower@.len() == upper@.len(),
    ensures
        r == spells(v@.subrange(lo as int, hi as int), lower@, upper@),
{
    let ghost s = v@.subrange(lo as int, hi as int);
    if hi - lo != lower.len() {
        return false;
    }
    let mut i: usize = 0;
    while i < lower.len()
        invariant
            lo <= hi <= v@.len(),
            hi - lo == lower@.len() == upper@.len(),
            s == v@.subrange(lo as int, hi as int),
            i <= lower@.len(),
            forall|j: int| 0 <= j < i ==> (#[trigger] s[j] == lower@[j] || s[j] == upper@[j]),
        decreases lower@.len() - i,
    {
        assert(s[i as int] == v@[lo + i]);
        if !(v[lo + i] == lower[i] || v[lo + i] == upper[i]) {
            return false;
        }
        i = i + 1;
    }
    true
}

fn special_between(v: &Vec<char>, lo: usize, hi: usize) -> (r: bool)
    requires
        lo <= hi <= v@.len(),
    ensures
        r == is_special_value(v@.subrange(lo as int, hi as int)),
{
    let inf_l: Vec<char> = vec!['i', 'n', 'f'];
    let inf_u: Vec<char> = vec!['I', 'N', 'F'];
    let infinity_l: Vec<char> = vec!['i', 'n', 'f', 'i', 'n', 'i', 't', 'y'];
    let infinity_u: Vec<char> = vec!['I', 'N', 'F', 'I', 'N', 'I', 'T', 'Y'];
    let nan_l: Vec<char> = vec!['n', 'a', 'n'];
    let nan_u: Vec<char> = vec!['N', 'A', 'N'];
    assert(inf_l@ == seq!['i', 'n', 'f']);
    assert(inf_u@ == seq!['I', 'N', 'F']);
    assert(infinity_l@ == seq!['i', 'n', 'f', 'i', 'n', 'i', 't', 'y']);
    assert(infinity_u@ == seq!['I', 'N', 'F', 'I', 'N', 'I', 'T', 'Y']);
    assert(nan_l@ == seq!['n', 'a', 'n']);
    assert(nan_u@ == seq!['N', 'A', 'N']);
    let a: bool = spells_between(v, lo, hi, &inf_l, &inf_u);
    let b: bool = spells_between(v, lo, hi, &infinity_l, &infinity_u);
    let c: bool = spells_between(v, lo, hi, &nan_l, &nan_u);
    a || b || c
}

fn number_between(v: &Vec<char>, lo: usize, hi: usize) -> (r: bool)
    requires
        lo <= hi <= v@.len(),
    ensures
        r == is_number(v@.subrange(lo as int, hi as int)),
{
    let ghost s = v@.subrange(lo as int, hi as int);
    let mut k: usize = lo;
    while k < hi && !(v[k] == 'e' || v[k] == 'E')
        invariant
            lo <= k <= hi <= v@.len(),
            forall|j: int| lo <= j < k ==> !is_exp_mark(#[trigger] v@[j]),
        decreases hi - k,
    {
        k = k + 1;
    }
    if k == hi {
        let m: bool = mantissa_between(v, lo, hi);
        if !m {
            assert forall|k2: int|
                0 < k2 < s.len() && is_mantissa(s.take(k2)) implies !is_exponent(
                #[trigger] s.skip(k2),
            ) by {
                assert(s.skip(k2)[0] == v@[lo + k2]);
            }
        }
        return m;
    }
    let m: bool = mantissa_between(v, lo, k);
    let e: bool = exponent_between(v, k, hi);
    assert(s.take(k - lo) == v@.subrange(lo as int, k as int));
    assert(s.skip(k - lo) == v@.subrange(k as int, hi as int));
    if m && e {
        assert(0 < k - lo < s.len());
        return true;
    }
    assert(!is_mantissa(s)) by {
        assert(s[k - lo] == v@[k as int]);
    }
    assert forall|k2: int|
        0 < k2 < s.len() && is_mantissa(s.take(k2)) implies !is_exponent(#[trigger] s.skip(k2)) by {
        if is_exponent(s.skip(k2)) {
            assert(s.skip(k2)[0] == v@[lo + k2]);
            if k2 < k - lo {
                assert(!is_exp_mark(v@[lo + k2]));
            } else if k2 > k - lo {
                assert(s.take(k2)[k - lo] == v@[k as int]);
            }
        }
    }
    false
}

/// Whether `s` is the text of a floating-point number.
pub fn number_text(s: &str) -> (r: bool)
    ensures
        r == is_number_text(s@),
{
    let v: Vec<char> = chars_of(s);
    let n: usize = v.len();
    let lo: usize = if n > 0 && (v[0] == '+' || v[0] == '-') {
        1
    } else {
        0
    };
    assert(unsigned_part(s@) == v@.subrange(lo as int, n as int));
    let a: bool = special_between(&v, lo, n);
    let b: bool = number_between(&v, lo, n);
    a || b
}

} // verus!
