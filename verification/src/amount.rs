//! Exact positive decimal amounts.
//!
//! A financial amount is a strictly positive decimal number, kept exactly: a
//! little-endian sequence of base-10 digits for the unscaled mantissa together
//! with a scale, so the value is `mantissa / 10^scale`. No binary floating
//! point is involved anywhere, and the precision is arbitrary. The
//! representation is canonical — no high-order zero digit, and no trailing
//! zero in the fractional part — so two equal values have equal
//! representations.

use vstd::prelude::*;
use vstd::arithmetic::mul::{lemma_mul_is_commutative, lemma_mul_is_distributive_add, lemma_mul_inequality};
use vstd::arithmetic::div_mod::{lemma_fundamental_div_mod, lemma_fundamental_div_mod_converse};

verus! {

/// Mathematical value of a little-endian base-10 digit sequence.
pub open spec fn dval(s: Seq<u8>) -> nat
    decreases s.len(),
{
    if s.len() == 0 {
        0
    } else {
        s[0] as nat + 10 * dval(s.skip(1))
    }
}

/// `10^n`.
pub open spec fn pow10(n: nat) -> nat
    decreases n,
{
    if n == 0 {
        1
    } else {
        10 * pow10((n - 1) as nat)
    }
}

/// Every entry is a base-10 digit.
pub open spec fn digits_wf(s: Seq<u8>) -> bool {
    forall|i: int| 0 <= i < s.len() ==> s[i] < 10
}

/// The abstract value of an amount: `mant / 10^scale`.
pub ghost struct AmountV {
    pub mant: nat,
    pub scale: nat,
}

/// Strips trailing fractional zeros from an abstract value, so that equal
/// values get equal `AmountV`s.
pub open spec fn norm(mant: nat, scale: nat) -> AmountV
    decreases scale,
{
    if scale > 0 && mant % 10 == 0 {
        norm(mant / 10, (scale - 1) as nat)
    } else {
        AmountV { mant, scale }
    }
}

/// The mantissa rewritten to scale `s`, which must not be finer than the
/// value's own scale.
pub open spec fn scaled(a: AmountV, s: nat) -> nat {
    a.mant * pow10((s - a.scale) as nat)
}

/// Strict value order: align the scales, compare the mantissas.
pub open spec fn lt_val(a: AmountV, b: AmountV) -> bool {
    if a.scale >= b.scale {
        a.mant < scaled(b, a.scale)
    } else {
        scaled(a, b.scale) < b.mant
    }
}

/// Difference of two abstract values, meaningful when `b` is not above `a`:
/// align the scales, subtract the mantissas, normalize.
pub open spec fn sub_val(a: AmountV, b: AmountV) -> AmountV {
    if a.scale >= b.scale {
        norm((a.mant - scaled(b, a.scale)) as nat, a.scale)
    } else {
        norm((scaled(a, b.scale) - b.mant) as nat, b.scale)
    }
}

/// Sum of two abstract values: align the scales, add the mantissas, normalize.
pub open spec fn add_val(a: AmountV, b: AmountV) -> AmountV {
    if a.scale >= b.scale {
        norm(a.mant + b.mant * pow10((a.scale - b.scale) as nat), a.scale)
    } else {
        norm(a.mant * pow10((b.scale - a.scale) as nat) + b.mant, b.scale)
    }
}

pub proof fn lemma_pow10_pos(n: nat)
    ensures
        pow10(n) >= 1,
    decreases n,
{
    if n > 0 {
        lemma_pow10_pos((n - 1) as nat);
    }
}

/// Appending a most-significant digit adds `d * 10^len`.
pub proof fn lemma_dval_snoc(s: Seq<u8>, d: u8)
    ensures
        dval(s.push(d)) == dval(s) + d * pow10(s.len()),
    decreases s.len(),
{
    if s.len() == 0 {
        assert(s.push(d).skip(1) =~= Seq::<u8>::empty());
        assert(s.push(d)[0] == d);
        assert(dval(s.push(d)) == d as nat + 10 * dval(Seq::<u8>::empty()));
        assert(pow10(s.len()) == 1);
        assert(dval(s.push(d)) == dval(s) + d * pow10(s.len()));
    } else {
        assert(s.push(d).skip(1) =~= s.skip(1).push(d));
        lemma_dval_snoc(s.skip(1), d);
        assert(dval(s.push(d)) == s[0] as nat + 10 * (dval(s.skip(1)) + d * pow10(s.skip(1).len())));
        assert(10 * (dval(s.skip(1)) + d * pow10(s.skip(1).len()))
            == 10 * dval(s.skip(1)) + 10 * (d * pow10(s.skip(1).len()))) by {
            lemma_mul_is_distributive_add(10, dval(s.skip(1)) as int, (d * pow10(s.skip(1).len())) as int);
        }
        assert(10 * (d * pow10(s.skip(1).len())) == d * (10 * pow10(s.skip(1).len()))) by {
            vstd::arithmetic::mul::lemma_mul_is_associative(10, d as int, pow10(s.skip(1).len()) as int);
            lemma_mul_is_commutative(10, d as int);
            vstd::arithmetic::mul::lemma_mul_is_associative(d as int, 10, pow10(s.skip(1).len()) as int);
        }
        assert(pow10(s.len()) == 10 * pow10(s.skip(1).len()));
        assert(s.push(d)[0] == s[0]);
        assert(dval(s.push(d)) == s[0] as nat + 10 * dval(s.skip(1).push(d)));
        assert(d * pow10(s.len()) == d * (10 * pow10(s.skip(1).len())));
        assert(dval(s.push(d)) == dval(s) + d * pow10(s.len()));
    }
}

/// A sequence whose most significant digit is nonzero has a positive value.
pub proof fn lemma_dval_pos(s: Seq<u8>)
    requires
        s.len() > 0,
        s[s.len() - 1] != 0,
    ensures
        dval(s) > 0,
    decreases s.len(),
{
    if s.len() == 1 {
    } else {
        lemma_dval_pos(s.skip(1));
    }
}

/// The low digit of the value is the first digit of the sequence.
pub proof fn lemma_dval_low_digit(s: Seq<u8>)
    requires
        s.len() > 0,
        digits_wf(s),
    ensures
        dval(s) % 10 == s[0] as nat,
        dval(s) / 10 == dval(s.skip(1)),
{
    lemma_fundamental_div_mod_converse(dval(s) as int, 10, dval(s.skip(1)) as int, s[0] as int);
}

/// Two canonical digit sequences with the same value are equal.
pub proof fn lemma_dval_injective(a: Seq<u8>, b: Seq<u8>)
    requires
        digits_wf(a),
        digits_wf(b),
        a.len() > 0 ==> a[a.len() - 1] != 0,
        b.len() > 0 ==> b[b.len() - 1] != 0,
        dval(a) == dval(b),
    ensures
        a == b,
    decreases a.len(),
{
    if a.len() == 0 {
        if b.len() > 0 {
            lemma_dval_pos(b);
        }
        assert(a =~= b);
    } else if b.len() == 0 {
        lemma_dval_pos(a);
    } else {
        lemma_dval_low_digit(a);
        lemma_dval_low_digit(b);
        if a.len() > 1 {
            assert(a.skip(1)[a.skip(1).len() - 1] == a[a.len() - 1]);
        }
        if b.len() > 1 {
            assert(b.skip(1)[b.skip(1).len() - 1] == b[b.len() - 1]);
        }
        if a.len() == 1 && b.len() > 1 {
            lemma_dval_pos(b.skip(1));
        }
        if b.len() == 1 && a.len() > 1 {
            lemma_dval_pos(a.skip(1));
        }
        lemma_dval_injective(a.skip(1), b.skip(1));
        assert(a =~= seq![a[0]] + a.skip(1));
        assert(b =~= seq![b[0]] + b.skip(1));
        assert(a =~= b);
    }
}

/// One base-10 digit character.
pub open spec fn is_digit_char(c: char) -> bool {
    48 <= c as u32 && c as u32 <= 57
}

/// Numeric value of a digit character.
pub open spec fn digit_of(c: char) -> nat {
    (c as u32 - 48) as nat
}

/// The first `n` characters are all digits or dots.
pub open spec fn ok_pre(s: Seq<char>, n: int) -> bool
    decreases n,
{
    n <= 0 || (ok_pre(s, n - 1) && (is_digit_char(s[n - 1]) || s[n - 1] == '.'))
}

/// Number of dots among the first `n` characters.
pub open spec fn dots_pre(s: Seq<char>, n: int) -> nat
    decreases n,
{
    if n <= 0 {
        0
    } else {
        dots_pre(s, n - 1) + (if s[n - 1] == '.' {
            1nat
        } else {
            0nat
        })
    }
}

/// Number of digit characters among the first `n` characters.
pub open spec fn ndigits_pre(s: Seq<char>, n: int) -> nat
    decreases n,
{
    if n <= 0 {
        0
    } else {
        ndigits_pre(s, n - 1) + (if is_digit_char(s[n - 1]) {
            1nat
        } else {
            0nat
        })
    }
}

/// Unscaled mantissa read from the first `n` characters: the digits in order,
/// with the dot skipped.
pub open spec fn mant_pre(s: Seq<char>, n: int) -> nat
    decreases n,
{
    if n <= 0 {
        0
    } else if is_digit_char(s[n - 1]) {
        mant_pre(s, n - 1) * 10 + digit_of(s[n - 1])
    } else {
        mant_pre(s, n - 1)
    }
}

/// Number of digit characters after the first dot, among the first `n`.
pub open spec fn frac_pre(s: Seq<char>, n: int) -> nat
    decreases n,
{
    if n <= 0 {
        0
    } else if is_digit_char(s[n - 1]) && dots_pre(s, n - 1) > 0 {
        frac_pre(s, n - 1) + 1
    } else {
        frac_pre(s, n - 1)
    }
}

/// A well-formed positive decimal numeral: only digits and at most one dot,
/// at least one digit, and a nonzero value. No sign, no exponent.
pub open spec fn valid_amount_text(s: Seq<char>) -> bool {
    &&& ok_pre(s, s.len() as int)
    &&& dots_pre(s, s.len() as int) <= 1
    &&& ndigits_pre(s, s.len() as int) >= 1
    &&& mant_pre(s, s.len() as int) > 0
}

/// The exact value denoted by a well-formed numeral.
pub open spec fn amount_of_text(s: Seq<char>) -> AmountV {
    norm(mant_pre(s, s.len() as int), frac_pre(s, s.len() as int))
}

/// `10^n` grows with `n`.
pub proof fn lemma_pow10_mono(m: nat, n: nat)
    requires
        m <= n,
    ensures
        pow10(m) <= pow10(n),
    decreases n,
{
    if m < n {
        lemma_pow10_mono(m, (n - 1) as nat);
        lemma_pow10_pos((n - 1) as nat);
    }
}

/// A digit sequence's value is below `10^len`.
pub proof fn lemma_dval_upper(s: Seq<u8>)
    requires
        digits_wf(s),
    ensures
        dval(s) < pow10(s.len()),
    decreases s.len(),
{
    if s.len() > 0 {
        lemma_dval_upper(s.skip(1));
        assert(10 * dval(s.skip(1)) <= 10 * (pow10(s.skip(1).len()) - 1)) by {
            lemma_mul_inequality(dval(s.skip(1)) as int, pow10(s.skip(1).len()) as int - 1, 10);
            lemma_mul_is_commutative(10, dval(s.skip(1)) as int);
            lemma_mul_is_commutative(10, pow10(s.skip(1).len()) as int - 1);
        }
        assert(10 * (pow10(s.skip(1).len()) - 1) == 10 * pow10(s.skip(1).len()) - 10) by {
            lemma_mul_is_distributive_add(10, pow10(s.skip(1).len()) as int - 1, 1);
        }
        assert(pow10(s.len()) == 10 * pow10(s.skip(1).len()));
    }
}

/// A digit sequence with a nonzero top digit reaches `10^(len-1)`.
pub proof fn lemma_dval_lower(s: Seq<u8>)
    requires
        s.len() > 0,
        s[s.len() - 1] != 0,
    ensures
        dval(s) >= pow10((s.len() - 1) as nat),
    decreases s.len(),
{
    if s.len() == 1 {
    } else {
        assert(s.skip(1)[s.skip(1).len() - 1] == s[s.len() - 1]);
        lemma_dval_lower(s.skip(1));
        assert(10 * dval(s.skip(1)) >= 10 * pow10((s.len() - 2) as nat)) by {
            lemma_mul_inequality(pow10((s.len() - 2) as nat) as int, dval(s.skip(1)) as int, 10);
            lemma_mul_is_commutative(10, dval(s.skip(1)) as int);
            lemma_mul_is_commutative(10, pow10((s.len() - 2) as nat) as int);
        }
        assert(pow10((s.len() - 1) as nat) == 10 * pow10((s.len() - 2) as nat));
    }
}

/// When two equally long digit sequences agree above position `k` and differ
/// there, the one with the larger digit at `k` has the larger value.
proof fn lemma_dval_cmp_at(a: Seq<u8>, b: Seq<u8>, k: int)
    requires
        digits_wf(a),
        digits_wf(b),
        a.len() == b.len(),
        0 <= k < a.len(),
        forall|j: int| k < j < a.len() ==> a[j] == b[j],
        a[k] > b[k],
    ensures
        dval(a) > dval(b),
    decreases a.len() - k,
{
    if k == a.len() - 1 {
        lemma_dval_snoc(a.take(k), a[k]);
        lemma_dval_snoc(b.take(k), b[k]);
        assert(a.take(k).push(a[k]) =~= a);
        assert(b.take(k).push(b[k]) =~= b);
        assert(digits_wf(a.take(k)));
        assert(digits_wf(b.take(k)));
        lemma_dval_upper(b.take(k));
        assert(a[k] * pow10(k as nat) >= (b[k] + 1) * pow10(k as nat)) by {
            lemma_mul_inequality(b[k] as int + 1, a[k] as int, pow10(k as nat) as int);
            lemma_mul_is_commutative(a[k] as int, pow10(k as nat) as int);
            lemma_mul_is_commutative(b[k] as int + 1, pow10(k as nat) as int);
        }
        assert((b[k] + 1) * pow10(k as nat) == b[k] * pow10(k as nat) + pow10(k as nat)) by {
            lemma_mul_is_distributive_add(pow10(k as nat) as int, b[k] as int, 1);
            lemma_mul_is_commutative(pow10(k as nat) as int, b[k] as int + 1);
            lemma_mul_is_commutative(pow10(k as nat) as int, b[k] as int);
        }
        assert(dval(a.take(k)) >= 0);
    } else {
        lemma_dval_snoc(a.drop_last(), a[a.len() - 1]);
        lemma_dval_snoc(b.drop_last(), b[b.len() - 1]);
        assert(a.drop_last().push(a[a.len() - 1]) =~= a);
        assert(b.drop_last().push(b[b.len() - 1]) =~= b);
        assert(digits_wf(a.drop_last()));
        assert(digits_wf(b.drop_last()));
        lemma_dval_cmp_at(a.drop_last(), b.drop_last(), k);
    }
}

/// The numeral-reading functions only look at the first `n` characters: two
/// texts agreeing there read the same.
proof fn lemma_text_pre_agree(s1: Seq<char>, s2: Seq<char>, n: int)
    requires
        n <= s1.len(),
        n <= s2.len(),
        forall|k: int| 0 <= k < n ==> s1[k] == s2[k],
    ensures
        ok_pre(s1, n) == ok_pre(s2, n),
        dots_pre(s1, n) == dots_pre(s2, n),
        ndigits_pre(s1, n) == ndigits_pre(s2, n),
        mant_pre(s1, n) == mant_pre(s2, n),
        frac_pre(s1, n) == frac_pre(s2, n),
    decreases n,
{
    if n > 0 {
        lemma_text_pre_agree(s1, s2, n - 1);
    }
}

/// A strictly positive decimal number, exact to arbitrary precision.
pub struct Amount {
    digits: Vec<u8>,
    scale: usize,
}

impl View for Amount {
    type V = AmountV;

    closed spec fn view(&self) -> AmountV {
        AmountV { mant: dval(self.digits@), scale: self.scale as nat }
    }
}

impl Amount {
    /// The representation invariant: base-10 digits, a nonzero leading digit
    /// (so the value is positive and the mantissa canonical), and no trailing
    /// zero in the fractional part (so the scale is canonical).
    pub closed spec fn wf(&self) -> bool {
        &&& digits_wf(self.digits@)
        &&& self.digits@.len() > 0
        &&& self.digits@[self.digits@.len() - 1] != 0
        &&& (self.scale > 0 ==> self.digits@[0] != 0)
    }

    pub proof fn lemma_wf_facts(&self)
        requires
            self.wf(),
        ensures
            self@.mant > 0,
            norm(self@.mant, self@.scale) == self@,
    {
        lemma_dval_pos(self.digits@);
        if self.scale > 0 {
            lemma_dval_low_digit(self.digits@);
        }
    }

    /// An exact copy: same value, same canonical representation.
    pub fn clone_amount(&self) -> (r: Amount)
        ensures
            r@ == self@,
            r.wf() <==> self.wf(),
    {
        let mut ds: Vec<u8> = Vec::new();
        let mut j: usize = 0;
        while j < self.digits.len()
            invariant
                j <= self.digits@.len(),
                ds@ =~= self.digits@.take(j as int),
            decreases self.digits@.len() - j,
        {
            ds.push(self.digits[j]);
            j += 1;
        }
        assert(ds@ =~= self.digits@);
        Amount { digits: ds, scale: self.scale }
    }

    /// Value equality; canonicality makes it representation equality.
    pub fn eq_value(&self, other: &Amount) -> (r: bool)
        requires
            self.wf(),
            other.wf(),
        ensures
            r == (self@ == other@),
    {
        proof {
            if self@ == other@ {
                lemma_dval_injective(self.digits@, other.digits@);
            }
        }
        if self.scale != other.scale {
            return false;
        }
        if self.digits.len() != other.digits.len() {
            proof {
                if self.digits@ == other.digits@ {
                    assert(self.digits@.len() == other.digits@.len());
                }
            }
            return false;
        }
        let mut j: usize = 0;
        while j < self.digits.len()
            invariant
                j <= self.digits@.len(),
                self.digits@.len() == other.digits@.len(),
                forall|i: int| 0 <= i < j ==> self.digits@[i] == other.digits@[i],
                self@ == other@ ==> self.digits@ == other.digits@,
                self.scale == other.scale,
            decreases self.digits@.len() - j,
        {
            if self.digits[j] != other.digits[j] {
                return false;
            }
            j += 1;
        }
        assert(self.digits@ =~= other.digits@);
        true
    }

    /// Reads a positive decimal numeral, exactly. `None` if and only if the
    /// text is not a well-formed positive decimal.
    pub fn parse(s: &str) -> (r: Option<Amount>)
        ensures
            match r {
                Some(a) => valid_amount_text(s@) && a.wf() && a@ == amount_of_text(s@),
                None => !valid_amount_text(s@),
            },
    {
        let n = s.unicode_len();
        let mut digits: Vec<u8> = Vec::new();
        let mut dots: usize = 0;
        let mut nd: usize = 0;
        let mut frac: usize = 0;
        let mut ok = true;
        let mut i: usize = 0;
        while i < n
            invariant
                i <= n,
                n == s@.len(),
                dots <= i,
                nd <= i,
                frac <= i,
                digits_wf(digits@),
                dots == dots_pre(s@, i as int),
                nd == ndigits_pre(s@, i as int),
                frac == frac_pre(s@, i as int),
                ok == ok_pre(s@, i as int),
                dval(digits@) == mant_pre(s@, i as int),
            decreases n - i,
        {
            let c = s.get_char(i);
            let cu = c as u32;
            if cu == 46 {
                dots = dots + 1;
            } else if 48 <= cu && cu <= 57 {
                let d: u8 = (cu - 48) as u8;
                proof {
                    let dd = digits@.insert(0, d);
                    assert(dd.skip(1) =~= digits@);
                    assert(dval(dd) == d as nat + 10 * dval(digits@));
                }
                digits.insert(0, d);
                nd = nd + 1;
                if dots > 0 {
                    frac = frac + 1;
                }
            } else {
                ok = false;
            }
            proof {
                assert(c == '.' <==> cu == 46);
            }
            i = i + 1;
        }
        if !ok || dots > 1 || nd == 0 {
            return None;
        }
        trim_high_zeros(&mut digits);
        if digits.len() == 0 {
            proof {
                assert(mant_pre(s@, s@.len() as int) == 0);
            }
            return None;
        }
        proof {
            lemma_dval_pos(digits@);
        }
        let ns = normalize_scale(&mut digits, frac);
        Some(Amount { digits, scale: ns })
    }

    /// Strict value comparison.
    pub fn lt_value(&self, other: &Amount) -> (r: bool)
        requires
            self.wf(),
            other.wf(),
        ensures
            r == lt_val(self@, other@),
    {
        if self.scale >= other.scale {
            let shifted = shift_up(&other.digits, self.scale - other.scale);
            digits_lt(&self.digits, &shifted)
        } else {
            let shifted = shift_up(&self.digits, other.scale - self.scale);
            digits_lt(&shifted, &other.digits)
        }
    }

    /// Exact difference of two amounts; the subtrahend must be strictly
    /// below.
    pub fn sub(&self, other: &Amount) -> (r: Amount)
        requires
            self.wf(),
            other.wf(),
            lt_val(other@, self@),
        ensures
            r.wf(),
            r@ == sub_val(self@, other@),
    {
        let mut diff = if self.scale >= other.scale {
            let lo = shift_up(&other.digits, self.scale - other.scale);
            proof {
                vstd::arithmetic::mul::lemma_mul_basics(self@.mant as int);
                vstd::arithmetic::mul::lemma_mul_basics(other@.mant as int);
                assert(pow10(0nat) == 1);
                assert(dval(lo@) == scaled(other@, self.scale as nat));
                assert(dval(lo@) < dval(self.digits@));
            }
            raw_sub(&self.digits, &lo)
        } else {
            let hi = shift_up(&self.digits, other.scale - self.scale);
            proof {
                vstd::arithmetic::mul::lemma_mul_basics(self@.mant as int);
                vstd::arithmetic::mul::lemma_mul_basics(other@.mant as int);
                assert(pow10(0nat) == 1);
                assert(dval(hi@) == scaled(self@, other.scale as nat));
                assert(dval(other.digits@) < dval(hi@));
            }
            raw_sub(&hi, &other.digits)
        };
        let hs = if self.scale >= other.scale {
            self.scale
        } else {
            other.scale
        };
        proof {
            assert(dval(diff@) > 0);
        }
        trim_high_zeros(&mut diff);
        proof {
            if diff@.len() == 0 {
                assert(dval(diff@) == 0);
            }
        }
        let ns = normalize_scale(&mut diff, hs);
        Amount { digits: diff, scale: ns }
    }

    /// Renders the amount as a decimal numeral. The text is exact: parsing it
    /// back yields precisely this value.
    pub fn to_text(&self) -> (r: String)
        requires
            self.wf(),
        ensures
            valid_amount_text(r@),
            amount_of_text(r@) == self@,
    {
        proof {
            self.lemma_wf_facts();
            lemma_dval_pos(self.digits@);
        }
        let len = self.digits.len();
        let mut r = String::new();
        let mut nd: usize = 0;
        if len > self.scale {
            let mut j = len;
            while j > self.scale
                invariant
                    self.wf(),
                    len == self.digits@.len(),
                    self.scale <= j <= len,
                    nd == len - j,
                    r@.len() == nd,
                    ok_pre(r@, r@.len() as int),
                    dots_pre(r@, r@.len() as int) == 0,
                    ndigits_pre(r@, r@.len() as int) == nd,
                    frac_pre(r@, r@.len() as int) == 0,
                    mant_pre(r@, r@.len() as int) == dval(self.digits@.skip(j as int)),
                decreases j,
            {
                j -= 1;
                let d = self.digits[j];
                let piece = digit_str(d);
                proof {
                    let s1 = r@;
                    let s2 = r@ + piece@;
                    lemma_text_pre_agree(s1, s2, s1.len() as int);
                    assert(self.digits@.skip(j as int)[0] == self.digits@[j as int]);
                    assert(self.digits@.skip(j as int).skip(1) =~= self.digits@.skip(j as int + 1));
                }
                r.append(piece);
                nd += 1;
            }
        } else {
            let piece = digit_str(0);
            proof {
                lemma_text_pre_agree(r@, r@ + piece@, 0);
                assert(self.digits@.skip(len as int) =~= Seq::<u8>::empty());
            }
            r.append(piece);
            nd = 1;
        }
        let ghost jj_start: int = if len > self.scale {
            self.scale as int
        } else {
            len as int
        };
        proof {
            assert(mant_pre(r@, r@.len() as int) == dval(self.digits@.skip(jj_start)));
        }
        if self.scale > 0 {
            let dot = ".";
            proof {
                reveal_strlit(".");
                lemma_text_pre_agree(r@, r@ + dot@, r@.len() as int);
            }
            r.append(dot);
            let mut j = self.scale;
            while j > 0
                invariant
                    self.wf(),
                    len == self.digits@.len(),
                    0 <= j <= self.scale,
                    nd >= 1,
                    r@.len() >= 1,
                    ok_pre(r@, r@.len() as int),
                    dots_pre(r@, r@.len() as int) == 1,
                    ndigits_pre(r@, r@.len() as int) == nd + (self.scale - j),
                    frac_pre(r@, r@.len() as int) == self.scale - j,
                    mant_pre(r@, r@.len() as int) == dval(
                        self.digits@.skip(if j < len { j as int } else { len as int }),
                    ),
                decreases j,
            {
                j -= 1;
                let d = if j < len {
                    self.digits[j]
                } else {
                    0
                };
                let piece = digit_str(d);
                proof {
                    lemma_text_pre_agree(r@, r@ + piece@, r@.len() as int);
                    if j < len {
                        assert(self.digits@.skip(j as int)[0] == self.digits@[j as int]);
                        assert(self.digits@.skip(j as int).skip(1) =~= self.digits@.skip(
                            j as int + 1,
                        ));
                        if j + 1 >= len {
                            assert(self.digits@.skip(j as int + 1) =~= self.digits@.skip(
                                len as int,
                            ));
                        }
                    } else {
                        assert(dval(self.digits@.skip(len as int)) == 0);
                    }
                }
                r.append(piece);
            }
            proof {
                assert(self.digits@.skip(0) =~= self.digits@);
            }
        } else {
            proof {
                assert(jj_start == 0);
                assert(self.digits@.skip(0) =~= self.digits@);
            }
        }
        proof {
            assert(mant_pre(r@, r@.len() as int) == dval(self.digits@));
            assert(norm(dval(self.digits@), self.scale as nat) == self@);
        }
        r
    }

    /// Exact sum of two amounts.
    pub fn add(&self, other: &Amount) -> (r: Amount)
        requires
            self.wf(),
            other.wf(),
        ensures
            r.wf(),
            r@ == add_val(self@, other@),
    {
        let (a, b) = if self.scale >= other.scale {
            (self, other)
        } else {
            (other, self)
        };
        let shifted = shift_up(&b.digits, a.scale - b.scale);
        let mut sum = raw_add(&a.digits, &shifted);
        proof {
            lemma_dval_pos(a.digits@);
        }
        trim_high_zeros(&mut sum);
        proof {
            if sum@.len() == 0 {
                assert(dval(sum@) == 0);
            }
        }
        let ns = normalize_scale(&mut sum, a.scale);
        let r = Amount { digits: sum, scale: ns };
        proof {
            assert(r@ == norm(dval(a.digits@) + dval(b.digits@) * pow10((a.scale - b.scale) as nat), a.scale as nat));
        }
        r
    }
}

/// The one-character text of a digit.
fn digit_str(d: u8) -> (r: &'static str)
    requires
        d < 10,
    ensures
        r@.len() == 1,
        is_digit_char(r@[0]),
        r@[0] != '.',
        digit_of(r@[0]) == d as nat,
{
    proof {
        reveal_strlit("0");
        reveal_strlit("1");
        reveal_strlit("2");
        reveal_strlit("3");
        reveal_strlit("4");
        reveal_strlit("5");
        reveal_strlit("6");
        reveal_strlit("7");
        reveal_strlit("8");
        reveal_strlit("9");
    }
    match d {
        0 => "0",
        1 => "1",
        2 => "2",
        3 => "3",
        4 => "4",
        5 => "5",
        6 => "6",
        7 => "7",
        8 => "8",
        _ => "9",
    }
}

/// Removes zero digits at the most significant end; the value is unchanged.
fn trim_high_zeros(v: &mut Vec<u8>)
    requires
        digits_wf(old(v)@),
    ensures
        digits_wf(final(v)@),
        dval(final(v)@) == dval(old(v)@),
        final(v)@.len() > 0 ==> final(v)@[final(v)@.len() - 1] != 0,
        dval(old(v)@) > 0 ==> final(v)@.len() > 0,
{
    loop
        invariant
            digits_wf(v@),
            dval(v@) == dval(old(v)@),
        ensures
            digits_wf(v@),
            dval(v@) == dval(old(v)@),
            v@.len() > 0 ==> v@[v@.len() - 1] != 0,
        decreases v@.len(),
    {
        if v.len() == 0 {
            break;
        }
        let last = v[v.len() - 1];
        if last != 0 {
            proof {
                lemma_dval_pos(v@);
            }
            break;
        }
        proof {
            assert(v@ =~= v@.drop_last().push(0));
            lemma_dval_snoc(v@.drop_last(), 0);
        }
        v.pop();
    }
}

/// Removes trailing fractional zeros, preserving `norm` of the pair.
fn normalize_scale(v: &mut Vec<u8>, scale: usize) -> (ns: usize)
    requires
        digits_wf(old(v)@),
        old(v)@.len() > 0,
        old(v)@[old(v)@.len() - 1] != 0,
    ensures
        digits_wf(final(v)@),
        final(v)@.len() > 0,
        final(v)@[final(v)@.len() - 1] != 0,
        ns > 0 ==> final(v)@[0] != 0,
        norm(dval(final(v)@), ns as nat) == norm(dval(old(v)@), scale as nat),
        (AmountV { mant: dval(final(v)@), scale: ns as nat }) == norm(dval(old(v)@), scale as nat),
{
    let mut ns = scale;
    loop
        invariant
            digits_wf(v@),
            v@.len() > 0,
            v@[v@.len() - 1] != 0,
            norm(dval(v@), ns as nat) == norm(dval(old(v)@), scale as nat),
        ensures
            digits_wf(v@),
            v@.len() > 0,
            v@[v@.len() - 1] != 0,
            norm(dval(v@), ns as nat) == norm(dval(old(v)@), scale as nat),
            ns == 0 || v@[0] != 0,
        decreases ns,
    {
        proof {
            lemma_dval_low_digit(v@);
            lemma_dval_pos(v@);
        }
        if ns == 0 || v[0] != 0 {
            break;
        }
        proof {
            assert(dval(v@) % 10 == 0);
            lemma_fundamental_div_mod(dval(v@) as int, 10);
            assert(dval(v@) / 10 == dval(v@.skip(1)));
            if v@.len() == 1 {
                assert(v@[v@.len() - 1] == 0);
            }
            assert(v@.remove(0) =~= v@.skip(1));
        }
        v.remove(0);
        ns = ns - 1;
    }
    proof {
        lemma_dval_low_digit(v@);
        if ns > 0 {
            assert(dval(v@) % 10 != 0);
        }
    }
    ns
}

/// Multiplies the value by `10^k` by prepending `k` zero digits.
fn shift_up(v: &Vec<u8>, k: usize) -> (r: Vec<u8>)
    requires
        digits_wf(v@),
    ensures
        digits_wf(r@),
        dval(r@) == dval(v@) * pow10(k as nat),
        r@.len() == v@.len() + k,
        v@.len() > 0 ==> r@[r@.len() - 1] == v@[v@.len() - 1],
{
    let mut r: Vec<u8> = Vec::new();
    let mut j: usize = 0;
    while j < v.len()
        invariant
            j <= v@.len(),
            r@ =~= v@.take(j as int),
        decreases v@.len() - j,
    {
        r.push(v[j]);
        j += 1;
    }
    assert(r@ =~= v@);
    proof {
        vstd::arithmetic::mul::lemma_mul_basics(dval(v@) as int);
        assert(pow10(0nat) == 1);
        assert(dval(r@) == dval(v@) * pow10(0nat));
    }
    let mut i: usize = 0;
    while i < k
        invariant
            i <= k,
            digits_wf(r@),
            digits_wf(v@),
            dval(r@) == dval(v@) * pow10(i as nat),
            r@.len() == v@.len() + i,
            v@.len() > 0 ==> r@[r@.len() - 1] == v@[v@.len() - 1],
        decreases k - i,
    {
        proof {
            let rr = r@.insert(0, 0u8);
            assert(rr.skip(1) =~= r@);
            assert(dval(rr) == 10 * dval(r@));
            assert(10 * (dval(v@) * pow10(i as nat)) == dval(v@) * (10 * pow10(i as nat))) by {
                vstd::arithmetic::mul::lemma_mul_is_associative(10, dval(v@) as int, pow10(i as nat) as int);
                lemma_mul_is_commutative(10, dval(v@) as int);
                vstd::arithmetic::mul::lemma_mul_is_associative(dval(v@) as int, 10, pow10(i as nat) as int);
            }
            assert(pow10((i + 1) as nat) == 10 * pow10(i as nat));
        }
        r.insert(0, 0);
        i += 1;
    }
    r
}

/// Compares two values by their digit sequences: the top digits must be
/// nonzero, so a longer sequence is a larger value, and equal lengths are
/// settled at the highest differing digit.
fn digits_lt(a: &Vec<u8>, b: &Vec<u8>) -> (r: bool)
    requires
        digits_wf(a@),
        digits_wf(b@),
        a@.len() > 0 ==> a@[a@.len() - 1] != 0,
        b@.len() > 0 ==> b@[b@.len() - 1] != 0,
    ensures
        r == (dval(a@) < dval(b@)),
{
    if a.len() < b.len() {
        proof {
            lemma_dval_upper(a@);
            lemma_pow10_mono(a@.len(), (b@.len() - 1) as nat);
            lemma_dval_lower(b@);
        }
        return true;
    }
    if b.len() < a.len() {
        proof {
            lemma_dval_upper(b@);
            lemma_pow10_mono(b@.len(), (a@.len() - 1) as nat);
            lemma_dval_lower(a@);
        }
        return false;
    }
    let n = a.len();
    let mut k = n;
    while k > 0
        invariant
            k <= n,
            n == a@.len(),
            n == b@.len(),
            digits_wf(a@),
            digits_wf(b@),
            forall|j: int| k <= j < n ==> a@[j] == b@[j],
        decreases k,
    {
        k -= 1;
        if a[k] < b[k] {
            proof {
                lemma_dval_cmp_at(b@, a@, k as int);
            }
            return true;
        }
        if a[k] > b[k] {
            proof {
                lemma_dval_cmp_at(a@, b@, k as int);
            }
            return false;
        }
    }
    proof {
        assert(a@ =~= b@);
    }
    false
}

/// Schoolbook subtraction; the subtrahend's value must not be above.
fn raw_sub(a: &Vec<u8>, b: &Vec<u8>) -> (r: Vec<u8>)
    requires
        digits_wf(a@),
        digits_wf(b@),
        dval(b@) <= dval(a@),
    ensures
        digits_wf(r@),
        dval(r@) == dval(a@) - dval(b@),
{
    let n = if a.len() >= b.len() {
        a.len()
    } else {
        b.len()
    };
    let mut r: Vec<u8> = Vec::new();
    let mut c: u8 = 0;
    let mut i: usize = 0;
    while i < n
        invariant
            i <= n,
            n == if a@.len() >= b@.len() { a@.len() } else { b@.len() },
            digits_wf(a@),
            digits_wf(b@),
            digits_wf(r@),
            r@.len() == i,
            c <= 1,
            dval(r@) as int == dtake(a@, i as int) - dtake(b@, i as int) + c * pow10(i as nat),
        decreases n - i,
    {
        let da = if i < a.len() { a[i] } else { 0 };
        let db = if i < b.len() { b[i] } else { 0 };
        let t: i32 = da as i32 - db as i32 - c as i32;
        let digit: u8 = if t < 0 {
            (t + 10) as u8
        } else {
            t as u8
        };
        let borrow: u8 = if t < 0 {
            1
        } else {
            0
        };
        proof {
            lemma_dval_snoc(r@, digit);
            lemma_dtake_step(a@, i as int);
            lemma_dtake_step(b@, i as int);
            let p = pow10(i as nat) as int;
            assert(pow10((i + 1) as nat) == 10 * pow10(i as nat));
            assert((da as int - db as int - c as int) * p == da as int * p - db as int * p
                - c as int * p) by (nonlinear_arith);
            assert((da as int - db as int - c as int + 10) * p == da as int * p - db as int * p
                - c as int * p + 10 * p) by (nonlinear_arith);
        }
        r.push(digit);
        c = borrow;
        i += 1;
    }
    proof {
        if a@.len() == n as int {
            assert(a@.take(n as int) =~= a@);
        }
        if b@.len() == n as int {
            assert(b@.take(n as int) =~= b@);
        }
        assert(dtake(a@, n as int) == dval(a@));
        assert(dtake(b@, n as int) == dval(b@));
        if c == 1 {
            lemma_dval_upper(r@);
        }
    }
    r
}

/// Value of the first `n` digits, or of the whole sequence when `n` passes
/// its end.
spec fn dtake(s: Seq<u8>, n: int) -> nat {
    if n <= s.len() {
        dval(s.take(n))
    } else {
        dval(s)
    }
}

proof fn lemma_dtake_step(s: Seq<u8>, n: int)
    requires
        0 <= n,
    ensures
        dtake(s, n + 1) == dtake(s, n) + (if n < s.len() {
            (s[n] * pow10(n as nat)) as nat
        } else {
            0
        }),
{
    if n < s.len() {
        assert(s.take(n + 1) =~= s.take(n).push(s[n]));
        lemma_dval_snoc(s.take(n), s[n]);
    } else if n == s.len() {
        assert(s.take(n) =~= s);
    }
}

/// Schoolbook addition of two digit sequences.
fn raw_add(a: &Vec<u8>, b: &Vec<u8>) -> (r: Vec<u8>)
    requires
        digits_wf(a@),
        digits_wf(b@),
    ensures
        digits_wf(r@),
        dval(r@) == dval(a@) + dval(b@),
{
    let n = if a.len() >= b.len() {
        a.len()
    } else {
        b.len()
    };
    let mut r: Vec<u8> = Vec::new();
    let mut c: u8 = 0;
    let mut i: usize = 0;
    while i < n
        invariant
            i <= n,
            n == if a@.len() >= b@.len() { a@.len() } else { b@.len() },
            digits_wf(a@),
            digits_wf(b@),
            digits_wf(r@),
            r@.len() == i,
            c <= 1,
            dval(r@) + c * pow10(i as nat) == dtake(a@, i as int) + dtake(b@, i as int),
        decreases n - i,
    {
        let da = if i < a.len() { a[i] } else { 0 };
        let db = if i < b.len() { b[i] } else { 0 };
        let t = da + db + c;
        proof {
            lemma_dval_snoc(r@, (t % 10) as u8);
            lemma_dtake_step(a@, i as int);
            lemma_dtake_step(b@, i as int);
            lemma_fundamental_div_mod(t as int, 10);
            assert(pow10((i + 1) as nat) == 10 * pow10(i as nat));
            let p = pow10(i as nat) as int;
            assert(t * p == (t % 10) * p + (t / 10) * (10 * p)) by {
                lemma_mul_is_distributive_add(p, 10 * ((t as int) / 10), (t as int) % 10);
                lemma_mul_is_commutative(p, 10 * ((t as int) / 10));
                lemma_mul_is_commutative(p, (t as int) % 10);
                vstd::arithmetic::mul::lemma_mul_is_associative((t as int) / 10, 10, p);
                lemma_mul_is_commutative(p, t as int);
            }
            assert((da + db + c) * p == da * p + db * p + c * p) by {
                lemma_mul_is_distributive_add(p, da as int + db as int, c as int);
                lemma_mul_is_distributive_add(p, da as int, db as int);
                lemma_mul_is_commutative(p, da as int + db as int + c as int);
                lemma_mul_is_commutative(p, da as int + db as int);
                lemma_mul_is_commutative(p, da as int);
                lemma_mul_is_commutative(p, db as int);
                lemma_mul_is_commutative(p, c as int);
            }
        }
        r.push(t % 10);
        c = t / 10;
        i += 1;
    }
    proof {
        if a@.len() == n as int {
            assert(a@.take(n as int) =~= a@);
        }
        if b@.len() == n as int {
            assert(b@.take(n as int) =~= b@);
        }
        assert(dtake(a@, n as int) == dval(a@));
        assert(dtake(b@, n as int) == dval(b@));
    }
    if c > 0 {
        proof {
            lemma_dval_snoc(r@, c);
        }
        r.push(c);
    }
    r
}

} // verus!
