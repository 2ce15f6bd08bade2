//! Decimal numbers as the styled-script and cue-block formats write them
//! (`25.5`, `-1`, `0030`, `50%`): a sign, a mantissa and a count of
//! fractional digits, kept in the shortest form.
use vstd::prelude::*;
use crate::text::{
    decimal, digits_value, is_digit, is_digit_exec, is_digits, lemma_digits_bound, padded, pow10,
    push_padded, split_once, split_once_exec, slice_of, chars_of, string_of, decimal_exec, push_all,
};

verus! {

/// The number `(-1)^negative * mantissa / 10^scale`.
#[derive(Clone, Copy, Debug, PartialEq, Eq, Structural)]
pub struct Decimal {
    pub negative: bool,
    pub mantissa: u64,
    pub scale: u8,
}

pub open spec fn all_digits(s: Seq<char>) -> bool {
    forall|i: int| 0 <= i < s.len() ==> is_digit(#[trigger] s[i])
}

pub open spec fn sign_len(s: Seq<char>) -> int {
    if s.len() > 0 && (s[0] == '-' || s[0] == '+') {
        1
    } else {
        0
    }
}

/// The sign, the integer digits and the fractional digits of a decimal text.
pub open spec fn decimal_parts(s: Seq<char>) -> Option<(bool, Seq<char>, Seq<char>)> {
    let neg = s.len() > 0 && s[0] == '-';
    let body = s.skip(sign_len(s));
    match split_once(body, seq!['.']) {
        Some(p) => if all_digits(p.0) && all_digits(p.1) && p.0.len() + p.1.len() > 0 {
            Some((neg, p.0, p.1))
        } else {
            None
        },
        None => if is_digits(body) {
            Some((neg, body, seq![]))
        } else {
            None
        },
    }
}

/// Drops the trailing zeros of the fraction.
pub open spec fn normalize(m: nat, k: nat) -> (nat, nat)
    decreases k,
{
    if k > 0 && m % 10 == 0 {
        normalize(m / 10, (k - 1) as nat)
    } else {
        (m, k)
    }
}

pub open spec fn max_scale() -> nat {
    19
}

/// The number a decimal text denotes, where it is one whose digits fit.
pub open spec fn decimal_spec(s: Seq<char>) -> Option<Decimal> {
    match decimal_parts(s) {
        Some(p) => {
            let m = digits_value(p.1 + p.2);
            if m <= u64::MAX && p.2.len() <= max_scale() {
                let n = normalize(m, p.2.len());
                Some(Decimal { negative: p.0 && n.0 != 0, mantissa: n.0 as u64, scale: n.1 as u8 })
            } else {
                None
            }
        },
        None => None,
    }
}

impl Decimal {
    /// In shortest form: no trailing zero in the fraction, no negative zero.
    pub open spec fn wf(self) -> bool {
        &&& self.scale <= max_scale()
        &&& (self.scale == 0 || self.mantissa % 10 != 0)
        &&& (self.negative ==> self.mantissa != 0)
    }

    /// The text of the number: its digits, with a point before the last `scale` of them.
    pub open spec fn spec_text(self) -> Seq<char> {
        let digits = padded(self.mantissa as nat, self.scale as nat + 1);
        let cut = digits.len() - self.scale as int;
        let sign: Seq<char> = if self.negative { seq!['-'] } else { seq![] };
        let frac: Seq<char> = if self.scale > 0 {
            seq!['.'] + digits.skip(cut)
        } else {
            seq![]
        };
        sign + digits.take(cut) + frac
    }

    /// The whole number `n`.
    pub fn whole(n: u64) -> (r: Decimal)
        ensures
            r == (Decimal { negative: false, mantissa: n, scale: 0 }),
            r.wf(),
    {
        Decimal { negative: false, mantissa: n, scale: 0 }
    }

    /// Reads a decimal: an optional sign, digits, and an optional `.` with more digits.
    pub fn parse(s: &str) -> (r: Option<Decimal>)
        ensures
            r == decimal_spec(s@),
    {
        let v = chars_of(s);
        parse_decimal_chars(v.as_slice())
    }

    pub fn text_chars(&self) -> (r: Vec<char>)
        ensures
            r@ == self.spec_text(),
    {
        let mut digits: Vec<char> = Vec::new();
        push_padded(&mut digits, self.mantissa, self.scale as usize + 1);
        assert(digits@ =~= padded(self.mantissa as nat, self.scale as nat + 1));
        let n = digits.len();
        let cut = n - self.scale as usize;
        let mut out: Vec<char> = Vec::new();
        if self.negative {
            out.push('-');
        }
        push_all(&mut out, slice_of(digits.as_slice(), 0, cut).as_slice());
        if self.scale > 0 {
            out.push('.');
            push_all(&mut out, slice_of(digits.as_slice(), cut, n).as_slice());
        }
        assert(digits@.subrange(0, cut as int) =~= digits@.take(cut as int));
        assert(digits@.subrange(cut as int, n as int) =~= digits@.skip(cut as int));
        assert(out@ =~= self.spec_text());
        out
    }

    /// The text of the number.
    pub fn to_string(&self) -> (r: String)
        ensures
            r@ == self.spec_text(),
    {
        string_of(self.text_chars().as_slice())
    }
}

proof fn lemma_normalize_wf(m: nat, k: nat)
    ensures
        normalize(m, k).1 <= k,
        normalize(m, k).0 <= m,
        normalize(m, k).1 == 0 || normalize(m, k).0 % 10 != 0,
    decreases k,
{
    if k > 0 && m % 10 == 0 {
        lemma_normalize_wf(m / 10, (k - 1) as nat);
    }
}

/// The value of a run of decimal digits (zero when empty), where every
/// character is a digit and the value fits in `u64`.
pub fn digits_u64(s: &[char]) -> (r: Option<u64>)
    ensures
        r == (if all_digits(s@) && digits_value(s@) <= u64::MAX {
            Some(digits_value(s@) as u64)
        } else {
            None
        }),
{
    let mut v: u64 = 0;
    let mut i: usize = 0;
    let n = s.len();
    while i < n
        invariant
            n == s@.len(),
            i <= n,
            forall|m: int| 0 <= m < i ==> is_digit(#[trigger] s@[m]),
            v == digits_value(s@.take(i as int)),
        decreases n - i,
    {
        assert(s@.take(i + 1).drop_last() =~= s@.take(i as int));
        if !is_digit_exec(s[i]) {
            return None;
        }
        let d = (s[i] as u32 - '0' as u32) as u64;
        if v > (u64::MAX - d) / 10 {
            proof {
                crate::text::lemma_digits_value_grows(s@, i as int + 1);
            }
            return None;
        }
        v = v * 10 + d;
        i += 1;
    }
    assert(s@.take(n as int) =~= s@);
    Some(v)
}

/// Parses the characters of a decimal.
pub fn parse_decimal_chars(s: &[char]) -> (r: Option<Decimal>)
    ensures
        r == decimal_spec(s@),
        r matches Some(d) ==> d.wf(),
{
    let n = s.len();
    let neg = n > 0 && s[0] == '-';
    let start: usize = if n > 0 && (s[0] == '-' || s[0] == '+') { 1 } else { 0 };
    let body = slice_of(s, start, n);
    assert(body@ =~= s@.skip(sign_len(s@)));
    let dot = vec!['.'];
    assert(dot@ =~= seq!['.']);
    let (int_part, frac_part) = match split_once_exec(body.as_slice(), dot.as_slice()) {
        Some(p) => {
            if p.0.len() == 0 && p.1.len() == 0 {
                return None;
            }
            p
        },
        None => {
            if body.len() == 0 {
                return None;
            }
            (body, Vec::new())
        },
    };
    let mut all: Vec<char> = Vec::new();
    push_all(&mut all, int_part.as_slice());
    push_all(&mut all, frac_part.as_slice());
    let m = match digits_u64(all.as_slice()) {
        Some(m) => m,
        None => {
            proof {
                assert(forall|j: int| 0 <= j < int_part@.len() ==> all@[j] == int_part@[j]);
                assert(forall|j: int| 0 <= j < frac_part@.len() ==> all@[int_part@.len() + j] == frac_part@[j]);
            }
            return None;
        },
    };
    proof {
        assert(forall|j: int| 0 <= j < int_part@.len() ==> all@[j] == int_part@[j]);
        assert(forall|j: int| 0 <= j < frac_part@.len() ==> all@[int_part@.len() + j] == frac_part@[j]);
    }
    if frac_part.len() > 19 {
        return None;
    }
    let mut mm = m;
    let mut k: u8 = frac_part.len() as u8;
    while k > 0 && mm % 10 == 0
        invariant
            normalize(mm as nat, k as nat) == normalize(m as nat, frac_part@.len()),
        decreases k,
    {
        mm = mm / 10;
        k = k - 1;
    }
    proof {
        lemma_normalize_wf(m as nat, frac_part@.len());
    }
    Some(Decimal { negative: neg && mm != 0, mantissa: mm, scale: k })
}

} // verus!
