//! Character-level helpers shared by the format engines: converting between
//! `str` and `Vec<char>`, searching, splitting into pieces and lines,
//! trimming, and decimal numbers.
use vstd::prelude::*;
use vstd::std_specs::iter::IteratorSpec;

verus! {

broadcast use vstd::std_specs::vec::group_vec_axioms;

/// The views of a sequence of character vectors.
pub open spec fn views(v: Seq<Vec<char>>) -> Seq<Seq<char>> {
    v.map_values(|x: Vec<char>| x@)
}

/// Whitespace as the formats understand it (the ASCII whitespace characters).
pub open spec fn is_ws(c: char) -> bool {
    c == ' ' || c == '\t' || c == '\n' || c == '\r' || c == '\x0b' || c == '\x0c'
}

/// The first index at or after `i` that does not hold whitespace (or the length).
pub open spec fn lead(s: Seq<char>, i: int) -> int
    decreases s.len() - i,
{
    if 0 <= i < s.len() && is_ws(s[i]) {
        lead(s, i + 1)
    } else {
        i
    }
}

/// The end of `s[lo..j]` once trailing whitespace is removed.
pub open spec fn trail(s: Seq<char>, lo: int, j: int) -> int
    decreases j - lo,
{
    if lo < j <= s.len() && is_ws(s[j - 1]) {
        trail(s, lo, j - 1)
    } else {
        j
    }
}

/// `s` without leading and trailing whitespace.
pub open spec fn trim(s: Seq<char>) -> Seq<char> {
    let a = lead(s, 0);
    s.subrange(a, trail(s, a, s.len() as int))
}

/// `s` without leading whitespace.
pub open spec fn trim_start(s: Seq<char>) -> Seq<char> {
    s.skip(lead(s, 0))
}

/// A line that holds only whitespace.
pub open spec fn is_blank(s: Seq<char>) -> bool {
    trim(s).len() == 0
}

pub open spec fn occurs_at(s: Seq<char>, pat: Seq<char>, i: int) -> bool {
    0 <= i && i + pat.len() <= s.len() && s.subrange(i, i + pat.len()) == pat
}

/// The first index at or after `i` where `pat` occurs in `s`, or -1.
pub open spec fn find_from(s: Seq<char>, pat: Seq<char>, i: int) -> int
    decreases s.len() + 1 - i,
{
    if i < 0 || i + pat.len() > s.len() {
        -1
    } else if occurs_at(s, pat, i) {
        i
    } else {
        find_from(s, pat, i + 1)
    }
}

pub open spec fn contains(s: Seq<char>, pat: Seq<char>) -> bool {
    find_from(s, pat, 0) >= 0
}

/// `s` cut around the first occurrence of `pat`.
pub open spec fn split_once(s: Seq<char>, pat: Seq<char>) -> Option<(Seq<char>, Seq<char>)> {
    let k = find_from(s, pat, 0);
    if k < 0 {
        None
    } else {
        Some((s.take(k), s.skip(k + pat.len())))
    }
}

pub open spec fn starts_with(s: Seq<char>, p: Seq<char>) -> bool {
    p.len() <= s.len() && s.take(p.len() as int) == p
}

pub open spec fn ends_with(s: Seq<char>, p: Seq<char>) -> bool {
    p.len() <= s.len() && s.skip(s.len() - p.len()) == p
}

/// The pieces of `s[i..]` between occurrences of `c`.
pub open spec fn split_from(s: Seq<char>, c: char, i: int) -> Seq<Seq<char>>
    decreases s.len() - i,
{
    let k = find_from(s, seq![c], i);
    if i < 0 || i > s.len() {
        seq![]
    } else if k < i || k >= s.len() {
        seq![s.subrange(i, s.len() as int)]
    } else {
        seq![s.subrange(i, k)] + split_from(s, c, k + 1)
    }
}

/// The pieces of `s` between occurrences of `c` (at least one piece).
pub open spec fn split(s: Seq<char>, c: char) -> Seq<Seq<char>> {
    split_from(s, c, 0)
}

/// `s` without one trailing carriage return.
pub open spec fn strip_cr(s: Seq<char>) -> Seq<char> {
    if s.len() > 0 && s.last() == '\r' {
        s.drop_last()
    } else {
        s
    }
}

/// The lines of `s[i..]`: split at `\n` or `\r\n`; a final line ending adds no empty line.
pub open spec fn lines_from(s: Seq<char>, i: int) -> Seq<Seq<char>>
    decreases s.len() - i,
{
    let k = find_from(s, seq!['\n'], i);
    if i < 0 || i >= s.len() {
        seq![]
    } else if k < i || k >= s.len() {
        seq![s.subrange(i, s.len() as int)]
    } else {
        seq![strip_cr(s.subrange(i, k))] + lines_from(s, k + 1)
    }
}

pub open spec fn lines(s: Seq<char>) -> Seq<Seq<char>> {
    lines_from(s, 0)
}

pub open spec fn is_digit(c: char) -> bool {
    '0' <= c && c <= '9'
}

pub open spec fn digit_value(c: char) -> nat {
    (c as int - '0' as int) as nat
}

pub open spec fn digit_char(d: nat) -> char {
    ((d % 10) + '0' as nat) as char
}

/// A nonempty run of decimal digits.
pub open spec fn is_digits(s: Seq<char>) -> bool {
    s.len() > 0 && forall|i: int| 0 <= i < s.len() ==> is_digit(#[trigger] s[i])
}

/// The number that a run of decimal digits denotes.
pub open spec fn digits_value(s: Seq<char>) -> nat
    decreases s.len(),
{
    if s.len() == 0 {
        0
    } else {
        digits_value(s.drop_last()) * 10 + digit_value(s.last())
    }
}

/// The decimal digits of `n`, without leading zeros.
pub open spec fn decimal(n: nat) -> Seq<char>
    decreases n,
{
    if n < 10 {
        seq![digit_char(n)]
    } else {
        decimal(n / 10).push(digit_char(n % 10))
    }
}

/// `s` with zeros in front, up to `width` characters.
pub open spec fn zero_pad(s: Seq<char>, width: nat) -> Seq<char> {
    if s.len() < width {
        Seq::new((width - s.len()) as nat, |i: int| '0') + s
    } else {
        s
    }
}

/// The decimal form of `n` with at least `width` digits.
pub open spec fn padded(n: nat, width: nat) -> Seq<char> {
    zero_pad(decimal(n), width)
}

pub open spec fn ascii_lower(c: char) -> char {
    if 'A' <= c && c <= 'Z' {
        ((c as u32) + 32) as char
    } else {
        c
    }
}

/// Equal up to the case of ASCII letters.
pub open spec fn eq_ignore_case(a: Seq<char>, b: Seq<char>) -> bool {
    a.len() == b.len() && forall|i: int| 0 <= i < a.len() ==> ascii_lower(#[trigger] a[i]) == ascii_lower(b[i])
}

/// Relies on `String::push`: appends one character.
#[verifier::external_body]
fn push_char(s: &mut String, c: char)
    ensures
        final(s)@ == old(s)@.push(c),
{
    s.push(c)
}

/// The characters of `s`, in order.
pub fn chars_of(s: &str) -> (r: Vec<char>)
    ensures
        r@ == s@,
{
    broadcast use vstd::string::group_string_axioms;

    let mut it = s.chars();
    let mut r: Vec<char> = Vec::new();
    loop
        invariant
            it.obeys_prophetic_iter_laws(),
            it.decrease() is Some,
            r@ + it.remaining() == s@,
        ensures
            r@ == s@,
        decreases it.decrease()->0,
    {
        match it.next() {
            Some(c) => {
                r.push(c);
            },
            None => {
                break ;
            },
        }
    }
    r
}

/// The string made of the characters of `v`.
pub fn string_of(v: &[char]) -> (r: String)
    ensures
        r@ == v@,
{
    let mut r = String::new();
    let mut i: usize = 0;
    while i < v.len()
        invariant
            i <= v@.len(),
            r@ == v@.take(i as int),
        decreases v.len() - i,
    {
        push_char(&mut r, v[i]);
        i += 1;
        assert(r@ =~= v@.take(i as int));
    }
    assert(v@.take(v@.len() as int) =~= v@);
    r
}

/// Appends the characters of `p` to `out`.
pub fn push_all(out: &mut Vec<char>, p: &[char])
    ensures
        final(out)@ == old(out)@ + p@,
{
    let mut i: usize = 0;
    while i < p.len()
        invariant
            i <= p@.len(),
            out@ == old(out)@ + p@.take(i as int),
        decreases p.len() - i,
    {
        out.push(p[i]);
        i += 1;
        assert(out@ =~= old(out)@ + p@.take(i as int));
    }
    assert(p@.take(p@.len() as int) =~= p@);
}

/// Appends the characters of `s` to `out`.
pub fn push_str(out: &mut Vec<char>, s: &str)
    ensures
        final(out)@ == old(out)@ + s@,
{
    let v = chars_of(s);
    push_all(out, v.as_slice());
}

/// A copy of `s[a..b]`.
pub fn slice_of(s: &[char], a: usize, b: usize) -> (r: Vec<char>)
    requires
        a <= b <= s@.len(),
    ensures
        r@ == s@.subrange(a as int, b as int),
{
    let mut r: Vec<char> = Vec::new();
    let mut i: usize = a;
    while i < b
        invariant
            a <= i <= b <= s@.len(),
            r@ == s@.subrange(a as int, i as int),
        decreases b - i,
    {
        r.push(s[i]);
        i += 1;
        assert(r@ =~= s@.subrange(a as int, i as int));
    }
    r
}

pub fn is_ws_char(c: char) -> (r: bool)
    ensures
        r == is_ws(c),
{
    c == ' ' || c == '\t' || c == '\n' || c == '\r' || c == '\x0b' || c == '\x0c'
}

/// The first index at or after `i` that does not hold whitespace.
pub fn lead_exec(s: &[char], i: usize) -> (r: usize)
    requires
        i <= s@.len(),
    ensures
        r as int == lead(s@, i as int),
        i <= r <= s@.len(),
{
    let mut j = i;
    while j < s.len() && is_ws_char(s[j])
        invariant
            i <= j <= s@.len(),
            lead(s@, j as int) == lead(s@, i as int),
        decreases s.len() - j,
    {
        j += 1;
    }
    j
}

pub fn trail_exec(s: &[char], lo: usize, j: usize) -> (r: usize)
    requires
        lo <= j <= s@.len(),
    ensures
        r as int == trail(s@, lo as int, j as int),
        lo <= r <= j,
{
    let mut k = j;
    while k > lo && is_ws_char(s[k - 1])
        invariant
            lo <= k <= j <= s@.len(),
            trail(s@, lo as int, k as int) == trail(s@, lo as int, j as int),
        decreases k - lo,
    {
        k -= 1;
    }
    k
}

/// `s` without leading and trailing whitespace.
pub fn trim_exec(s: &[char]) -> (r: Vec<char>)
    ensures
        r@ == trim(s@),
{
    let a = lead_exec(s, 0);
    let b = trail_exec(s, a, s.len());
    slice_of(s, a, b)
}

/// `s` without leading whitespace.
pub fn trim_start_exec(s: &[char]) -> (r: Vec<char>)
    ensures
        r@ == trim_start(s@),
{
    let a = lead_exec(s, 0);
    slice_of(s, a, s.len())
}

pub fn is_blank_exec(s: &[char]) -> (r: bool)
    ensures
        r == is_blank(s@),
{
    let a = lead_exec(s, 0);
    let b = trail_exec(s, a, s.len());
    a == b
}

pub fn occurs_at_exec(s: &[char], pat: &[char], i: usize) -> (r: bool)
    ensures
        r == occurs_at(s@, pat@, i as int),
{
    if i > s.len() || pat.len() > s.len() - i {
        return false;
    }
    let n = s.len();
    let mut k: usize = 0;
    while k < pat.len()
        invariant
            n == s@.len(),
            k <= pat@.len(),
            i <= s@.len(),
            i + pat@.len() <= s@.len(),
            forall|m: int| 0 <= m < k ==> s@[i + m] == pat@[m],
        decreases pat.len() - k,
    {
        assert(i + k < s@.len());
        if s[i + k] != pat[k] {
            assert(s@.subrange(i as int, i + pat@.len())[k as int] != pat@[k as int]);
            return false;
        }
        k += 1;
    }
    assert(s@.subrange(i as int, i + pat@.len()) =~= pat@);
    true
}

/// The first index at or after `i` where `pat` occurs in `s`.
pub fn find_exec(s: &[char], pat: &[char], i: usize) -> (r: Option<usize>)
    requires
        i <= s@.len(),
    ensures
        match r {
            Some(k) => k as int == find_from(s@, pat@, i as int) && i <= k && k + pat@.len()
                <= s@.len() && occurs_at(s@, pat@, k as int),
            None => find_from(s@, pat@, i as int) < 0,
        },
{
    let mut j = i;
    loop
        invariant
            i <= j <= s@.len() + 1,
            find_from(s@, pat@, j as int) == find_from(s@, pat@, i as int),
        decreases s@.len() + 1 - j,
    {
        if j > s.len() || pat.len() > s.len() - j {
            return None;
        }
        if occurs_at_exec(s, pat, j) {
            return Some(j);
        }
        if j >= s.len() {
            assert(find_from(s@, pat@, j as int + 1) < 0);
            return None;
        }
        j += 1;
    }
}

/// The first index at or after `i` that holds `c`.
pub fn find_char(s: &[char], c: char, i: usize) -> (r: Option<usize>)
    requires
        i <= s@.len(),
    ensures
        match r {
            Some(k) => k as int == find_from(s@, seq![c], i as int) && i <= k < s@.len(),
            None => find_from(s@, seq![c], i as int) < 0,
        },
{
    let pat = vec![c];
    assert(pat@ =~= seq![c]);
    find_exec(s, pat.as_slice(), i)
}

pub fn contains_exec(s: &[char], pat: &[char]) -> (r: bool)
    ensures
        r == contains(s@, pat@),
{
    find_exec(s, pat, 0).is_some()
}

/// `s` cut around the first occurrence of `pat`.
pub fn split_once_exec(s: &[char], pat: &[char]) -> (r: Option<(Vec<char>, Vec<char>)>)
    ensures
        match split_once(s@, pat@) {
            Some(p) => r matches Some(q) && q.0@ == p.0 && q.1@ == p.1,
            None => r is None,
        },
{
    let n = s.len();
    match find_exec(s, pat, 0) {
        None => None,
        Some(k) => {
            let a = slice_of(s, 0, k);
            let b = slice_of(s, k + pat.len(), s.len());
            assert(a@ =~= s@.take(k as int));
            assert(b@ =~= s@.skip(k + pat@.len()));
            Some((a, b))
        },
    }
}

pub fn starts_with_exec(s: &[char], p: &[char]) -> (r: bool)
    ensures
        r == starts_with(s@, p@),
{
    let r = occurs_at_exec(s, p, 0);
    assert(s@.subrange(0, p@.len() as int) =~= s@.take(p@.len() as int));
    r
}

pub fn ends_with_exec(s: &[char], p: &[char]) -> (r: bool)
    ensures
        r == ends_with(s@, p@),
{
    if p.len() > s.len() {
        return false;
    }
    let r = occurs_at_exec(s, p, s.len() - p.len());
    assert(s@.subrange(s@.len() - p@.len(), s@.len() as int) =~= s@.skip(s@.len() - p@.len()));
    r
}

/// The pieces of `s` between occurrences of `c`.
pub fn split_exec(s: &[char], c: char) -> (r: Vec<Vec<char>>)
    ensures
        views(r@) == split(s@, c),
{
    let n = s.len();
    let mut r: Vec<Vec<char>> = Vec::new();
    let mut i: usize = 0;
    loop
        invariant
            n == s@.len(),
            i <= s@.len(),
            views(r@) + split_from(s@, c, i as int) == split(s@, c),
        decreases s@.len() - i,
    {
        match find_char(s, c, i) {
            None => {
                let piece = slice_of(s, i, s.len());
                r.push(piece);
                assert(views(r@) =~= split(s@, c));
                return r;
            },
            Some(k) => {
                let piece = slice_of(s, i, k);
                let ghost before = views(r@);
                r.push(piece);
                assert(views(r@) =~= before.push(piece@));
                assert(split_from(s@, c, i as int) =~= seq![piece@] + split_from(
                    s@,
                    c,
                    k + 1,
                ));
                assert(views(r@) + split_from(s@, c, k + 1) =~= before + split_from(
                    s@,
                    c,
                    i as int,
                ));
                i = k + 1;
            },
        }
    }
}

/// `s` without one trailing carriage return.
pub fn strip_cr_exec(s: Vec<char>) -> (r: Vec<char>)
    ensures
        r@ == strip_cr(s@),
{
    let mut s = s;
    if s.len() > 0 && s[s.len() - 1] == '\r' {
        s.pop();
    }
    s
}

/// The lines of `s`.
pub fn lines_exec(s: &[char]) -> (r: Vec<Vec<char>>)
    ensures
        views(r@) == lines(s@),
{
    let mut r: Vec<Vec<char>> = Vec::new();
    let mut i: usize = 0;
    loop
        invariant
            i <= s@.len(),
            views(r@) + lines_from(s@, i as int) == lines(s@),
        decreases s@.len() - i,
    {
        if i >= s.len() {
            assert(views(r@) =~= lines(s@));
            return r;
        }
        match find_char(s, '\n', i) {
            None => {
                let piece = slice_of(s, i, s.len());
                r.push(piece);
                assert(views(r@) =~= lines(s@));
                return r;
            },
            Some(k) => {
                let piece = strip_cr_exec(slice_of(s, i, k));
                let ghost before = views(r@);
                r.push(piece);
                assert(views(r@) =~= before.push(piece@));
                assert(lines_from(s@, i as int) =~= seq![piece@] + lines_from(s@, k + 1));
                assert(views(r@) + lines_from(s@, k + 1) =~= before + lines_from(s@, i as int));
                i = k + 1;
            },
        }
    }
}

pub fn is_digit_exec(c: char) -> (r: bool)
    ensures
        r == is_digit(c),
{
    '0' <= c && c <= '9'
}

/// The value of a run of decimal digits, where it is one and fits in `u32`.
pub fn parse_u32(s: &[char]) -> (r: Option<u32>)
    ensures
        r == (if is_digits(s@) && digits_value(s@) <= u32::MAX {
            Some(digits_value(s@) as u32)
        } else {
            None
        }),
{
    if s.len() == 0 {
        return None;
    }
    let mut v: u64 = 0;
    let mut i: usize = 0;
    while i < s.len()
        invariant
            i <= s@.len(),
            forall|m: int| 0 <= m < i ==> is_digit(#[trigger] s@[m]),
            v == digits_value(s@.take(i as int)),
            v <= u32::MAX,
        decreases s.len() - i,
    {
        assert(s@.take(i + 1).drop_last() =~= s@.take(i as int));
        if !is_digit_exec(s[i]) {
            return None;
        }
        let d = (s[i] as u32 - '0' as u32) as u64;
        let nv = v * 10 + d;
        if nv > u32::MAX as u64 {
            proof {
                lemma_digits_value_grows(s@, i as int + 1);
            }
            return None;
        }
        v = nv;
        i += 1;
    }
    assert(s@.take(s@.len() as int) =~= s@);
    Some(v as u32)
}

/// A longer prefix of digits never denotes a smaller number.
pub proof fn lemma_digits_value_grows(s: Seq<char>, i: int)
    requires
        0 <= i <= s.len(),
    ensures
        digits_value(s) >= digits_value(s.take(i)),
    decreases s.len() - i,
{
    if i < s.len() {
        lemma_digits_value_grows(s, i + 1);
        assert(s.take(i + 1).drop_last() =~= s.take(i));
    } else {
        assert(s.take(i) =~= s);
    }
}

pub open spec fn pow10(n: nat) -> nat
    decreases n,
{
    if n == 0 {
        1
    } else {
        10 * pow10((n - 1) as nat)
    }
}

/// `n` digits denote a number below `10^n`.
pub proof fn lemma_digits_bound(s: Seq<char>)
    requires
        forall|i: int| 0 <= i < s.len() ==> is_digit(#[trigger] s[i]),
    ensures
        digits_value(s) < pow10(s.len()),
    decreases s.len(),
{
    if s.len() > 0 {
        let t = s.drop_last();
        assert(forall|i: int| 0 <= i < t.len() ==> t[i] == s[i]);
        lemma_digits_bound(t);
        let a = digits_value(t);
        let p = pow10(t.len());
        let d = digit_value(s.last());
        assert(is_digit(s[s.len() - 1]));
        assert(d <= 9);
        assert(a * 10 + d < 10 * p) by (nonlinear_arith)
            requires
                a < p,
                d <= 9,
        ;
    }
}

/// The decimal digits of `n`.
pub fn decimal_exec(n: u64) -> (r: Vec<char>)
    ensures
        r@ == decimal(n as nat),
    decreases n,
{
    if n < 10 {
        let c = ((n as u32) + ('0' as u32)) as u8 as char;
        let r = vec![c];
        assert(r@ =~= decimal(n as nat));
        r
    } else {
        let mut r = decimal_exec(n / 10);
        let c = (((n % 10) as u32) + ('0' as u32)) as u8 as char;
        r.push(c);
        r
    }
}

/// Appends the decimal digits of `n`, with zeros in front up to `width` digits.
pub fn push_padded(out: &mut Vec<char>, n: u64, width: usize)
    ensures
        final(out)@ == old(out)@ + padded(n as nat, width as nat),
{
    let d = decimal_exec(n);
    let mut k: usize = d.len();
    let ghost start = out@;
    while k < width
        invariant
            d.len() <= k,
            k <= width || k == d.len(),
            out@ == start + Seq::new((k - d.len()) as nat, |i: int| '0'),
        decreases width - k,
    {
        out.push('0');
        k += 1;
        assert(out@ =~= start + Seq::new((k - d.len()) as nat, |i: int| '0'));
    }
    push_all(out, d.as_slice());
    if d.len() < width {
        assert(out@ =~= start + padded(n as nat, width as nat));
    } else {
        assert(out@ =~= start + padded(n as nat, width as nat));
    }
}

pub fn ascii_lower_exec(c: char) -> (r: char)
    ensures
        r == ascii_lower(c),
{
    if 'A' <= c && c <= 'Z' {
        ((c as u32) + 32) as u8 as char
    } else {
        c
    }
}

pub fn eq_ignore_case_exec(a: &[char], b: &[char]) -> (r: bool)
    ensures
        r == eq_ignore_case(a@, b@),
{
    if a.len() != b.len() {
        return false;
    }
    let mut i: usize = 0;
    while i < a.len()
        invariant
            i <= a@.len(),
            a@.len() == b@.len(),
            forall|m: int| 0 <= m < i ==> ascii_lower(#[trigger] a@[m]) == ascii_lower(b@[m]),
        decreases a.len() - i,
    {
        if ascii_lower_exec(a[i]) != ascii_lower_exec(b[i]) {
            return false;
        }
        i += 1;
    }
    true
}

pub fn eq_chars(a: &[char], b: &[char]) -> (r: bool)
    ensures
        r == (a@ == b@),
{
    if a.len() != b.len() {
        return false;
    }
    let mut i: usize = 0;
    while i < a.len()
        invariant
            i <= a@.len(),
            a@.len() == b@.len(),
            forall|m: int| 0 <= m < i ==> a@[m] == b@[m],
        decreases a.len() - i,
    {
        if a[i] != b[i] {
            return false;
        }
        i += 1;
    }
    assert(a@ =~= b@);
    true
}

/// The first line at or after `i` that is not blank (or the count of lines).
pub open spec fn next_filled(ls: Seq<Seq<char>>, i: int) -> int
    decreases ls.len() - i,
{
    if 0 <= i < ls.len() && is_blank(ls[i]) {
        next_filled(ls, i + 1)
    } else {
        i
    }
}

/// The first line at or after `i` that is blank (or the count of lines).
pub open spec fn next_blank(ls: Seq<Seq<char>>, i: int) -> int
    decreases ls.len() - i,
{
    if 0 <= i < ls.len() && !is_blank(ls[i]) {
        next_blank(ls, i + 1)
    } else {
        i
    }
}

/// The blocks of `ls[i..]`: maximal runs of lines that are not blank, as
/// ranges `[a, b)` of line indices.
pub open spec fn blocks_from(ls: Seq<Seq<char>>, i: int) -> Seq<(int, int)>
    decreases ls.len() - i,
{
    let a = next_filled(ls, i);
    let b = next_blank(ls, a);
    if i < 0 || a >= ls.len() || a < i || b <= a || b > ls.len() {
        seq![]
    } else {
        seq![(a, b)] + blocks_from(ls, b)
    }
}

pub open spec fn blocks(ls: Seq<Seq<char>>) -> Seq<(int, int)> {
    blocks_from(ls, 0)
}

pub proof fn lemma_next_filled_bounds(ls: Seq<Seq<char>>, i: int)
    requires
        0 <= i <= ls.len(),
    ensures
        i <= next_filled(ls, i) <= ls.len(),
    decreases ls.len() - i,
{
    if i < ls.len() && is_blank(ls[i]) {
        lemma_next_filled_bounds(ls, i + 1);
    }
}

pub proof fn lemma_next_blank_bounds(ls: Seq<Seq<char>>, i: int)
    requires
        0 <= i <= ls.len(),
    ensures
        i <= next_blank(ls, i) <= ls.len(),
    decreases ls.len() - i,
{
    if i < ls.len() && !is_blank(ls[i]) {
        lemma_next_blank_bounds(ls, i + 1);
    }
}

/// Every block lies within the lines, is nonempty, and holds no blank line.
pub proof fn lemma_blocks_bounds(ls: Seq<Seq<char>>, i: int)
    requires
        0 <= i <= ls.len(),
    ensures
        forall|k: int|
            0 <= k < blocks_from(ls, i).len() ==> i <= (#[trigger] blocks_from(ls, i)[k]).0 < blocks_from(
                ls,
                i,
            )[k].1 <= ls.len(),
    decreases ls.len() - i,
{
    lemma_next_filled_bounds(ls, i);
    let a = next_filled(ls, i);
    lemma_next_blank_bounds(ls, a);
    let b = next_blank(ls, a);
    if a < ls.len() && b > a {
        lemma_blocks_bounds(ls, b);
        let rest = blocks_from(ls, b);
        assert(blocks_from(ls, i) == seq![(a, b)] + rest);
        assert forall|k: int| 0 <= k < blocks_from(ls, i).len() implies i <= (
        #[trigger] blocks_from(ls, i)[k]).0 < blocks_from(ls, i)[k].1 <= ls.len() by {
            if k > 0 {
                assert(blocks_from(ls, i)[k] == rest[k - 1]);
            }
        }
    }
}

/// The blocks of the lines `ls`.
pub fn blocks_exec(ls: &Vec<Vec<char>>) -> (r: Vec<(usize, usize)>)
    ensures
        r@.len() == blocks(views(ls@)).len(),
        forall|k: int|
            0 <= k < r@.len() ==> (#[trigger] r@[k]).0 as int == blocks(views(ls@))[k].0 && r@[k].1 as int
                == blocks(views(ls@))[k].1,
        forall|k: int| 0 <= k < r@.len() ==> (#[trigger] r@[k]).0 < r@[k].1 <= ls@.len(),
{
    let ghost v = views(ls@);
    proof {
        lemma_blocks_bounds(v, 0);
    }
    let mut r: Vec<(usize, usize)> = Vec::new();
    let mut i: usize = 0;
    let n = ls.len();
    let ghost acc: Seq<(int, int)> = seq![];
    loop
        invariant
            n == ls@.len(),
            v == views(ls@),
            i <= n,
            acc + blocks_from(v, i as int) == blocks(v),
            r@.len() == acc.len(),
            forall|k: int|
                0 <= k < r@.len() ==> (#[trigger] r@[k]).0 as int == acc[k].0 && r@[k].1 as int
                    == acc[k].1,
            forall|k: int| 0 <= k < r@.len() ==> (#[trigger] r@[k]).0 < r@[k].1 <= n,
        decreases n - i,
    {
        let mut a = i;
        while a < n && is_blank_exec(ls[a].as_slice())
            invariant
                n == ls@.len(),
                v == views(ls@),
                i <= a <= n,
                next_filled(v, a as int) == next_filled(v, i as int),
            decreases n - a,
        {
            assert(v[a as int] == ls@[a as int]@);
            a += 1;
        }
        if a < n {
            assert(v[a as int] == ls@[a as int]@);
        }
        if a >= n {
            assert(acc =~= blocks(v));
            return r;
        }
        let mut b = a;
        while b < n && !is_blank_exec(ls[b].as_slice())
            invariant
                n == ls@.len(),
                v == views(ls@),
                a <= b <= n,
                next_blank(v, b as int) == next_blank(v, a as int),
            decreases n - b,
        {
            assert(v[b as int] == ls@[b as int]@);
            b += 1;
        }
        if b < n {
            assert(v[b as int] == ls@[b as int]@);
        }
        assert(b > a);
        r.push((a, b));
        proof {
            assert(blocks_from(v, i as int) == seq![(a as int, b as int)] + blocks_from(v, b as int));
            acc = acc.push((a as int, b as int));
            assert(acc + blocks_from(v, b as int) =~= blocks(v));
        }
        i = b;
    }
}

/// The pieces joined, with `sep` between each two.
pub open spec fn join(parts: Seq<Seq<char>>, sep: Seq<char>) -> Seq<char>
    decreases parts.len(),
{
    if parts.len() == 0 {
        seq![]
    } else if parts.len() == 1 {
        parts[0]
    } else {
        join(parts.drop_last(), sep) + sep + parts.last()
    }
}

/// Appends the lines `ls[a..b]`, joined with `sep`.
pub fn push_joined(out: &mut Vec<char>, ls: &Vec<Vec<char>>, a: usize, b: usize, sep: &[char])
    requires
        a <= b <= ls@.len(),
    ensures
        final(out)@ == old(out)@ + join(views(ls@).subrange(a as int, b as int), sep@),
{
    let ghost v = views(ls@);
    let mut i = a;
    while i < b
        invariant
            a <= i <= b <= ls@.len(),
            v == views(ls@),
            out@ == old(out)@ + join(v.subrange(a as int, i as int), sep@),
        decreases b - i,
    {
        let ghost before = out@;
        if i > a {
            push_all(out, sep);
        }
        push_all(out, ls[i].as_slice());
        proof {
            let p = v.subrange(a as int, i + 1);
            assert(p.drop_last() =~= v.subrange(a as int, i as int));
            assert(p.last() == ls@[i as int]@);
            if i == a {
                assert(p.len() == 1);
            }
        }
        i += 1;
    }
}

/// There are no more lines than characters.
pub proof fn lemma_lines_len(s: Seq<char>, i: int)
    requires
        0 <= i <= s.len(),
    ensures
        lines_from(s, i).len() <= s.len() - i,
    decreases s.len() - i,
{
    let k = find_from(s, seq!['\n'], i);
    if i < s.len() && !(k < i || k >= s.len()) {
        lemma_lines_len(s, k + 1);
    }
}

/// The value of a run of decimal digits that fits in `u32`.
pub open spec fn u32_text(s: Seq<char>) -> Option<u32> {
    if is_digits(s) && digits_value(s) <= u32::MAX {
        Some(digits_value(s) as u32)
    } else {
        None
    }
}

/// The pieces of `s[i..]` between occurrences of `c`, at most `n` of them: the
/// last piece keeps the rest.
pub open spec fn splitn_from(s: Seq<char>, c: char, i: int, n: int) -> Seq<Seq<char>>
    decreases s.len() - i,
{
    let k = find_from(s, seq![c], i);
    if i < 0 || i > s.len() {
        seq![]
    } else if n <= 1 || k < i || k >= s.len() {
        seq![s.subrange(i, s.len() as int)]
    } else {
        seq![s.subrange(i, k)] + splitn_from(s, c, k + 1, n - 1)
    }
}

/// The pieces of `s` between occurrences of `c`, at most `n` of them.
pub fn splitn_exec(s: &[char], n: usize, c: char) -> (r: Vec<Vec<char>>)
    ensures
        views(r@) == splitn_from(s@, c, 0, n as int),
{
    let len = s.len();
    let mut r: Vec<Vec<char>> = Vec::new();
    let mut i: usize = 0;
    let mut left: usize = n;
    loop
        invariant
            len == s@.len(),
            i <= s@.len(),
            views(r@) + splitn_from(s@, c, i as int, left as int) == splitn_from(s@, c, 0, n as int),
        decreases s@.len() - i,
    {
        let f = if left <= 1 { None } else { find_char(s, c, i) };
        match f {
            None => {
                let piece = slice_of(s, i, len);
                let ghost before = views(r@);
                r.push(piece);
                assert(views(r@) =~= before.push(piece@));
                assert(views(r@) =~= before + splitn_from(s@, c, i as int, left as int));
                return r;
            },
            Some(k) => {
                let piece = slice_of(s, i, k);
                let ghost before = views(r@);
                r.push(piece);
                assert(views(r@) =~= before.push(piece@));
                assert(splitn_from(s@, c, i as int, left as int) =~= seq![piece@] + splitn_from(
                    s@,
                    c,
                    k + 1,
                    left - 1,
                ));
                assert(views(r@) + splitn_from(s@, c, k + 1, left - 1) =~= before + splitn_from(
                    s@,
                    c,
                    i as int,
                    left as int,
                ));
                i = k + 1;
                left = left - 1;
            },
        }
    }
}

/// Where `c` is found at or after `i`, it is there and not before.
pub proof fn lemma_find_bounds_char(s: Seq<char>, c: char, i: int)
    requires
        0 <= i <= s.len(),
    ensures
        find_from(s, seq![c], i) >= 0 ==> i <= find_from(s, seq![c], i) < s.len() && occurs_at(
            s,
            seq![c],
            find_from(s, seq![c], i),
        ),
    decreases s.len() + 1 - i,
{
    if i + 1 <= s.len() && !occurs_at(s, seq![c], i) {
        lemma_find_bounds_char(s, c, i + 1);
    }
}

} // verus!
