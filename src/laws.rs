//! Properties that relate several operations of the library.
use vstd::prelude::*;
use crate::color::{all_hex, hex2, hex_byte, hex_char, hex_value, ssa_color_spec, Color};
use crate::decimal::all_digits;
use crate::ssa::{
    colour, converts, fold_columns, style_columns, style_from, style_row, ColumnKind, SSAFault,
    SSAStyleView,
};
use crate::srt::{srt_block_spec, SRTLineView};
use crate::vtt::{
    arrow, cue_spec, first_word, has_preamble, lemma_blocks_err_stays, vtt_blocks_upto, vtt_parse_spec,
    VTTFault, VTTLineView, VTTView,
};
use crate::text::{blocks, contains, is_ws, join, lead, lines, split_once, trail, trim, u32_text};
use crate::text::{
    decimal, digit_char, digit_value, digits_value, find_from, is_digit, is_digits, occurs_at,
    padded, split, split_from, zero_pad,
};
use crate::time::{
    fraction_len, fraction_sep, fraction_unit, hms_value, parse_time_spec, seconds_part,
    sexagesimal, time_text_value, Time, TimeFormat,
};

verus! {

/// An opaque color is written with six hex digits in both forms; any other
/// color with eight, its alpha among them (first in the script form, last in
/// the web form).
pub proof fn lemma_color_alpha_digits(c: Color)
    ensures
        c.a == 255 ==> c.spec_ssa_string().len() == 8 && c.spec_vtt_string().len() == 7,
        c.a != 255 ==> c.spec_ssa_string().len() == 10 && c.spec_vtt_string().len() == 9
            && c.spec_ssa_string().subrange(2, 4) == hex2(c.a) && c.spec_vtt_string().subrange(7, 9)
            == hex2(c.a),
{
    if c.a != 255 {
        assert(c.spec_ssa_string().subrange(2, 4) =~= hex2(c.a));
        assert(c.spec_vtt_string().subrange(7, 9) =~= hex2(c.a));
    }
}

proof fn lemma_hex2(v: u8)
    ensures
        hex_value(hex2(v)[0]) == Some((v as nat / 16)),
        hex_value(hex2(v)[1]) == Some((v as nat % 16)),
{
}

/// Writing a color in script-hex form and reading it back gives the same color.
pub proof fn lemma_color_ssa_round_trip(c: Color)
    ensures
        ssa_color_spec(c.spec_ssa_string()) == Ok::<Color, crate::color::ColorError>(c),
{
    let s = c.spec_ssa_string();
    let d = s.skip(2);
    lemma_hex2(c.r);
    lemma_hex2(c.g);
    lemma_hex2(c.b);
    lemma_hex2(c.a);
    if c.a == 255 {
        assert(d =~= hex2(c.b) + hex2(c.g) + hex2(c.r));
        assert(hex_byte(d, 0) == c.b);
        assert(hex_byte(d, 1) == c.g);
        assert(hex_byte(d, 2) == c.r);
    } else {
        assert(d =~= hex2(c.a) + hex2(c.b) + hex2(c.g) + hex2(c.r));
        assert(hex_byte(d, 0) == c.a);
        assert(hex_byte(d, 1) == c.b);
        assert(hex_byte(d, 2) == c.g);
        assert(hex_byte(d, 3) == c.r);
    }
    assert(all_hex(d)) by {
        assert forall|i: int| 0 <= i < d.len() implies (#[trigger] hex_value(d[i])) is Some by {
            let k = i / 2;
            assert(d[i] == if i % 2 == 0 { d[2 * k] } else { d[2 * k + 1] });
        }
    }
}

proof fn lemma_decimal(n: nat)
    ensures
        all_digits(decimal(n)),
        decimal(n).len() >= 1,
        digits_value(decimal(n)) == n,
        n < 10 ==> decimal(n).len() == 1,
        n < 100 ==> decimal(n).len() <= 2,
        n < 1000 ==> decimal(n).len() <= 3,
    decreases n,
{
    if n < 10 {
        let s = decimal(n);
        assert(s == seq![digit_char(n)]);
        assert(s.drop_last() =~= Seq::<char>::empty());
        assert(s.last() == digit_char(n));
        assert(digit_value(digit_char(n)) == n);
        assert(digits_value(s) == digits_value(s.drop_last()) * 10 + digit_value(s.last()));
        assert(digits_value(Seq::<char>::empty()) == 0);
    } else {
        lemma_decimal(n / 10);
        let d = decimal(n / 10);
        let s = d.push(digit_char(n % 10));
        assert(decimal(n) == s);
        assert(s.drop_last() =~= d);
        assert(digit_value(digit_char(n % 10)) == n % 10);
        assert(s.last() == digit_char(n % 10));
        assert(digits_value(s) == digits_value(d) * 10 + digit_value(s.last()));
        assert((n / 10) * 10 + n % 10 == n);
        assert(is_digit(digit_char(n % 10)));
        assert(forall|i: int| 0 <= i < d.len() ==> s[i] == d[i]);
    }
}

proof fn lemma_zeros_only(z: Seq<char>)
    requires
        forall|i: int| 0 <= i < z.len() ==> z[i] == '0',
    ensures
        digits_value(z) == 0,
    decreases z.len(),
{
    if z.len() > 0 {
        lemma_zeros_only(z.drop_last());
    }
}

proof fn lemma_zeros_value(z: Seq<char>, s: Seq<char>)
    requires
        forall|i: int| 0 <= i < z.len() ==> z[i] == '0',
    ensures
        digits_value(z + s) == digits_value(s),
    decreases s.len(),
{
    if s.len() == 0 {
        assert(z + s =~= z);
        lemma_zeros_only(z);
    } else {
        assert((z + s).drop_last() =~= z + s.drop_last());
        lemma_zeros_value(z, s.drop_last());
    }
}

proof fn lemma_padded(n: nat, w: nat)
    ensures
        all_digits(padded(n, w)),
        padded(n, w).len() >= 1,
        padded(n, w).len() >= w,
        decimal(n).len() <= w ==> padded(n, w).len() == w,
        digits_value(padded(n, w)) == n,
{
    lemma_decimal(n);
    let d = decimal(n);
    if d.len() < w {
        let z = Seq::new((w - d.len()) as nat, |i: int| '0');
        lemma_zeros_value(z, d);
        assert(padded(n, w) == z + d);
        assert(forall|i: int| 0 <= i < (z + d).len() ==> is_digit(#[trigger] (z + d)[i])) by {
            assert forall|i: int| 0 <= i < (z + d).len() implies is_digit(#[trigger] (z + d)[i]) by {
                if i >= z.len() {
                    assert((z + d)[i] == d[i - z.len()]);
                }
            }
        }
    }
}

proof fn lemma_occurs_char(s: Seq<char>, c: char, j: int)
    requires
        0 <= j < s.len(),
    ensures
        occurs_at(s, seq![c], j) <==> s[j] == c,
{
    if s[j] == c {
        assert(s.subrange(j, j + 1) =~= seq![c]);
    } else {
        assert(s.subrange(j, j + 1)[0] != seq![c][0]);
    }
}

proof fn lemma_find_char(s: Seq<char>, c: char, i: int, k: int)
    requires
        0 <= i <= k < s.len(),
        s[k] == c,
        forall|j: int| i <= j < k ==> s[j] != c,
    ensures
        find_from(s, seq![c], i) == k,
    decreases k - i,
{
    lemma_occurs_char(s, c, i);
    if i < k {
        lemma_find_char(s, c, i + 1, k);
    }
}

proof fn lemma_find_char_none(s: Seq<char>, c: char, i: int)
    requires
        0 <= i <= s.len(),
        forall|j: int| i <= j < s.len() ==> s[j] != c,
    ensures
        find_from(s, seq![c], i) < 0,
    decreases s.len() - i,
{
    if i < s.len() {
        lemma_occurs_char(s, c, i);
        lemma_find_char_none(s, c, i + 1);
    }
}

/// Three pieces free of `c`, joined by `c`, split back into the same three.
proof fn lemma_split3(a: Seq<char>, b: Seq<char>, r: Seq<char>, c: char)
    requires
        forall|j: int| 0 <= j < a.len() ==> a[j] != c,
        forall|j: int| 0 <= j < b.len() ==> b[j] != c,
        forall|j: int| 0 <= j < r.len() ==> r[j] != c,
    ensures
        split(a + seq![c] + b + seq![c] + r, c) == seq![a, b, r],
{
    let s = a + seq![c] + b + seq![c] + r;
    let first_cut = a.len() as int;
    let second_cut = first_cut + 1 + b.len();
    assert(s[first_cut] == c);
    assert(s[second_cut] == c);
    assert forall|j: int| 0 <= j < first_cut implies s[j] != c by {
        assert(s[j] == a[j]);
    }
    assert forall|j: int| first_cut + 1 <= j < second_cut implies s[j] != c by {
        assert(s[j] == b[j - first_cut - 1]);
    }
    assert forall|j: int| second_cut + 1 <= j < s.len() implies s[j] != c by {
        assert(s[j] == r[j - second_cut - 1]);
    }
    lemma_find_char(s, c, 0, first_cut);
    lemma_find_char(s, c, first_cut + 1, second_cut);
    lemma_find_char_none(s, c, second_cut + 1);
    assert(s.subrange(0, first_cut) =~= a);
    assert(s.subrange(first_cut + 1, second_cut) =~= b);
    assert(s.subrange(second_cut + 1, s.len() as int) =~= r);
    assert(split_from(s, c, second_cut + 1) == seq![r]);
    assert(split_from(s, c, first_cut + 1) == seq![b] + seq![r]);
    assert(split_from(s, c, 0) == seq![a] + (seq![b] + seq![r]));
    assert(seq![a] + (seq![b] + seq![r]) =~= seq![a, b, r]);
}

proof fn lemma_no_char_in_digits(s: Seq<char>, c: char)
    requires
        all_digits(s),
        !is_digit(c),
    ensures
        forall|j: int| 0 <= j < s.len() ==> s[j] != c,
{
    assert forall|j: int| 0 <= j < s.len() implies s[j] != c by {
        assert(is_digit(s[j]));
    }
}

/// The fields of a time add back up to it.
proof fn lemma_time_parts(t: Time)
    ensures
        t.spec_hours() * 3_600_000 + t.spec_minutes() * 60_000 + t.spec_seconds() * 1000
            + t.spec_millis() == t.spec_ms(),
        t.spec_minutes() < 60,
        t.spec_seconds() < 60,
        t.spec_millis() < 1000,
{
    let x = t.ms as int;
    assert(x == (x / 3_600_000) * 3_600_000 + ((x / 60_000) % 60) * 60_000 + ((x / 1000) % 60) * 1000 + x % 1000);
}

/// Writing a time in a dialect and reading it back gives the same time, where
/// the dialect can hold it (the centisecond dialect holds whole centiseconds).
pub proof fn lemma_time_format_parse(t: Time, f: TimeFormat)
    requires
        f != TimeFormat::Ass || t.ms % 10 == 0,
    ensures
        parse_time_spec(t.spec_format(f), f) == Some(t),
{
    lemma_time_parts(t);
    let hw: nat = if f == TimeFormat::Ass { 1 } else { 2 };
    let frac = if f == TimeFormat::Ass { t.spec_millis() / 10 } else { t.spec_millis() };
    let hs = padded(t.spec_hours(), hw);
    let ms = padded(t.spec_minutes(), 2);
    let ss = padded(t.spec_seconds(), 2);
    let fs = padded(frac, fraction_len(f));
    lemma_padded(t.spec_hours(), hw);
    lemma_padded(t.spec_minutes(), 2);
    lemma_padded(t.spec_seconds(), 2);
    lemma_padded(frac, fraction_len(f));
    lemma_decimal(t.spec_minutes());
    lemma_decimal(t.spec_seconds());
    lemma_decimal(frac);
    let rest = ss + seq![fraction_sep(f)] + fs;
    lemma_no_char_in_digits(hs, ':');
    lemma_no_char_in_digits(ms, ':');
    assert forall|j: int| 0 <= j < rest.len() implies rest[j] != ':' by {
        if j < 2 {
            assert(rest[j] == ss[j]);
            assert(is_digit(ss[j]));
        } else if j > 2 {
            assert(rest[j] == fs[j - 3]);
            assert(is_digit(fs[j - 3]));
        }
    }
    assert(t.spec_format(f) =~= hs + seq![':'] + ms + seq![':'] + rest);
    lemma_split3(hs, ms, rest, ':');
    assert(rest.take(2) =~= ss);
    assert(rest.skip(3) =~= fs);
    assert(is_digits(hs));
    assert(is_digits(ss));
    assert(is_digits(fs));
    assert(sexagesimal(ms));
    assert(sexagesimal(ss));
    assert(seconds_part(rest, f) == Some(t.spec_seconds() * 1000 + frac * fraction_unit(f)));
    assert(hms_value(hs, ms, rest, f) == Some(t.spec_ms()));
    assert(time_text_value(t.spec_format(f), f) == Some(t.spec_ms()));
}

/// Reading a timestamp, writing it back in its dialect and reading that again
/// gives the same time: the written form is a fixed point.
pub proof fn lemma_time_text_canonical(s: Seq<char>, f: TimeFormat)
    requires
        parse_time_spec(s, f) is Some,
    ensures
        parse_time_spec(parse_time_spec(s, f)->0.spec_format(f), f) == parse_time_spec(s, f),
{
    let t = parse_time_spec(s, f)->0;
    if f == TimeFormat::Ass {
        let parts = split(s, ':');
        let v = time_text_value(s, f)->0;
        let sec = parts[2];
        let a = crate::text::digits_value(parts[0]);
        let b = crate::text::digits_value(parts[1]);
        let c = crate::text::digits_value(sec.take(2));
        let d = crate::text::digits_value(sec.skip(3));
        assert(v == a * 3_600_000 + b * 60_000 + c * 1000 + d * 10);
        assert(v % 10 == 0) by (nonlinear_arith)
            requires
                v == a * 3_600_000 + b * 60_000 + c * 1000 + d * 10,
        ;
    }
    lemma_time_format_parse(t, f);
}

/// Digits and the separators of a timestamp.
spec fn plain(s: Seq<char>) -> bool {
    forall|j: int| 0 <= j < s.len() ==> is_digit(#[trigger] s[j]) || s[j] == ':' || s[j] == ',' || s[j] == '.'
}

proof fn lemma_plain_concat(a: Seq<char>, b: Seq<char>)
    requires
        plain(a),
        plain(b),
    ensures
        plain(a + b),
{
    assert forall|j: int| 0 <= j < (a + b).len() implies is_digit(#[trigger] (a + b)[j]) || (a + b)[j] == ':'
        || (a + b)[j] == ',' || (a + b)[j] == '.' by {
        if j >= a.len() {
            assert((a + b)[j] == b[j - a.len()]);
        } else {
            assert((a + b)[j] == a[j]);
        }
    }
}

proof fn lemma_format_plain(t: Time, f: TimeFormat)
    ensures
        plain(t.spec_format(f)),
        t.spec_format(f).len() >= 4,
        is_digit(t.spec_format(f)[0]),
        is_digit(t.spec_format(f).last()),
{
    let hw: nat = if f == TimeFormat::Ass { 1 } else { 2 };
    let frac = if f == TimeFormat::Ass { t.spec_millis() / 10 } else { t.spec_millis() };
    let a = padded(t.spec_hours(), hw);
    let b = padded(t.spec_minutes(), 2);
    let c = padded(t.spec_seconds(), 2);
    let d = padded(frac, fraction_len(f));
    lemma_padded(t.spec_hours(), hw);
    lemma_padded(t.spec_minutes(), 2);
    lemma_padded(t.spec_seconds(), 2);
    lemma_padded(frac, fraction_len(f));
    assert(plain(seq![':']));
    assert(plain(seq![fraction_sep(f)]));
    lemma_plain_concat(a, seq![':']);
    lemma_plain_concat(a + seq![':'], b);
    lemma_plain_concat(a + seq![':'] + b, seq![':']);
    lemma_plain_concat(a + seq![':'] + b + seq![':'], c);
    lemma_plain_concat(a + seq![':'] + b + seq![':'] + c, seq![fraction_sep(f)]);
    lemma_plain_concat(a + seq![':'] + b + seq![':'] + c + seq![fraction_sep(f)], d);
    let s = a + seq![':'] + b + seq![':'] + c + seq![fraction_sep(f)] + d;
    assert(t.spec_format(f) =~= s);
    assert(s[0] == a[0]);
    assert(s.last() == d.last());
}

proof fn lemma_find_first(s: Seq<char>, pat: Seq<char>, i: int, k: int)
    requires
        0 <= i <= k,
        occurs_at(s, pat, k),
        forall|j: int| i <= j < k ==> !occurs_at(s, pat, j),
    ensures
        find_from(s, pat, i) == k,
    decreases k - i,
{
    if i < k {
        lemma_find_first(s, pat, i + 1, k);
    }
}

/// The lines of one cue as the sequential-cue format writes it: the number,
/// the time range, then the lines of the text.
pub open spec fn srt_cue_lines(l: SRTLineView) -> Seq<Seq<char>> {
    seq![
        decimal(l.sequence_number as nat),
        l.start.spec_format(TimeFormat::Srt) + seq![' '] + arrow() + seq![' '] + l.end.spec_format(TimeFormat::Srt),
    ] + if l.text.len() == 0 {
        Seq::<Seq<char>>::empty()
    } else {
        split(l.text, '\n')
    }
}

proof fn lemma_join_cons(x: Seq<char>, rest: Seq<Seq<char>>, sep: Seq<char>)
    requires
        rest.len() > 0,
    ensures
        join(seq![x] + rest, sep) == x + sep + join(rest, sep),
    decreases rest.len(),
{
    let all = seq![x] + rest;
    assert(all.drop_last() =~= seq![x] + rest.drop_last());
    assert(all.last() == rest.last());
    assert(join(all, sep) == join(all.drop_last(), sep) + sep + all.last());
    if rest.len() == 1 {
        assert(all.drop_last() =~= seq![x]);
        assert(join(seq![x], sep) == x);
        assert(join(rest, sep) == rest[0]);
    } else {
        assert(join(rest, sep) == join(rest.drop_last(), sep) + sep + rest.last());
        lemma_join_cons(x, rest.drop_last(), sep);
        assert(x + sep + join(rest.drop_last(), sep) + sep + rest.last() =~= x + sep + (join(
            rest.drop_last(),
            sep,
        ) + sep + rest.last()));
    }
}

proof fn lemma_join_split_from(s: Seq<char>, c: char, i: int)
    requires
        0 <= i <= s.len(),
    ensures
        join(crate::text::split_from(s, c, i), seq![c]) == s.subrange(i, s.len() as int),
    decreases s.len() - i,
{
    let k = find_from(s, seq![c], i);
    if k < i || k >= s.len() {
    } else {
        crate::text::lemma_find_bounds_char(s, c, i);
        lemma_occurs_char(s, c, k);
        lemma_join_split_from(s, c, k + 1);
        let rest = crate::text::split_from(s, c, k + 1);
        lemma_split_from_nonempty(s, c, k + 1);
        lemma_join_cons(s.subrange(i, k), rest, seq![c]);
        assert(s.subrange(i, k) + seq![c] + s.subrange(k + 1, s.len() as int) =~= s.subrange(i, s.len() as int));
    }
}

proof fn lemma_split_from_nonempty(s: Seq<char>, c: char, i: int)
    requires
        0 <= i <= s.len(),
    ensures
        crate::text::split_from(s, c, i).len() > 0,
{
}

/// The timing line of a cue splits at its arrow into the two times.
proof fn lemma_timing_line(a: Time, b: Time)
    ensures
        ({
            let st = a.spec_format(TimeFormat::Srt);
            let en = b.spec_format(TimeFormat::Srt);
            let tl = st + seq![' '] + arrow() + seq![' '] + en;
            split_once(tl, arrow()) matches Some(p) && trim(p.0) == st && trim(p.1) == en
        }),
{
    let st = a.spec_format(TimeFormat::Srt);
    let en = b.spec_format(TimeFormat::Srt);
    lemma_format_plain(a, TimeFormat::Srt);
    lemma_format_plain(b, TimeFormat::Srt);
    let tl = st + seq![' '] + arrow() + seq![' '] + en;
    let k: int = st.len() as int + 1;
    assert(occurs_at(tl, arrow(), k)) by {
        assert(tl.subrange(k, k + 3) =~= arrow());
    }
    assert forall|j: int| 0 <= j < k implies !occurs_at(tl, arrow(), j) by {
        if j < st.len() {
            assert(tl[j] == st[j]);
            assert(is_digit(st[j]) || st[j] == ':' || st[j] == ',' || st[j] == '.');
        } else {
            assert(tl[j] == ' ');
        }
        assert(tl.subrange(j, j + 3)[0] == tl[j]);
    }
    lemma_find_first(tl, arrow(), 0, k);
    let x = tl.take(k);
    let y = tl.skip(k + 3);
    assert(split_once(tl, arrow()) == Some((x, y)));
    assert(x =~= st + seq![' ']);
    assert(y =~= seq![' '] + en);
    assert(lead(x, 0) == 0);
    assert(is_ws(x[x.len() - 1]));
    assert(x[x.len() - 2] == st.last());
    assert(trail(x, 0, x.len() as int) == trail(x, 0, x.len() - 1));
    assert(trail(x, 0, x.len() - 1) == x.len() - 1);
    assert(trim(x) =~= st);
    assert(is_ws(y[0]));
    assert(y[1] == en[0]);
    assert(lead(y, 0) == lead(y, 1));
    assert(lead(y, 1) == 1);
    assert(y.last() == en.last());
    assert(trail(y, 1, y.len() as int) == y.len());
    assert(trim(y) =~= en);
}

proof fn lemma_number_line(n: u32)
    ensures
        u32_text(trim(decimal(n as nat))) == Some(n),
{
    let d = decimal(n as nat);
    lemma_decimal(n as nat);
    assert(is_digit(d[0]) && is_digit(d.last()));
    assert(lead(d, 0) == 0);
    assert(trail(d, 0, d.len() as int) == d.len());
    assert(trim(d) =~= d);
}

proof fn lemma_text_lines(t: Seq<char>)
    ensures
        join(
            if t.len() == 0 {
                Seq::<Seq<char>>::empty()
            } else {
                split(t, '\n')
            },
            seq!['\n'],
        ) == t,
{
    if t.len() == 0 {
        assert(join(Seq::<Seq<char>>::empty(), seq!['\n']) =~= t);
    } else {
        lemma_join_split_from(t, '\n', 0);
        assert(t.subrange(0, t.len() as int) =~= t);
    }
}

/// One cue, written as the sequential-cue format writes it, reads back as the
/// same cue.
pub proof fn lemma_srt_cue_round_trip(l: SRTLineView)
    ensures
        srt_block_spec(srt_cue_lines(l), 0, srt_cue_lines(l).len() as int) == Ok::<SRTLineView, int>(l),
{
    let ls = srt_cue_lines(l);
    let text_lines = if l.text.len() == 0 {
        Seq::<Seq<char>>::empty()
    } else {
        split(l.text, '\n')
    };
    lemma_number_line(l.sequence_number);
    lemma_timing_line(l.start, l.end);
    lemma_time_format_parse(l.start, TimeFormat::Srt);
    lemma_time_format_parse(l.end, TimeFormat::Srt);
    lemma_text_lines(l.text);
    assert(ls.subrange(2, ls.len() as int) =~= text_lines);
}

/// In a cue-block text whose blocks before block `k` read well, a cue block
/// whose identifier line is followed by no line with `-->` (or by no line at
/// all) is refused with a parse error at the line after the identifier.
pub proof fn lemma_vtt_missing_arrow(s: Seq<char>, k: int)
    requires
        has_preamble(lines(s), blocks(lines(s))),
        1 <= k < blocks(lines(s)).len(),
        vtt_blocks_upto(lines(s), blocks(lines(s)), k) is Ok,
        first_word(lines(s)[blocks(lines(s))[k].0]) != "NOTE"@,
        first_word(lines(s)[blocks(lines(s))[k].0]) != "REGION"@,
        first_word(lines(s)[blocks(lines(s))[k].0]) != "STYLE"@,
        !contains(lines(s)[blocks(lines(s))[k].0], arrow()),
        blocks(lines(s))[k].0 + 1 >= blocks(lines(s))[k].1 || !contains(
            lines(s)[blocks(lines(s))[k].0 + 1],
            arrow(),
        ),
    ensures
        vtt_parse_spec(s) == Err::<VTTView, VTTFault>(VTTFault::Parse(blocks(lines(s))[k].0 + 2)),
{
    let ls = lines(s);
    let bs = blocks(ls);
    crate::text::lemma_blocks_bounds(ls, 0);
    let a = bs[k].0;
    let b = bs[k].1;
    assert(0 <= a < b <= ls.len());
    assert(cue_spec(ls, a, b) == Err::<VTTLineView, int>(a + 2));
    assert(vtt_blocks_upto(ls, bs, k + 1) == Err::<VTTView, int>(a + 2));
    lemma_blocks_err_stays(ls, bs, k + 1, bs.len() as int);
}

proof fn lemma_fold_converts(
    headers: Seq<Seq<char>>,
    values: Seq<Seq<char>>,
    cols: Seq<(Seq<char>, ColumnKind)>,
    n: int,
    hline: int,
    ln: int,
)
    requires
        0 <= n <= cols.len(),
        fold_columns(headers, values, cols, n, hline, ln) is Ok,
    ensures
        fold_columns(headers, values, cols, n, hline, ln)->Ok_0.len() == n,
        forall|i: int|
            0 <= i < n ==> converts(cols[i].1, #[trigger] fold_columns(headers, values, cols, n, hline, ln)->Ok_0[i]),
    decreases n,
{
    if n > 0 {
        lemma_fold_converts(headers, values, cols, n - 1, hline, ln);
        let prev = fold_columns(headers, values, cols, n - 1, hline, ln)->Ok_0;
        let cur = fold_columns(headers, values, cols, n, hline, ln)->Ok_0;
        assert forall|i: int| 0 <= i < n implies converts(cols[i].1, #[trigger] cur[i]) by {
            if i < n - 1 {
                assert(cur[i] == prev[i]);
            }
        }
    }
}

/// A style row that reads well has all four colours: an empty or malformed
/// colour column is a parse error, never a missing colour.
#[verifier::rlimit(60)]
pub proof fn lemma_style_row_colours(headers: Seq<Seq<char>>, line: Seq<char>, hline: int, ln: int)
    requires
        style_row(headers, line, hline, ln) is Ok,
    ensures
        style_row(headers, line, hline, ln)->Ok_0.primary_color is Some,
        style_row(headers, line, hline, ln)->Ok_0.secondary_color is Some,
        style_row(headers, line, hline, ln)->Ok_0.outline_color is Some,
        style_row(headers, line, hline, ln)->Ok_0.back_color is Some,
{
    let values = split(trim(line.skip(6)), ',');
    lemma_fold_converts(headers, values, style_columns(), 23, hline, ln);
    let ts = fold_columns(headers, values, style_columns(), 23, hline, ln)->Ok_0;
    assert(converts(style_columns()[3].1, ts[3]));
    assert(converts(style_columns()[4].1, ts[4]));
    assert(converts(style_columns()[5].1, ts[5]));
    assert(converts(style_columns()[6].1, ts[6]));
    assert(style_row(headers, line, hline, ln) == Ok::<SSAStyleView, SSAFault>(style_from(ts)));
    assert(colour(ts[3]) is Some && colour(ts[4]) is Some && colour(ts[5]) is Some && colour(ts[6]) is Some);
}

} // verus!
