//! The cue-block format: a `WEBVTT` preamble, then blocks separated by blank
//! lines: notes (skipped), regions, style rules and cues.
use vstd::prelude::*;
use crate::decimal::{decimal_spec, parse_decimal_chars, Decimal};
use crate::text::{
    blocks, blocks_exec, chars_of, contains, contains_exec, ends_with, eq_chars, find_exec,
    find_from, join, lemma_lines_len, lines, lines_exec, push_all, push_joined, push_str,
    slice_of, split, split_exec, split_once, split_once_exec, starts_with, starts_with_exec,
    string_of, trim, trim_exec, trim_start, trim_start_exec, u32_text, parse_u32, views,
};
use crate::time::{parse_time_chars, parse_time_spec, Time, TimeFormat};

verus! {

pub open spec fn opt_view(o: Option<String>) -> Option<Seq<char>> {
    match o {
        Some(s) => Some(s@),
        None => None,
    }
}

/// A style rule: an optional selector and its properties in order of first appearance.
#[derive(Clone, Debug, PartialEq, Eq)]
pub struct VTTStyle {
    pub selector: Option<String>,
    pub entries: Vec<(String, String)>,
}

pub ghost struct VTTStyleView {
    pub selector: Option<Seq<char>>,
    pub entries: Seq<(Seq<char>, Seq<char>)>,
}

impl View for VTTStyle {
    type V = VTTStyleView;

    open spec fn view(&self) -> VTTStyleView {
        VTTStyleView {
            selector: opt_view(self.selector),
            entries: self.entries@.map_values(|e: (String, String)| (e.0@, e.1@)),
        }
    }
}

/// A cue: optional identifier, time range, positioning settings in order of
/// first appearance, and text (which may hold line breaks).
#[derive(Clone, Debug, PartialEq, Eq)]
pub struct VTTLine {
    pub identifier: Option<String>,
    pub start: Time,
    pub end: Time,
    pub settings: Vec<(String, Option<String>)>,
    pub text: String,
}

pub ghost struct VTTLineView {
    pub identifier: Option<Seq<char>>,
    pub start: Time,
    pub end: Time,
    pub settings: Seq<(Seq<char>, Option<Seq<char>>)>,
    pub text: Seq<char>,
}

impl View for VTTLine {
    type V = VTTLineView;

    open spec fn view(&self) -> VTTLineView {
        VTTLineView {
            identifier: opt_view(self.identifier),
            start: self.start,
            end: self.end,
            settings: self.settings@.map_values(|e: (String, Option<String>)| (e.0@, opt_view(e.1))),
            text: self.text@,
        }
    }
}

/// A region: identifier, width and anchors in percent, line count and scrolling.
#[derive(Clone, Debug, PartialEq, Eq)]
pub struct VTTRegion {
    pub id: Option<String>,
    pub width: Option<Decimal>,
    pub lines: Option<u32>,
    pub region_anchor: Option<(Decimal, Decimal)>,
    pub viewport_anchor: Option<(Decimal, Decimal)>,
    pub scroll: bool,
}

pub ghost struct VTTRegionView {
    pub id: Option<Seq<char>>,
    pub width: Option<Decimal>,
    pub lines: Option<u32>,
    pub region_anchor: Option<(Decimal, Decimal)>,
    pub viewport_anchor: Option<(Decimal, Decimal)>,
    pub scroll: bool,
}

impl View for VTTRegion {
    type V = VTTRegionView;

    open spec fn view(&self) -> VTTRegionView {
        VTTRegionView {
            id: opt_view(self.id),
            width: self.width,
            lines: self.lines,
            region_anchor: self.region_anchor,
            viewport_anchor: self.viewport_anchor,
            scroll: self.scroll,
        }
    }
}

/// A cue-block document: regions, style rules and cues, each in order.
#[derive(Clone, Debug, PartialEq, Eq)]
pub struct VTT {
    pub regions: Vec<VTTRegion>,
    pub styles: Vec<VTTStyle>,
    pub lines: Vec<VTTLine>,
}

pub ghost struct VTTView {
    pub regions: Seq<VTTRegionView>,
    pub styles: Seq<VTTStyleView>,
    pub lines: Seq<VTTLineView>,
}

impl View for VTT {
    type V = VTTView;

    open spec fn view(&self) -> VTTView {
        VTTView {
            regions: self.regions@.map_values(|r: VTTRegion| r@),
            styles: self.styles@.map_values(|s: VTTStyle| s@),
            lines: self.lines@.map_values(|l: VTTLine| l@),
        }
    }
}

#[derive(Clone, Debug, PartialEq, Eq)]
pub enum VTTErrorKind {
    InvalidFormat,
    Parse(String),
}

/// A parse failure and the 1-based line where it was found.
#[derive(Clone, Debug, PartialEq, Eq)]
pub struct VTTError {
    pub line: usize,
    pub kind: VTTErrorKind,
}

impl VTTError {
    pub fn line(&self) -> (r: usize)
        ensures
            r == self.line,
    {
        self.line
    }

    pub fn kind(&self) -> &VTTErrorKind {
        &self.kind
    }
}

/// Where parsing fails: the line, and whether the preamble was missing.
pub ghost enum VTTFault {
    InvalidFormat(int),
    Parse(int),
}

/// The first index whose key is `k`, or -1.
pub open spec fn key_pos<V>(m: Seq<(Seq<char>, V)>, k: Seq<char>, i: int) -> int
    decreases m.len() - i,
{
    if i < 0 || i >= m.len() {
        -1
    } else if m[i].0 == k {
        i
    } else {
        key_pos(m, k, i + 1)
    }
}

/// `m` with the value of `k` set: in place where `k` is a key, else at the end.
pub open spec fn upsert<V>(m: Seq<(Seq<char>, V)>, k: Seq<char>, v: V) -> Seq<(Seq<char>, V)> {
    let p = key_pos(m, k, 0);
    if p < 0 {
        m.push((k, v))
    } else {
        m.update(p, (k, v))
    }
}

pub open spec fn arrow() -> Seq<char> {
    seq!['-', '-', '>']
}

/// `p%`: a percentage.
pub open spec fn percentage(s: Seq<char>) -> Option<Decimal> {
    if s.len() > 0 && s.last() == '%' {
        decimal_spec(s.drop_last())
    } else {
        None
    }
}

/// A cue setting: `key:value`, or a bare `key`.
pub open spec fn setting_of(item: Seq<char>) -> (Seq<char>, Option<Seq<char>>) {
    match split_once(item, seq![':']) {
        Some(p) => (p.0, Some(p.1)),
        None => (item, None),
    }
}

/// The settings that the first `n` items give, a later key replacing the value of an earlier one.
pub open spec fn settings_upto(items: Seq<Seq<char>>, n: int) -> Seq<(Seq<char>, Option<Seq<char>>)>
    decreases n,
{
    if n <= 0 {
        seq![]
    } else {
        let kv = setting_of(items[n - 1]);
        upsert(settings_upto(items, n - 1), kv.0, kv.1)
    }
}

pub open spec fn vtt_time(x: Seq<char>) -> Option<Time> {
    parse_time_spec(trim(x), TimeFormat::Vtt)
}

/// The cue that lines `[a, b)` hold, or the 1-based line of the fault: an
/// optional identifier line (one without `-->`), the timing line
/// `start --> end [settings]`, then the text lines.
pub open spec fn cue_spec(ls: Seq<Seq<char>>, a: int, b: int) -> Result<VTTLineView, int> {
    let has_id = !contains(ls[a], arrow());
    let t = if has_id { a + 1 } else { a };
    if t >= b {
        Err(t + 1)
    } else {
        match split_once(ls[t], arrow()) {
            None => Err(t + 1),
            Some(p) => {
                let y = trim(p.1);
                let (end_text, settings) = match split_once(y, seq![' ']) {
                    Some(q) => (q.0, settings_upto(split(q.1, ' '), split(q.1, ' ').len() as int)),
                    None => (y, seq![]),
                };
                match (vtt_time(p.0), vtt_time(end_text)) {
                    (Some(st), Some(en)) => Ok(
                        VTTLineView {
                            identifier: if has_id { Some(ls[a]) } else { None },
                            start: st,
                            end: en,
                            settings,
                            text: join(ls.subrange(t + 1, b), seq!['\n']),
                        },
                    ),
                    _ => Err(t + 1),
                }
            },
        }
    }
}

pub open spec fn empty_region() -> VTTRegionView {
    VTTRegionView {
        id: None,
        width: None,
        lines: None,
        region_anchor: None,
        viewport_anchor: None,
        scroll: false,
    }
}

/// Two percentages separated by a comma.
pub open spec fn anchor(value: Seq<char>) -> Option<(Decimal, Decimal)> {
    match split_once(value, seq![',']) {
        Some(p) => match (percentage(p.0), percentage(p.1)) {
            (Some(x), Some(y)) => Some((x, y)),
            _ => None,
        },
        None => None,
    }
}

/// One `name:value` line of a region, found at line `ln`.
pub open spec fn region_line(r: VTTRegionView, line: Seq<char>, ln: int) -> Result<VTTRegionView, int> {
    match split_once(line, seq![':']) {
        None => Err(ln),
        Some(p) => {
            let (name, value) = (p.0, p.1);
            if name == "id"@ {
                Ok(VTTRegionView { id: Some(value), ..r })
            } else if name == "width"@ {
                match percentage(value) {
                    Some(w) => Ok(VTTRegionView { width: Some(w), ..r }),
                    None => Err(ln),
                }
            } else if name == "lines"@ {
                match u32_text(value) {
                    Some(n) => Ok(VTTRegionView { lines: Some(n), ..r }),
                    None => Err(ln),
                }
            } else if name == "regionanchor"@ {
                match anchor(value) {
                    Some(x) => Ok(VTTRegionView { region_anchor: Some(x), ..r }),
                    None => Err(ln),
                }
            } else if name == "viewportanchor"@ {
                match anchor(value) {
                    Some(x) => Ok(VTTRegionView { viewport_anchor: Some(x), ..r }),
                    None => Err(ln),
                }
            } else if name == "scroll"@ {
                if value == "up"@ {
                    Ok(VTTRegionView { scroll: true, ..r })
                } else {
                    Err(ln)
                }
            } else {
                Ok(r)
            }
        },
    }
}

/// The region that lines `a + 1 .. j` of a region block give (line `a` holds `REGION`).
pub open spec fn region_upto(ls: Seq<Seq<char>>, a: int, j: int) -> Result<VTTRegionView, int>
    decreases j - a,
{
    if j <= a + 1 {
        Ok(empty_region())
    } else {
        match region_upto(ls, a, j - 1) {
            Ok(r) => region_line(r, ls[j - 1], j),
            Err(e) => Err(e),
        }
    }
}

pub proof fn lemma_region_err_stays(ls: Seq<Seq<char>>, a: int, j: int, n: int)
    requires
        j <= n,
        region_upto(ls, a, j) is Err,
    ensures
        region_upto(ls, a, n) == region_upto(ls, a, j),
    decreases n - j,
{
    if j < n {
        lemma_region_err_stays(ls, a, j, n - 1);
    }
}

/// One `name: value` item of a style rule, found at line `ln`; blank items are skipped.
pub open spec fn style_item(m: Seq<(Seq<char>, Seq<char>)>, item: Seq<char>, ln: int) -> Result<Seq<(Seq<char>, Seq<char>)>, int> {
    if trim(item).len() == 0 {
        Ok(m)
    } else {
        match split_once(item, seq![':']) {
            None => Err(ln),
            Some(p) => Ok(upsert(m, trim(p.0), trim(p.1))),
        }
    }
}

pub open spec fn items_upto(items: Seq<Seq<char>>, n: int, m: Seq<(Seq<char>, Seq<char>)>, ln: int) -> Result<Seq<(Seq<char>, Seq<char>)>, int>
    decreases n,
{
    if n <= 0 {
        Ok(m)
    } else {
        match items_upto(items, n - 1, m, ln) {
            Ok(m2) => style_item(m2, items[n - 1], ln),
            Err(e) => Err(e),
        }
    }
}

pub proof fn lemma_items_err_stays(items: Seq<Seq<char>>, j: int, n: int, m: Seq<(Seq<char>, Seq<char>)>, ln: int)
    requires
        j <= n,
        items_upto(items, j, m, ln) is Err,
    ensures
        items_upto(items, n, m, ln) == items_upto(items, j, m, ln),
    decreases n - j,
{
    if j < n {
        lemma_items_err_stays(items, j, n - 1, m, ln);
    }
}

/// The properties of the first `n` lines of a rule body, whose first line is line `first`.
pub open spec fn pieces_upto(pieces: Seq<Seq<char>>, n: int, first: int) -> Result<Seq<(Seq<char>, Seq<char>)>, int>
    decreases n,
{
    if n <= 0 {
        Ok(seq![])
    } else {
        match pieces_upto(pieces, n - 1, first) {
            Ok(m) => {
                let items = split(pieces[n - 1], ';');
                items_upto(items, items.len() as int, m, first + n - 1)
            },
            Err(e) => Err(e),
        }
    }
}

pub proof fn lemma_pieces_err_stays(pieces: Seq<Seq<char>>, j: int, n: int, first: int)
    requires
        j <= n,
        pieces_upto(pieces, j, first) is Err,
    ensures
        pieces_upto(pieces, n, first) == pieces_upto(pieces, j, first),
    decreases n - j,
{
    if j < n {
        lemma_pieces_err_stays(pieces, j, n - 1, first);
    }
}

/// The text of a style block after the `STYLE` keyword, trimmed.
pub open spec fn style_body(ls: Seq<Seq<char>>, a: int, b: int) -> Seq<char> {
    let j = join(ls.subrange(a, b), seq!['\n']);
    trim(if j.len() >= 5 { j.skip(5) } else { seq![] })
}

/// The style rule that lines `[a, b)` hold: `::cue`, an optional `(selector)`,
/// then `{ name: value; ... }`; or the 1-based line of the fault.
pub open spec fn style_spec(ls: Seq<Seq<char>>, a: int, b: int) -> Result<VTTStyleView, int> {
    let u = style_body(ls, a, b);
    if !starts_with(u, "::cue"@) {
        Err(a + 1)
    } else {
        let u2 = u.skip(5);
        if !ends_with(u2, seq!['}']) {
            Err(b)
        } else {
            let u3 = trim_start(u2.drop_last());
            let k = find_from(u3, seq![')'], 0);
            if starts_with(u3, seq!['(']) && k < 0 {
                Err(a + 1)
            } else {
                let selector: Option<Seq<char>> = if starts_with(u3, seq!['(']) {
                    Some(u3.subrange(1, k))
                } else {
                    None
                };
                let u4 = if starts_with(u3, seq!['(']) { u3.skip(k + 1) } else { u3 };
                let u5 = trim_start(u4);
                if !starts_with(u5, seq!['{']) {
                    Err(a + 1)
                } else {
                    let pieces = split(u5.skip(1), '\n');
                    if pieces.len() - 1 > b {
                        // the body spans no more lines than the block
                        Err(a + 1)
                    } else {
                        match pieces_upto(pieces, pieces.len() as int, b - (pieces.len() - 1)) {
                            Ok(m) => Ok(VTTStyleView { selector, entries: m }),
                            Err(e) => Err(e),
                        }
                    }
                }
            }
        }
    }
}

/// The first word of a line: up to its first space.
pub open spec fn first_word(line: Seq<char>) -> Seq<char> {
    match split_once(line, seq![' ']) {
        Some(p) => p.0,
        None => line,
    }
}

pub open spec fn empty_vtt() -> VTTView {
    VTTView { regions: seq![], styles: seq![], lines: seq![] }
}

/// The document that blocks `1..k` give (block 0 is the preamble).
pub open spec fn vtt_blocks_upto(ls: Seq<Seq<char>>, bs: Seq<(int, int)>, k: int) -> Result<VTTView, int>
    decreases k,
{
    if k <= 1 {
        Ok(empty_vtt())
    } else {
        match vtt_blocks_upto(ls, bs, k - 1) {
            Err(e) => Err(e),
            Ok(d) => {
                let a = bs[k - 1].0;
                let b = bs[k - 1].1;
                let w = first_word(ls[a]);
                if w == "NOTE"@ {
                    Ok(d)
                } else if w == "REGION"@ {
                    match region_upto(ls, a, b) {
                        Ok(r) => Ok(VTTView { regions: d.regions.push(r), ..d }),
                        Err(e) => Err(e),
                    }
                } else if w == "STYLE"@ {
                    match style_spec(ls, a, b) {
                        Ok(st) => Ok(VTTView { styles: d.styles.push(st), ..d }),
                        Err(e) => Err(e),
                    }
                } else {
                    match cue_spec(ls, a, b) {
                        Ok(l) => Ok(VTTView { lines: d.lines.push(l), ..d }),
                        Err(e) => Err(e),
                    }
                }
            },
        }
    }
}

pub proof fn lemma_blocks_err_stays(ls: Seq<Seq<char>>, bs: Seq<(int, int)>, j: int, n: int)
    requires
        j <= n,
        vtt_blocks_upto(ls, bs, j) is Err,
    ensures
        vtt_blocks_upto(ls, bs, n) == vtt_blocks_upto(ls, bs, j),
    decreases n - j,
{
    if j < n {
        lemma_blocks_err_stays(ls, bs, j, n - 1);
    }
}

/// The first block is the single line `WEBVTT...`.
pub open spec fn has_preamble(ls: Seq<Seq<char>>, bs: Seq<(int, int)>) -> bool {
    bs.len() > 0 && bs[0].1 == bs[0].0 + 1 && starts_with(ls[bs[0].0], "WEBVTT"@)
}

/// What parsing a cue-block text gives: the document, or where it fails.
pub open spec fn vtt_parse_spec(s: Seq<char>) -> Result<VTTView, VTTFault> {
    let ls = lines(s);
    let bs = blocks(ls);
    if !has_preamble(ls, bs) {
        Err(VTTFault::InvalidFormat(1))
    } else {
        match vtt_blocks_upto(ls, bs, bs.len() as int) {
            Ok(d) => Ok(d),
            Err(e) => Err(VTTFault::Parse(e)),
        }
    }
}

pub open spec fn entries_view(m: Seq<(String, String)>) -> Seq<(Seq<char>, Seq<char>)> {
    m.map_values(|e: (String, String)| (e.0@, e.1@))
}

pub open spec fn settings_view(m: Seq<(String, Option<String>)>) -> Seq<(Seq<char>, Option<Seq<char>>)> {
    m.map_values(|e: (String, Option<String>)| (e.0@, opt_view(e.1)))
}

fn upsert_entry(m: &mut Vec<(String, String)>, k: String, v: String)
    ensures
        entries_view(final(m)@) == upsert(entries_view(old(m)@), k@, v@),
{
    let ghost mv = entries_view(m@);
    let ghost vv = v@;
    let mut i: usize = 0;
    let mut found = false;
    while i < m.len()
        invariant_except_break
            !found,
        invariant
            mv == entries_view(m@),
            i <= m@.len(),
            key_pos(mv, k@, i as int) == key_pos(mv, k@, 0),
        ensures
            found ==> i < m@.len() && key_pos(mv, k@, 0) == i,
            !found ==> key_pos(mv, k@, 0) < 0,
        decreases m.len() - i,
    {
        assert(mv[i as int].0 == m@[i as int].0@);
        if m[i].0 == k {
            assert(key_pos(mv, k@, i as int) == i as int);
            found = true;
            break;
        }
        i += 1;
    }
    if found {
        m.set(i, (k, v));
        assert(entries_view(m@) =~= mv.update(i as int, (k@, vv)));
    } else {
        m.push((k, v));
        assert(entries_view(m@) =~= mv.push((k@, vv)));
    }
}

fn upsert_setting(m: &mut Vec<(String, Option<String>)>, k: String, v: Option<String>)
    ensures
        settings_view(final(m)@) == upsert(settings_view(old(m)@), k@, opt_view(v)),
{
    let ghost mv = settings_view(m@);
    let ghost vv = opt_view(v);
    let mut i: usize = 0;
    let mut found = false;
    while i < m.len()
        invariant_except_break
            !found,
        invariant
            mv == settings_view(m@),
            i <= m@.len(),
            key_pos(mv, k@, i as int) == key_pos(mv, k@, 0),
        ensures
            found ==> i < m@.len() && key_pos(mv, k@, 0) == i,
            !found ==> key_pos(mv, k@, 0) < 0,
        decreases m.len() - i,
    {
        assert(mv[i as int].0 == m@[i as int].0@);
        if m[i].0 == k {
            assert(key_pos(mv, k@, i as int) == i as int);
            found = true;
            break;
        }
        i += 1;
    }
    if found {
        m.set(i, (k, v));
        assert(settings_view(m@) =~= mv.update(i as int, (k@, vv)));
    } else {
        m.push((k, v));
        assert(settings_view(m@) =~= mv.push((k@, vv)));
    }
}

fn lit(s: &str) -> (r: Vec<char>)
    ensures
        r@ == s@,
{
    chars_of(s)
}

fn single(c: char) -> (r: Vec<char>)
    ensures
        r@ == seq![c],
{
    let r = vec![c];
    assert(r@ =~= seq![c]);
    r
}

fn setting_exec(item: &Vec<char>) -> (r: (String, Option<String>))
    ensures
        r.0@ == setting_of(item@).0,
        opt_view(r.1) == setting_of(item@).1,
{
    match split_once_exec(item.as_slice(), single(':').as_slice()) {
        Some(p) => (string_of(p.0.as_slice()), Some(string_of(p.1.as_slice()))),
        None => (string_of(item.as_slice()), None),
    }
}

fn vtt_time_exec(x: &[char]) -> (r: Option<Time>)
    ensures
        r == vtt_time(x@),
{
    let t = trim_exec(x);
    parse_time_chars(t.as_slice(), TimeFormat::Vtt)
}

pub fn parse_cue_block(ls: &Vec<Vec<char>>, a: usize, b: usize) -> (r: Result<VTTLine, usize>)
    requires
        a < b <= ls@.len(),
        ls@.len() < usize::MAX,
    ensures
        match r {
            Ok(l) => cue_spec(views(ls@), a as int, b as int) == Ok::<VTTLineView, int>(l@),
            Err(e) => cue_spec(views(ls@), a as int, b as int) == Err::<VTTLineView, int>(e as int),
        },
{
    let ghost v = views(ls@);
    let arrow_v = lit("-->");
    proof {
        reveal_strlit("-->");
        assert(arrow_v@ =~= arrow());
    }
    assert(v[a as int] == ls@[a as int]@);
    let has_id = !contains_exec(ls[a].as_slice(), arrow_v.as_slice());
    let t = if has_id { a + 1 } else { a };
    if t >= b {
        return Err(t + 1);
    }
    assert(v[t as int] == ls@[t as int]@);
    let (x, y0) = match split_once_exec(ls[t].as_slice(), arrow_v.as_slice()) {
        Some(p) => p,
        None => return Err(t + 1),
    };
    let y = trim_exec(y0.as_slice());
    let mut settings: Vec<(String, Option<String>)> = Vec::new();
    assert(settings_view(settings@) =~= seq![]);
    let end_text = match split_once_exec(y.as_slice(), single(' ').as_slice()) {
        Some(q) => {
            let items = split_exec(q.1.as_slice(), ' ');
            let mut j: usize = 0;
            while j < items.len()
                invariant
                    j <= items@.len(),
                    views(items@) == split(q.1@, ' '),
                    settings_view(settings@) == settings_upto(views(items@), j as int),
                decreases items.len() - j,
            {
                let kv = setting_exec(&items[j]);
                assert(views(items@)[j as int] == items@[j as int]@);
                upsert_setting(&mut settings, kv.0, kv.1);
                j += 1;
            }
            q.0
        },
        None => y,
    };
    let start = match vtt_time_exec(x.as_slice()) {
        Some(t) => t,
        None => return Err(t + 1),
    };
    let end = match vtt_time_exec(end_text.as_slice()) {
        Some(t) => t,
        None => return Err(t + 1),
    };
    let mut text: Vec<char> = Vec::new();
    push_joined(&mut text, ls, t + 1, b, single('\n').as_slice());
    let identifier = if has_id { Some(string_of(ls[a].as_slice())) } else { None };
    let r = VTTLine { identifier, start, end, settings, text: string_of(text.as_slice()) };
    assert(r@.text == join(v.subrange(t + 1, b as int), seq!['\n']));
    Ok(r)
}

fn percentage_exec(s: &[char]) -> (r: Option<Decimal>)
    ensures
        r == percentage(s@),
{
    if s.len() > 0 && s[s.len() - 1] == '%' {
        let body = slice_of(s, 0, s.len() - 1);
        assert(body@ =~= s@.drop_last());
        parse_decimal_chars(body.as_slice())
    } else {
        None
    }
}

fn anchor_exec(value: &[char]) -> (r: Option<(Decimal, Decimal)>)
    ensures
        r == anchor(value@),
{
    match split_once_exec(value, single(',').as_slice()) {
        Some(p) => match (percentage_exec(p.0.as_slice()), percentage_exec(p.1.as_slice())) {
            (Some(x), Some(y)) => Some((x, y)),
            _ => None,
        },
        None => None,
    }
}

fn region_line_exec(r: VTTRegion, line: &[char], ln: usize) -> (res: Result<VTTRegion, usize>)
    ensures
        match res {
            Ok(x) => region_line(r@, line@, ln as int) == Ok::<VTTRegionView, int>(x@),
            Err(e) => region_line(r@, line@, ln as int) == Err::<VTTRegionView, int>(e as int),
        },
{
    let (name, value) = match split_once_exec(line, single(':').as_slice()) {
        Some(p) => p,
        None => return Err(ln),
    };
    let mut r = r;
    if eq_chars(name.as_slice(), lit("id").as_slice()) {
        r.id = Some(string_of(value.as_slice()));
    } else if eq_chars(name.as_slice(), lit("width").as_slice()) {
        match percentage_exec(value.as_slice()) {
            Some(w) => r.width = Some(w),
            None => return Err(ln),
        }
    } else if eq_chars(name.as_slice(), lit("lines").as_slice()) {
        match parse_u32(value.as_slice()) {
            Some(n) => r.lines = Some(n),
            None => return Err(ln),
        }
    } else if eq_chars(name.as_slice(), lit("regionanchor").as_slice()) {
        match anchor_exec(value.as_slice()) {
            Some(x) => r.region_anchor = Some(x),
            None => return Err(ln),
        }
    } else if eq_chars(name.as_slice(), lit("viewportanchor").as_slice()) {
        match anchor_exec(value.as_slice()) {
            Some(x) => r.viewport_anchor = Some(x),
            None => return Err(ln),
        }
    } else if eq_chars(name.as_slice(), lit("scroll").as_slice()) {
        if eq_chars(value.as_slice(), lit("up").as_slice()) {
            r.scroll = true;
        } else {
            return Err(ln);
        }
    }
    Ok(r)
}

pub fn parse_region_block(ls: &Vec<Vec<char>>, a: usize, b: usize) -> (r: Result<VTTRegion, usize>)
    requires
        a < b <= ls@.len(),
        ls@.len() < usize::MAX,
    ensures
        match r {
            Ok(x) => region_upto(views(ls@), a as int, b as int) == Ok::<VTTRegionView, int>(x@),
            Err(e) => region_upto(views(ls@), a as int, b as int) == Err::<VTTRegionView, int>(e as int),
        },
{
    let ghost v = views(ls@);
    let mut r = VTTRegion {
        id: None,
        width: None,
        lines: None,
        region_anchor: None,
        viewport_anchor: None,
        scroll: false,
    };
    let mut j: usize = a + 1;
    while j < b
        invariant
            a < j <= b <= ls@.len(),
            ls@.len() < usize::MAX,
            v == views(ls@),
            region_upto(v, a as int, j as int) == Ok::<VTTRegionView, int>(r@),
        decreases b - j,
    {
        assert(v[j as int] == ls@[j as int]@);
        match region_line_exec(r, ls[j].as_slice(), j + 1) {
            Ok(x) => {
                r = x;
            },
            Err(e) => {
                proof {
                    lemma_region_err_stays(v, a as int, j + 1, b as int);
                }
                return Err(e);
            },
        }
        j += 1;
    }
    Ok(r)
}

fn style_item_exec(m: &mut Vec<(String, String)>, item: &Vec<char>, ln: usize) -> (r: Result<(), usize>)
    ensures
        match r {
            Ok(_) => style_item(entries_view(old(m)@), item@, ln as int) == Ok::<Seq<(Seq<char>, Seq<char>)>, int>(entries_view(final(m)@)),
            Err(e) => style_item(entries_view(old(m)@), item@, ln as int) == Err::<Seq<(Seq<char>, Seq<char>)>, int>(e as int),
        },
{
    let t = trim_exec(item.as_slice());
    if t.len() == 0 {
        return Ok(());
    }
    match split_once_exec(item.as_slice(), single(':').as_slice()) {
        None => Err(ln),
        Some(p) => {
            let k = trim_exec(p.0.as_slice());
            let val = trim_exec(p.1.as_slice());
            upsert_entry(m, string_of(k.as_slice()), string_of(val.as_slice()));
            Ok(())
        },
    }
}

pub fn parse_style_block(ls: &Vec<Vec<char>>, a: usize, b: usize) -> (r: Result<VTTStyle, usize>)
    requires
        a < b <= ls@.len(),
        ls@.len() < usize::MAX,
    ensures
        match r {
            Ok(x) => style_spec(views(ls@), a as int, b as int) == Ok::<VTTStyleView, int>(x@),
            Err(e) => style_spec(views(ls@), a as int, b as int) == Err::<VTTStyleView, int>(e as int),
        },
{
    let ghost v = views(ls@);
    let mut joined: Vec<char> = Vec::new();
    push_joined(&mut joined, ls, a, b, single('\n').as_slice());
    let rest = if joined.len() >= 5 { slice_of(joined.as_slice(), 5, joined.len()) } else { Vec::new() };
    assert(joined@.len() >= 5 ==> rest@ =~= joined@.skip(5));
    let u = trim_exec(rest.as_slice());
    assert(u@ == style_body(v, a as int, b as int));
    if !starts_with_exec(u.as_slice(), lit("::cue").as_slice()) {
        { assert(style_spec(v, a as int, b as int) == Err::<VTTStyleView, int>(a + 1)); return Err(a + 1); }
    }
    proof {
        reveal_strlit("::cue");
    }
    let u2 = slice_of(u.as_slice(), 5, u.len());
    assert(u2@ =~= u@.skip(5));
    if !ends_with_exec_char(u2.as_slice(), '}') {
        { assert(style_spec(v, a as int, b as int) == Err::<VTTStyleView, int>(b as int)); return Err(b); }
    }
    let u2b = slice_of(u2.as_slice(), 0, u2.len() - 1);
    assert(u2b@ =~= u2@.drop_last());
    let u3 = trim_start_exec(u2b.as_slice());
    let opens = starts_with_exec(u3.as_slice(), single('(').as_slice());
    let close_pat = single(')');
    let close = find_exec(u3.as_slice(), close_pat.as_slice(), 0);
    let mut selector: Option<String> = None;
    let u4 = if opens {
        match close {
            None => { assert(style_spec(v, a as int, b as int) == Err::<VTTStyleView, int>(a + 1)); return Err(a + 1) },
            Some(k) => {
                proof {
                    assert(u3@.take(1)[0] == u3@[0]);
                    assert(u3@.subrange(k as int, k + 1)[0] == u3@[k as int]);
                }
                let n3 = u3.len();
                assert(close_pat@.len() == 1);
                assert(k + 1 <= n3);
                let sel = slice_of(u3.as_slice(), 1, k);
                selector = Some(string_of(sel.as_slice()));
                let after = slice_of(u3.as_slice(), k + 1, u3.len());
                assert(after@ =~= u3@.skip(k + 1));
                after
            },
        }
    } else {
        u3
    };
    let u5 = trim_start_exec(u4.as_slice());
    if !starts_with_exec(u5.as_slice(), single('{').as_slice()) {
        { assert(style_spec(v, a as int, b as int) == Err::<VTTStyleView, int>(a + 1)); return Err(a + 1); }
    }
    let body = slice_of(u5.as_slice(), 1, u5.len());
    assert(body@ =~= u5@.skip(1));
    let pieces = split_exec(body.as_slice(), '\n');
    let ghost pv = views(pieces@);
    assert(pieces@.len() >= 1) by {
        assert(split(body@, '\n').len() >= 1);
    }
    if pieces.len() - 1 > b {
        { assert(style_spec(v, a as int, b as int) == Err::<VTTStyleView, int>(a + 1)); return Err(a + 1); }
    }
    let first: usize = b - (pieces.len() - 1);
    let mut m: Vec<(String, String)> = Vec::new();
    assert(entries_view(m@) =~= seq![]);
    let ghost sel_v = opt_view(selector);
    assert(style_spec(v, a as int, b as int) == (match pieces_upto(pv, pv.len() as int, first as int) {
                Ok(mm) => Ok::<VTTStyleView, int>(VTTStyleView { selector: sel_v, entries: mm }),
                Err(ee) => Err(ee),
            }));
    let mut j: usize = 0;
    while j < pieces.len()
        invariant
            sel_v == opt_view(selector),
            v == views(ls@),
            style_spec(v, a as int, b as int) == (match pieces_upto(pv, pv.len() as int, first as int) {
                Ok(mm) => Ok::<VTTStyleView, int>(VTTStyleView { selector: sel_v, entries: mm }),
                Err(ee) => Err(ee),
            }),
            j <= pieces@.len(),
            pv == views(pieces@),
            first + pieces@.len() - 1 == b,
            b < usize::MAX,
            pieces_upto(pv, j as int, first as int) == Ok::<Seq<(Seq<char>, Seq<char>)>, int>(entries_view(m@)),
        decreases pieces.len() - j,
    {
        assert(pv[j as int] == pieces@[j as int]@);
        let items = split_exec(pieces[j].as_slice(), ';');
        let ghost iv = views(items@);
        let ghost m0 = entries_view(m@);
        let ln: usize = first + j;
        assert(iv == split(pv[j as int], ';'));
        let mut i: usize = 0;
        while i < items.len()
            invariant
                i <= items@.len(),
                iv == views(items@),
                j < pv.len(),
                pv == views(pieces@),
                iv == split(pv[j as int], ';'),
                ln == first + j,
                first + pv.len() - 1 == b,
                pieces_upto(pv, j as int, first as int) == Ok::<Seq<(Seq<char>, Seq<char>)>, int>(m0),
                sel_v == opt_view(selector),
                v == views(ls@),
                style_spec(v, a as int, b as int) == (match pieces_upto(pv, pv.len() as int, first as int) {
                Ok(mm) => Ok::<VTTStyleView, int>(VTTStyleView { selector: sel_v, entries: mm }),
                Err(ee) => Err(ee),
            }),
                items_upto(iv, i as int, m0, ln as int) == Ok::<Seq<(Seq<char>, Seq<char>)>, int>(entries_view(m@)),
            decreases items.len() - i,
        {
            assert(iv[i as int] == items@[i as int]@);
            match style_item_exec(&mut m, &items[i], ln) {
                Ok(_) => {},
                Err(e) => {
                    proof {
                        lemma_items_err_stays(iv, i + 1, iv.len() as int, m0, ln as int);
                        assert(pieces_upto(pv, j + 1, first as int) is Err);
                        lemma_pieces_err_stays(pv, j + 1, pv.len() as int, first as int);
                        assert(pieces_upto(pv, pv.len() as int, first as int) == Err::<Seq<(Seq<char>, Seq<char>)>, int>(e as int));
                        assert(style_spec(v, a as int, b as int) == Err::<VTTStyleView, int>(e as int));
                    }
                    return Err(e);
                },
            }
                i += 1;
        }
        assert(iv == split(pv[j as int], ';'));
        j += 1;
    }
    Ok(VTTStyle { selector, entries: m })
}

fn ends_with_exec_char(s: &[char], c: char) -> (r: bool)
    ensures
        r == ends_with(s@, seq![c]),
{
    let r = s.len() > 0 && s[s.len() - 1] == c;
    if s.len() > 0 {
        assert(s@.skip(s@.len() - 1) =~= seq![s@.last()]);
        if !r {
            assert(s@.skip(s@.len() - 1)[0] != seq![c][0]);
        }
    }
    r
}

fn first_word_exec(line: &Vec<char>) -> (r: Vec<char>)
    ensures
        r@ == first_word(line@),
{
    match split_once_exec(line.as_slice(), single(' ').as_slice()) {
        Some(p) => p.0,
        None => slice_of(line.as_slice(), 0, line.len()),
    }
}

/// `property: value` on a line of its own.
pub open spec fn entry_text(e: (Seq<char>, Seq<char>)) -> Seq<char> {
    seq!['\n'] + e.0 + seq![':', ' '] + e.1
}

/// A style block: `STYLE`, the rule head, its properties, and the closing brace.
pub open spec fn style_text(s: VTTStyleView) -> Seq<char> {
    let head = match s.selector {
        Some(x) => "::cue("@ + x + ") {"@,
        None => "::cue {"@,
    };
    "STYLE\n"@ + head + join(s.entries.map_values(|e: (Seq<char>, Seq<char>)| entry_text(e)), seq![])
        + "\n}"@
}

/// ` key:value`, or ` key` for a bare setting.
pub open spec fn setting_text(e: (Seq<char>, Option<Seq<char>>)) -> Seq<char> {
    seq![' '] + e.0 + match e.1 {
        Some(x) => seq![':'] + x,
        None => seq![],
    }
}

/// A cue block: the identifier line if any, the timing line with settings, the text.
pub open spec fn cue_text(l: VTTLineView) -> Seq<char> {
    let id = match l.identifier {
        Some(x) => x + seq!['\n'],
        None => seq![],
    };
    id + l.start.spec_format(TimeFormat::Vtt) + " --> "@ + l.end.spec_format(TimeFormat::Vtt) + join(
        l.settings.map_values(|e: (Seq<char>, Option<Seq<char>>)| setting_text(e)),
        seq![],
    ) + seq!['\n'] + l.text
}

/// A percentage: the number, then `%`.
pub open spec fn percent_text(d: Decimal) -> Seq<char> {
    d.spec_text() + seq!['%']
}

pub open spec fn anchor_text(name: Seq<char>, a: Option<(Decimal, Decimal)>) -> Seq<char> {
    match a {
        Some(p) => seq!['\n'] + name + seq![':'] + percent_text(p.0) + seq![','] + percent_text(p.1),
        None => seq![],
    }
}

/// A region block: `REGION`, then a `name:value` line for each setting that is set.
pub open spec fn region_text(r: VTTRegionView) -> Seq<char> {
    "REGION"@ + match r.id {
        Some(x) => "\nid:"@ + x,
        None => seq![],
    } + match r.width {
        Some(w) => "\nwidth:"@ + percent_text(w),
        None => seq![],
    } + match r.lines {
        Some(n) => "\nlines:"@ + crate::text::decimal(n as nat),
        None => seq![],
    } + anchor_text("regionanchor"@, r.region_anchor) + anchor_text("viewportanchor"@, r.viewport_anchor)
        + if r.scroll {
        "\nscroll:up"@
    } else {
        seq![]
    }
}

/// The blocks of a document in the order they are written: the preamble, the
/// regions, the style blocks, then the cues.
pub open spec fn vtt_blocks_text(d: VTTView) -> Seq<Seq<char>> {
    seq!["WEBVTT"@] + d.regions.map_values(|r: VTTRegionView| region_text(r)) + d.styles.map_values(
        |s: VTTStyleView| style_text(s),
    ) + d.lines.map_values(|l: VTTLineView| cue_text(l))
}

/// The text of a document: its blocks, with a blank line between each two.
pub open spec fn vtt_text(d: VTTView) -> Seq<char> {
    join(vtt_blocks_text(d), seq!['\n', '\n'])
}

fn push_anchor(out: &mut Vec<char>, name: &str, a: Option<(Decimal, Decimal)>)
    ensures
        final(out)@ == old(out)@ + anchor_text(name@, a),
{
    match a {
        Some(p) => {
            out.push('\n');
            push_str(out, name);
            out.push(':');
            push_all(out, p.0.text_chars().as_slice());
            out.push('%');
            out.push(',');
            push_all(out, p.1.text_chars().as_slice());
            out.push('%');
        },
        None => {},
    }
    assert(final(out)@ =~= old(out)@ + anchor_text(name@, a));
}

fn push_region_head(out: &mut Vec<char>, r: &VTTRegion)
    ensures
        final(out)@ == old(out)@ + match r@.id {
            Some(x) => "\nid:"@ + x,
            None => seq![],
        } + match r@.width {
            Some(w) => "\nwidth:"@ + percent_text(w),
            None => seq![],
        } + match r@.lines {
            Some(n) => "\nlines:"@ + crate::text::decimal(n as nat),
            None => seq![],
        },
{
    let ghost o = out@;
    match &r.id {
        Some(x) => {
            push_str(out, "\nid:");
            push_str(out, x.as_str());
        },
        None => {},
    }
    let ghost o1 = out@;
    match r.width {
        Some(w) => {
            push_str(out, "\nwidth:");
            push_all(out, w.text_chars().as_slice());
            out.push('%');
        },
        None => {},
    }
    let ghost o2 = out@;
    match r.lines {
        Some(n) => {
            push_str(out, "\nlines:");
            push_all(out, crate::text::decimal_exec(n as u64).as_slice());
        },
        None => {},
    }
    assert(o1 =~= o + match r@.id {
        Some(x) => "\nid:"@ + x,
        None => seq![],
    });
    assert(o2 =~= o1 + match r@.width {
        Some(w) => "\nwidth:"@ + percent_text(w),
        None => seq![],
    });
    assert(out@ =~= o2 + match r@.lines {
        Some(n) => "\nlines:"@ + crate::text::decimal(n as nat),
        None => seq![],
    });
}

fn region_chars(r: &VTTRegion) -> (res: Vec<char>)
    ensures
        res@ == region_text(r@),
{
    let mut out = lit("REGION");
    push_region_head(&mut out, r);
    push_anchor(&mut out, "regionanchor", r.region_anchor);
    push_anchor(&mut out, "viewportanchor", r.viewport_anchor);
    let ghost o = out@;
    if r.scroll {
        push_str(&mut out, "\nscroll:up");
    }
    assert(out@ =~= o + if r.scroll {
        "\nscroll:up"@
    } else {
        seq![]
    });
    assert(out@ =~= region_text(r@));
    out
}

fn entries_chars(m: &Vec<(String, String)>) -> (r: Vec<char>)
    ensures
        r@ == join(entries_view(m@).map_values(|e: (Seq<char>, Seq<char>)| entry_text(e)), seq![]),
{
    let ghost parts = entries_view(m@).map_values(|e: (Seq<char>, Seq<char>)| entry_text(e));
    let mut pieces: Vec<Vec<char>> = Vec::new();
    let mut i: usize = 0;
    while i < m.len()
        invariant
            i <= m@.len(),
            parts == entries_view(m@).map_values(|e: (Seq<char>, Seq<char>)| entry_text(e)),
            views(pieces@) == parts.take(i as int),
        decreases m.len() - i,
    {
        let mut t: Vec<char> = Vec::new();
        t.push('\n');
        push_str(&mut t, m[i].0.as_str());
        t.push(':');
        t.push(' ');
        push_str(&mut t, m[i].1.as_str());
        assert(t@ =~= parts[i as int]);
        let ghost before = views(pieces@);
        let ghost tv = t@;
        pieces.push(t);
        assert(views(pieces@) =~= before.push(tv));
        assert(parts.take(i + 1) =~= parts.take(i as int).push(parts[i as int]));
        i += 1;
    }
    assert(parts.take(m@.len() as int) =~= parts);
    let mut out: Vec<char> = Vec::new();
    let empty: Vec<char> = Vec::new();
    push_joined(&mut out, &pieces, 0, pieces.len(), empty.as_slice());
    assert(views(pieces@).subrange(0, pieces@.len() as int) =~= views(pieces@));
    assert(empty@ =~= seq![]);
    out
}

fn settings_chars(m: &Vec<(String, Option<String>)>) -> (r: Vec<char>)
    ensures
        r@ == join(settings_view(m@).map_values(|e: (Seq<char>, Option<Seq<char>>)| setting_text(e)), seq![]),
{
    let ghost parts = settings_view(m@).map_values(|e: (Seq<char>, Option<Seq<char>>)| setting_text(e));
    let mut pieces: Vec<Vec<char>> = Vec::new();
    let mut i: usize = 0;
    while i < m.len()
        invariant
            i <= m@.len(),
            parts == settings_view(m@).map_values(|e: (Seq<char>, Option<Seq<char>>)| setting_text(e)),
            views(pieces@) == parts.take(i as int),
        decreases m.len() - i,
    {
        let mut t: Vec<char> = Vec::new();
        t.push(' ');
        push_str(&mut t, m[i].0.as_str());
        match &m[i].1 {
            Some(x) => {
                t.push(':');
                push_str(&mut t, x.as_str());
            },
            None => {},
        }
        assert(t@ =~= parts[i as int]);
        let ghost before = views(pieces@);
        let ghost tv = t@;
        pieces.push(t);
        assert(views(pieces@) =~= before.push(tv));
        assert(parts.take(i + 1) =~= parts.take(i as int).push(parts[i as int]));
        i += 1;
    }
    assert(parts.take(m@.len() as int) =~= parts);
    let mut out: Vec<char> = Vec::new();
    let empty: Vec<char> = Vec::new();
    push_joined(&mut out, &pieces, 0, pieces.len(), empty.as_slice());
    assert(views(pieces@).subrange(0, pieces@.len() as int) =~= views(pieces@));
    assert(empty@ =~= seq![]);
    out
}

fn style_chars(st: &VTTStyle) -> (r: Vec<char>)
    ensures
        r@ == style_text(st@),
{
    let mut out: Vec<char> = Vec::new();
    push_str(&mut out, "STYLE\n");
    match &st.selector {
        Some(x) => {
            push_str(&mut out, "::cue(");
            push_str(&mut out, x.as_str());
            push_str(&mut out, ") {");
        },
        None => {
            push_str(&mut out, "::cue {");
        },
    }
    let e = entries_chars(&st.entries);
    push_all(&mut out, e.as_slice());
    push_str(&mut out, "\n}");
    assert(out@ =~= style_text(st@));
    out
}

fn cue_chars(l: &VTTLine) -> (r: Vec<char>)
    ensures
        r@ == cue_text(l@),
{
    let mut out: Vec<char> = Vec::new();
    match &l.identifier {
        Some(x) => {
            push_str(&mut out, x.as_str());
            out.push('\n');
        },
        None => {},
    }
    push_all(&mut out, l.start.format_chars(TimeFormat::Vtt).as_slice());
    push_str(&mut out, " --> ");
    push_all(&mut out, l.end.format_chars(TimeFormat::Vtt).as_slice());
    let st = settings_chars(&l.settings);
    push_all(&mut out, st.as_slice());
    out.push('\n');
    push_str(&mut out, l.text.as_str());
    assert(out@ =~= cue_text(l@));
    out
}

/// Whether lines `[a, b)` are the preamble: a single line that starts with `WEBVTT`.
pub fn parse_start(ls: &Vec<Vec<char>>, a: usize, b: usize) -> (r: bool)
    requires
        a < ls@.len(),
    ensures
        r == (b == a + 1 && starts_with(views(ls@)[a as int], "WEBVTT"@)),
{
    assert(views(ls@)[a as int] == ls@[a as int]@);
    b > a && b - a == 1 && starts_with_exec(ls[a].as_slice(), lit("WEBVTT").as_slice())
}

impl VTT {
    /// Parses a cue-block text.
    pub fn parse(content: &str) -> (r: Result<VTT, VTTError>)
        requires
            content@.len() < usize::MAX,
        ensures
            match r {
                Ok(d) => vtt_parse_spec(content@) == Ok::<VTTView, VTTFault>(d@),
                Err(e) => match vtt_parse_spec(content@) {
                    Ok(_) => false,
                    Err(VTTFault::InvalidFormat(l)) => e.kind is InvalidFormat && e.line == l,
                    Err(VTTFault::Parse(l)) => e.kind is Parse && e.line == l,
                },
            },
    {
        let cs = chars_of(content);
        let ls = lines_exec(cs.as_slice());
        proof {
            lemma_lines_len(cs@, 0);
        }
        let ghost v = views(ls@);
        let bs = blocks_exec(&ls);
        let ghost bv = blocks(v);
        if bs.len() == 0 {
            return Err(VTTError { line: 1, kind: VTTErrorKind::InvalidFormat });
        }
        let (a0, b0) = bs[0];
        assert(v[a0 as int] == ls@[a0 as int]@);
        if !parse_start(&ls, a0, b0) {
            return Err(VTTError { line: 1, kind: VTTErrorKind::InvalidFormat });
        }
        let mut regions: Vec<VTTRegion> = Vec::new();
        let mut styles: Vec<VTTStyle> = Vec::new();
        let mut cues: Vec<VTTLine> = Vec::new();
        let mut k: usize = 1;
        assert(VTT { regions, styles, lines: cues }@.regions =~= seq![]);
        assert(VTT { regions, styles, lines: cues }@.styles =~= seq![]);
        assert(VTT { regions, styles, lines: cues }@.lines =~= seq![]);
        while k < bs.len()
            invariant
                v == views(ls@),
                v == lines(content@),
                bv == blocks(v),
                has_preamble(v, bv),
                ls@.len() < usize::MAX,
                bs@.len() == bv.len(),
                forall|j: int|
                    0 <= j < bs@.len() ==> (#[trigger] bs@[j]).0 as int == bv[j].0 && bs@[j].1 as int
                        == bv[j].1,
                forall|j: int| 0 <= j < bs@.len() ==> (#[trigger] bs@[j]).0 < bs@[j].1 <= ls@.len(),
                1 <= k <= bs@.len(),
                vtt_blocks_upto(v, bv, k as int) == Ok::<VTTView, int>(VTT { regions, styles, lines: cues }@),
            decreases bs.len() - k,
        {
            let (a, b) = bs[k];
            assert(v[a as int] == ls@[a as int]@);
            let w = first_word_exec(&ls[a]);
            let ghost before = VTT { regions, styles, lines: cues }@;
            if eq_chars(w.as_slice(), lit("NOTE").as_slice()) {
            } else if eq_chars(w.as_slice(), lit("REGION").as_slice()) {
                match parse_region_block(&ls, a, b) {
                    Ok(r) => {
                        regions.push(r);
                        assert(VTT { regions, styles, lines: cues }@.regions =~= before.regions.push(r@));
                    },
                    Err(e) => {
                        proof {
                            lemma_blocks_err_stays(v, bv, k + 1, bv.len() as int);
                        }
                        return Err(VTTError { line: e, kind: VTTErrorKind::Parse(String::from_str("invalid region")) });
                    },
                }
            } else if eq_chars(w.as_slice(), lit("STYLE").as_slice()) {
                match parse_style_block(&ls, a, b) {
                    Ok(st) => {
                        styles.push(st);
                        assert(VTT { regions, styles, lines: cues }@.styles =~= before.styles.push(st@));
                    },
                    Err(e) => {
                        proof {
                            lemma_blocks_err_stays(v, bv, k + 1, bv.len() as int);
                        }
                        return Err(VTTError { line: e, kind: VTTErrorKind::Parse(String::from_str("invalid style")) });
                    },
                }
            } else {
                match parse_cue_block(&ls, a, b) {
                    Ok(l) => {
                        cues.push(l);
                        assert(VTT { regions, styles, lines: cues }@.lines =~= before.lines.push(l@));
                    },
                    Err(e) => {
                        proof {
                            lemma_blocks_err_stays(v, bv, k + 1, bv.len() as int);
                        }
                        return Err(VTTError { line: e, kind: VTTErrorKind::Parse(String::from_str("invalid cue")) });
                    },
                }
            }
            k += 1;
        }
        Ok(VTT { regions, styles, lines: cues })
    }

    /// The document as text: `WEBVTT`, the region blocks, the style blocks,
    /// then the cues, with a blank line between blocks.
    pub fn to_string(&self) -> (r: String)
        ensures
            r@ == vtt_text(self@),
    {
        let ghost d = self@;
        let ghost parts = vtt_blocks_text(d);
        let mut pieces: Vec<Vec<char>> = Vec::new();
        pieces.push(lit("WEBVTT"));
        let nr = self.regions.len();
        let ns = self.styles.len();
        let nl = self.lines.len();
        assert(views(pieces@) =~= parts.take(1));
        let mut h: usize = 0;
        while h < nr
            invariant
                d == self@,
                nr == self.regions@.len(),
                parts == vtt_blocks_text(d),
                h <= nr,
                views(pieces@) == parts.take(1 + h),
            decreases nr - h,
        {
            let t = region_chars(&self.regions[h]);
            let ghost before = views(pieces@);
            let ghost tv = t@;
            pieces.push(t);
            assert(views(pieces@) =~= before.push(tv));
            assert(parts[1 + h] == tv);
            assert(parts.take(1 + h + 1) =~= parts.take(1 + h).push(parts[1 + h]));
            h += 1;
        }
        let mut i: usize = 0;
        while i < ns
            invariant
                d == self@,
                nr == self.regions@.len(),
                ns == self.styles@.len(),
                parts == vtt_blocks_text(d),
                i <= ns,
                views(pieces@) == parts.take(1 + nr + i),
            decreases ns - i,
        {
            let t = style_chars(&self.styles[i]);
            let ghost before = views(pieces@);
            let ghost tv = t@;
            pieces.push(t);
            assert(views(pieces@) =~= before.push(tv));
            assert(parts[1 + nr + i] == tv);
            assert(parts.take(1 + nr + i + 1) =~= parts.take(1 + nr + i).push(parts[1 + nr + i]));
            i += 1;
        }
        let mut j: usize = 0;
        while j < nl
            invariant
                d == self@,
                nr == self.regions@.len(),
                ns == self.styles@.len(),
                nl == self.lines@.len(),
                parts == vtt_blocks_text(d),
                j <= nl,
                views(pieces@) == parts.take(1 + nr + ns + j),
            decreases nl - j,
        {
            let t = cue_chars(&self.lines[j]);
            let ghost before = views(pieces@);
            let ghost tv = t@;
            pieces.push(t);
            assert(views(pieces@) =~= before.push(tv));
            assert(parts[1 + nr + ns + j] == tv);
            assert(parts.take(1 + nr + ns + j + 1) =~= parts.take(1 + nr + ns + j).push(parts[1 + nr + ns + j]));
            j += 1;
        }
        assert(parts.take(1 + nr + ns + nl) =~= parts);
        let mut out: Vec<char> = Vec::new();
        let sep = vec!['\n', '\n'];
        push_joined(&mut out, &pieces, 0, pieces.len(), sep.as_slice());
        assert(views(pieces@).subrange(0, pieces@.len() as int) =~= views(pieces@));
        assert(sep@ =~= seq!['\n', '\n']);
        string_of(out.as_slice())
    }
}

} // verus!
