//! The styled-script format: a `[Script Info]` section of `Key: value` lines,
//! then `[V4+ Styles]`, `[Events]`, `[Fonts]` and `[Graphics]` sections, each a
//! block of lines; styles and events are comma-separated rows under a `Format:`
//! header whose column order is free.
use vstd::prelude::*;
use crate::color::{color_from_ssa_chars, ssa_color_spec, Color};
use crate::decimal::{decimal_spec, parse_decimal_chars, Decimal};
use crate::text::{
    decimal, decimal_exec, chars_of, digits_value, eq_chars, eq_ignore_case, eq_ignore_case_exec, find_exec, find_from,
    join, lemma_lines_len, lines, lines_exec, next_blank, next_filled, is_blank, is_blank_exec,
    parse_u32, push_all, push_joined, push_str, slice_of, split, split_exec, split_once,
    split_once_exec, starts_with, starts_with_exec, string_of, trim, trim_exec, u32_text, views,
};
use crate::time::{parse_time_chars, parse_time_spec, Time, TimeFormat};
use crate::vtt::{key_pos, opt_view, upsert};

verus! {

/// How text is anchored: bottom, middle or top, crossed with left, center or right.
#[derive(Clone, Copy, Debug, PartialEq, Eq, Structural)]
pub enum Alignment {
    BottomLeft,
    BottomCenter,
    BottomRight,
    MiddleLeft,
    MiddleCenter,
    MiddleRight,
    TopLeft,
    TopCenter,
    TopRight,
}

/// The alignment that the digit `1` to `9` names.
pub open spec fn alignment_of(s: Seq<char>) -> Option<Alignment> {
    if s == "1"@ {
        Some(Alignment::BottomLeft)
    } else if s == "2"@ {
        Some(Alignment::BottomCenter)
    } else if s == "3"@ {
        Some(Alignment::BottomRight)
    } else if s == "4"@ {
        Some(Alignment::MiddleLeft)
    } else if s == "5"@ {
        Some(Alignment::MiddleCenter)
    } else if s == "6"@ {
        Some(Alignment::MiddleRight)
    } else if s == "7"@ {
        Some(Alignment::TopLeft)
    } else if s == "8"@ {
        Some(Alignment::TopCenter)
    } else if s == "9"@ {
        Some(Alignment::TopRight)
    } else {
        None
    }
}

impl Alignment {
    pub open spec fn spec_number(self) -> nat {
        match self {
            Alignment::BottomLeft => 1,
            Alignment::BottomCenter => 2,
            Alignment::BottomRight => 3,
            Alignment::MiddleLeft => 4,
            Alignment::MiddleCenter => 5,
            Alignment::MiddleRight => 6,
            Alignment::TopLeft => 7,
            Alignment::TopCenter => 8,
            Alignment::TopRight => 9,
        }
    }

    /// The number `1` to `9` of this alignment.
    pub fn number(&self) -> (r: u8)
        ensures
            r == self.spec_number(),
    {
        match self {
            Alignment::BottomLeft => 1,
            Alignment::BottomCenter => 2,
            Alignment::BottomRight => 3,
            Alignment::MiddleLeft => 4,
            Alignment::MiddleCenter => 5,
            Alignment::MiddleRight => 6,
            Alignment::TopLeft => 7,
            Alignment::TopCenter => 8,
            Alignment::TopRight => 9,
        }
    }

    /// Reads an alignment from its digit.
    pub fn infer_from_str(s: &str) -> (r: Result<Alignment, &'static str>)
        ensures
            match alignment_of(s@) {
                Some(a) => r == Ok::<Alignment, &'static str>(a),
                None => r is Err,
            },
    {
        let v = chars_of(s);
        match alignment_chars(v.as_slice()) {
            Some(a) => Ok(a),
            None => Err("alignment must be a digit from 1 to 9"),
        }
    }
}

pub fn alignment_chars(s: &[char]) -> (r: Option<Alignment>)
    ensures
        r == alignment_of(s@),
{
    proof {
        reveal_strlit("1");
        reveal_strlit("2");
        reveal_strlit("3");
        reveal_strlit("4");
        reveal_strlit("5");
        reveal_strlit("6");
        reveal_strlit("7");
        reveal_strlit("8");
        reveal_strlit("9");
    }
    if s.len() != 1 {
        assert(s@ != "1"@ && s@ != "2"@ && s@ != "3"@ && s@ != "4"@ && s@ != "5"@);
        assert(s@ != "6"@ && s@ != "7"@ && s@ != "8"@ && s@ != "9"@);
        return None;
    }
    let c = s[0];
    assert(s@ =~= seq![c]);
    assert("1"@ =~= seq!['1'] && "2"@ =~= seq!['2'] && "3"@ =~= seq!['3']);
    assert("4"@ =~= seq!['4'] && "5"@ =~= seq!['5'] && "6"@ =~= seq!['6']);
    assert("7"@ =~= seq!['7'] && "8"@ =~= seq!['8'] && "9"@ =~= seq!['9']);
    assert(forall|d: char| seq![c] == seq![d] ==> c == d) by {
        assert forall|d: char| seq![c] == seq![d] implies c == d by {
            assert(seq![c][0] == seq![d][0]);
        }
    }
    if c == '1' {
        Some(Alignment::BottomLeft)
    } else if c == '2' {
        Some(Alignment::BottomCenter)
    } else if c == '3' {
        Some(Alignment::BottomRight)
    } else if c == '4' {
        Some(Alignment::MiddleLeft)
    } else if c == '5' {
        Some(Alignment::MiddleCenter)
    } else if c == '6' {
        Some(Alignment::MiddleRight)
    } else if c == '7' {
        Some(Alignment::TopLeft)
    } else if c == '8' {
        Some(Alignment::TopCenter)
    } else if c == '9' {
        Some(Alignment::TopRight)
    } else {
        None
    }
}

/// The kind of value a column holds.
#[derive(Clone, Copy, Debug, PartialEq, Eq, Structural)]
pub enum ColumnKind {
    Text,
    Number,
    Colour,
    Flag,
    Byte,
    Align,
    Int,
    Stamp,
}

/// Where parsing fails.
pub ghost enum SSAFault {
    Invalid(int),
    EmptyBlock(int),
    Parse(int),
    MissingHeader(Seq<char>, int),
}

/// The columns of a style row, in the order they are read.
pub open spec fn style_columns() -> Seq<(Seq<char>, ColumnKind)> {
    seq![
        ("Name"@, ColumnKind::Text),
        ("Fontname"@, ColumnKind::Text),
        ("Fontsize"@, ColumnKind::Number),
        ("PrimaryColour"@, ColumnKind::Colour),
        ("SecondaryColour"@, ColumnKind::Colour),
        ("OutlineColour"@, ColumnKind::Colour),
        ("BackColour"@, ColumnKind::Colour),
        ("Bold"@, ColumnKind::Flag),
        ("Italic"@, ColumnKind::Flag),
        ("Underline"@, ColumnKind::Flag),
        ("StrikeOut"@, ColumnKind::Flag),
        ("ScaleX"@, ColumnKind::Number),
        ("ScaleY"@, ColumnKind::Number),
        ("Spacing"@, ColumnKind::Number),
        ("Angle"@, ColumnKind::Number),
        ("BorderStyle"@, ColumnKind::Byte),
        ("Outline"@, ColumnKind::Number),
        ("Shadow"@, ColumnKind::Number),
        ("Alignment"@, ColumnKind::Align),
        ("MarginL"@, ColumnKind::Number),
        ("MarginR"@, ColumnKind::Number),
        ("MarginV"@, ColumnKind::Number),
        ("Encoding"@, ColumnKind::Number),
    ]
}

/// The columns of an event row, in the order they are read.
pub open spec fn event_columns() -> Seq<(Seq<char>, ColumnKind)> {
    seq![
        ("Layer"@, ColumnKind::Int),
        ("Start"@, ColumnKind::Stamp),
        ("End"@, ColumnKind::Stamp),
        ("Style"@, ColumnKind::Text),
        ("Name"@, ColumnKind::Text),
        ("MarginL"@, ColumnKind::Number),
        ("MarginR"@, ColumnKind::Number),
        ("MarginV"@, ColumnKind::Number),
        ("Effect"@, ColumnKind::Text),
        ("Text"@, ColumnKind::Text),
    ]
}

/// Whether the text of a column converts to a value of its kind.
pub open spec fn converts(kind: ColumnKind, t: Seq<char>) -> bool {
    match kind {
        ColumnKind::Text => true,
        ColumnKind::Number => decimal_spec(t) is Some,
        ColumnKind::Colour => ssa_color_spec(t) is Ok,
        ColumnKind::Flag => t == "-1"@ || t == "0"@,
        ColumnKind::Byte => u32_text(t) is Some && u32_text(t)->0 <= 255,
        ColumnKind::Align => alignment_of(t) is Some,
        ColumnKind::Int => u32_text(t) is Some,
        ColumnKind::Stamp => parse_time_spec(t, TimeFormat::Ass) is Some,
    }
}

/// The index of the header named `name` (ignoring case and surrounding blanks), or -1.
pub open spec fn column_pos(headers: Seq<Seq<char>>, name: Seq<char>, i: int) -> int
    decreases headers.len() - i,
{
    if i < 0 || i >= headers.len() {
        -1
    } else if eq_ignore_case(trim(headers[i]), name) {
        i
    } else {
        column_pos(headers, name, i + 1)
    }
}

/// The value under the header `name` in a row found at line `ln`.
pub open spec fn lookup(headers: Seq<Seq<char>>, values: Seq<Seq<char>>, name: Seq<char>, hline: int, ln: int) -> Result<Seq<char>, SSAFault> {
    let p = column_pos(headers, name, 0);
    if p < 0 {
        Err(SSAFault::MissingHeader(name, hline))
    } else if p >= values.len() {
        Err(SSAFault::Parse(ln))
    } else {
        Ok(values[p])
    }
}

/// The texts of the first `n` columns of a row, each looked up then checked in turn.
pub open spec fn fold_columns(headers: Seq<Seq<char>>, values: Seq<Seq<char>>, cols: Seq<(Seq<char>, ColumnKind)>, n: int, hline: int, ln: int) -> Result<Seq<Seq<char>>, SSAFault>
    decreases n,
{
    if n <= 0 {
        Ok(seq![])
    } else {
        match fold_columns(headers, values, cols, n - 1, hline, ln) {
            Err(f) => Err(f),
            Ok(ts) => match lookup(headers, values, cols[n - 1].0, hline, ln) {
                Err(f) => Err(f),
                Ok(t) => if converts(cols[n - 1].1, t) {
                    Ok(ts.push(t))
                } else {
                    Err(SSAFault::Parse(ln))
                },
            },
        }
    }
}

pub proof fn lemma_columns_err_stays(headers: Seq<Seq<char>>, values: Seq<Seq<char>>, cols: Seq<(Seq<char>, ColumnKind)>, j: int, n: int, hline: int, ln: int)
    requires
        j <= n,
        fold_columns(headers, values, cols, j, hline, ln) is Err,
    ensures
        fold_columns(headers, values, cols, n, hline, ln) == fold_columns(headers, values, cols, j, hline, ln),
    decreases n - j,
{
    if j < n {
        lemma_columns_err_stays(headers, values, cols, j, n - 1, hline, ln);
    }
}

fn lit(s: &str) -> (r: Vec<char>)
    ensures
        r@ == s@,
{
    chars_of(s)
}

pub open spec fn table_view(t: Seq<(Vec<char>, ColumnKind)>) -> Seq<(Seq<char>, ColumnKind)> {
    t.map_values(|e: (Vec<char>, ColumnKind)| (e.0@, e.1))
}

fn style_columns_exec() -> (r: Vec<(Vec<char>, ColumnKind)>)
    ensures
        table_view(r@) == style_columns(),
{
    let mut t: Vec<(Vec<char>, ColumnKind)> = Vec::new();
    t.push((lit("Name"), ColumnKind::Text));
    t.push((lit("Fontname"), ColumnKind::Text));
    t.push((lit("Fontsize"), ColumnKind::Number));
    t.push((lit("PrimaryColour"), ColumnKind::Colour));
    t.push((lit("SecondaryColour"), ColumnKind::Colour));
    t.push((lit("OutlineColour"), ColumnKind::Colour));
    t.push((lit("BackColour"), ColumnKind::Colour));
    t.push((lit("Bold"), ColumnKind::Flag));
    t.push((lit("Italic"), ColumnKind::Flag));
    t.push((lit("Underline"), ColumnKind::Flag));
    t.push((lit("StrikeOut"), ColumnKind::Flag));
    t.push((lit("ScaleX"), ColumnKind::Number));
    t.push((lit("ScaleY"), ColumnKind::Number));
    t.push((lit("Spacing"), ColumnKind::Number));
    t.push((lit("Angle"), ColumnKind::Number));
    t.push((lit("BorderStyle"), ColumnKind::Byte));
    t.push((lit("Outline"), ColumnKind::Number));
    t.push((lit("Shadow"), ColumnKind::Number));
    t.push((lit("Alignment"), ColumnKind::Align));
    t.push((lit("MarginL"), ColumnKind::Number));
    t.push((lit("MarginR"), ColumnKind::Number));
    t.push((lit("MarginV"), ColumnKind::Number));
    t.push((lit("Encoding"), ColumnKind::Number));
    assert(table_view(t@) =~= style_columns());
    t
}

fn event_columns_exec() -> (r: Vec<(Vec<char>, ColumnKind)>)
    ensures
        table_view(r@) == event_columns(),
{
    let mut t: Vec<(Vec<char>, ColumnKind)> = Vec::new();
    t.push((lit("Layer"), ColumnKind::Int));
    t.push((lit("Start"), ColumnKind::Stamp));
    t.push((lit("End"), ColumnKind::Stamp));
    t.push((lit("Style"), ColumnKind::Text));
    t.push((lit("Name"), ColumnKind::Text));
    t.push((lit("MarginL"), ColumnKind::Number));
    t.push((lit("MarginR"), ColumnKind::Number));
    t.push((lit("MarginV"), ColumnKind::Number));
    t.push((lit("Effect"), ColumnKind::Text));
    t.push((lit("Text"), ColumnKind::Text));
    assert(table_view(t@) =~= event_columns());
    t
}

/// The `[Script Info]` section: recognized fields, and the others by name in
/// order of first appearance.
#[derive(Clone, Debug, PartialEq, Eq)]
pub struct SSAInfo {
    pub title: Option<String>,
    pub original_script: Option<String>,
    pub original_translation: Option<String>,
    pub original_editing: Option<String>,
    pub original_timing: Option<String>,
    pub synch_point: Option<String>,
    pub script_update_by: Option<String>,
    pub update_details: Option<String>,
    pub script_type: Option<String>,
    pub collisions: Option<String>,
    pub play_res_y: Option<u32>,
    pub play_res_x: Option<u32>,
    pub play_depth: Option<u32>,
    pub timer: Option<Decimal>,
    pub wrap_style: Option<u8>,
    pub additional_fields: Vec<(String, String)>,
}

pub ghost struct SSAInfoView {
    pub title: Option<Seq<char>>,
    pub original_script: Option<Seq<char>>,
    pub original_translation: Option<Seq<char>>,
    pub original_editing: Option<Seq<char>>,
    pub original_timing: Option<Seq<char>>,
    pub synch_point: Option<Seq<char>>,
    pub script_update_by: Option<Seq<char>>,
    pub update_details: Option<Seq<char>>,
    pub script_type: Option<Seq<char>>,
    pub collisions: Option<Seq<char>>,
    pub play_res_y: Option<u32>,
    pub play_res_x: Option<u32>,
    pub play_depth: Option<u32>,
    pub timer: Option<Decimal>,
    pub wrap_style: Option<u8>,
    pub additional_fields: Seq<(Seq<char>, Seq<char>)>,
}

impl View for SSAInfo {
    type V = SSAInfoView;

    open spec fn view(&self) -> SSAInfoView {
        SSAInfoView {
            title: opt_view(self.title),
            original_script: opt_view(self.original_script),
            original_translation: opt_view(self.original_translation),
            original_editing: opt_view(self.original_editing),
            original_timing: opt_view(self.original_timing),
            synch_point: opt_view(self.synch_point),
            script_update_by: opt_view(self.script_update_by),
            update_details: opt_view(self.update_details),
            script_type: opt_view(self.script_type),
            collisions: opt_view(self.collisions),
            play_res_y: self.play_res_y,
            play_res_x: self.play_res_x,
            play_depth: self.play_depth,
            timer: self.timer,
            wrap_style: self.wrap_style,
            additional_fields: self.additional_fields@.map_values(|e: (String, String)| (e.0@, e.1@)),
        }
    }
}

/// A style: font, colors, flags, geometry, alignment and margins.
#[derive(Clone, Debug, PartialEq, Eq)]
pub struct SSAStyle {
    pub name: String,
    pub fontname: String,
    pub fontsize: Decimal,
    pub primary_color: Option<Color>,
    pub secondary_color: Option<Color>,
    pub outline_color: Option<Color>,
    pub back_color: Option<Color>,
    pub bold: bool,
    pub italic: bool,
    pub underline: bool,
    pub strikeout: bool,
    pub scale_x: Decimal,
    pub scale_y: Decimal,
    pub spacing: Decimal,
    pub angle: Decimal,
    pub border_style: u8,
    pub outline: Decimal,
    pub shadow: Decimal,
    pub alignment: Alignment,
    pub margin_l: Decimal,
    pub margin_r: Decimal,
    pub margin_v: Decimal,
    pub encoding: Decimal,
}

pub ghost struct SSAStyleView {
    pub name: Seq<char>,
    pub fontname: Seq<char>,
    pub fontsize: Decimal,
    pub primary_color: Option<Color>,
    pub secondary_color: Option<Color>,
    pub outline_color: Option<Color>,
    pub back_color: Option<Color>,
    pub bold: bool,
    pub italic: bool,
    pub underline: bool,
    pub strikeout: bool,
    pub scale_x: Decimal,
    pub scale_y: Decimal,
    pub spacing: Decimal,
    pub angle: Decimal,
    pub border_style: u8,
    pub outline: Decimal,
    pub shadow: Decimal,
    pub alignment: Alignment,
    pub margin_l: Decimal,
    pub margin_r: Decimal,
    pub margin_v: Decimal,
    pub encoding: Decimal,
}

impl View for SSAStyle {
    type V = SSAStyleView;

    open spec fn view(&self) -> SSAStyleView {
        SSAStyleView {
            name: self.name@,
            fontname: self.fontname@,
            fontsize: self.fontsize,
            primary_color: self.primary_color,
            secondary_color: self.secondary_color,
            outline_color: self.outline_color,
            back_color: self.back_color,
            bold: self.bold,
            italic: self.italic,
            underline: self.underline,
            strikeout: self.strikeout,
            scale_x: self.scale_x,
            scale_y: self.scale_y,
            spacing: self.spacing,
            angle: self.angle,
            border_style: self.border_style,
            outline: self.outline,
            shadow: self.shadow,
            alignment: self.alignment,
            margin_l: self.margin_l,
            margin_r: self.margin_r,
            margin_v: self.margin_v,
            encoding: self.encoding,
        }
    }
}

/// What an event line is: dialogue, a comment, or another named kind.
#[derive(Clone, Debug, PartialEq, Eq)]
pub enum SSAEventLineType {
    Dialogue,
    Comment,
    Other(String),
}

pub ghost enum LineTypeView {
    Dialogue,
    Comment,
    Other(Seq<char>),
}

impl View for SSAEventLineType {
    type V = LineTypeView;

    open spec fn view(&self) -> LineTypeView {
        match self {
            SSAEventLineType::Dialogue => LineTypeView::Dialogue,
            SSAEventLineType::Comment => LineTypeView::Comment,
            SSAEventLineType::Other(s) => LineTypeView::Other(s@),
        }
    }
}

/// An event: layer, time range, the name of its style (a lookup key, which may
/// match no style), speaker, margins, effect, text and kind.
#[derive(Clone, Debug, PartialEq, Eq)]
pub struct SSAEvent {
    pub layer: u32,
    pub start: Time,
    pub end: Time,
    pub style: String,
    pub name: String,
    pub margin_l: Decimal,
    pub margin_r: Decimal,
    pub margin_v: Decimal,
    pub effect: String,
    pub text: String,
    pub line_type: SSAEventLineType,
}

pub ghost struct SSAEventView {
    pub layer: u32,
    pub start: Time,
    pub end: Time,
    pub style: Seq<char>,
    pub name: Seq<char>,
    pub margin_l: Decimal,
    pub margin_r: Decimal,
    pub margin_v: Decimal,
    pub effect: Seq<char>,
    pub text: Seq<char>,
    pub line_type: LineTypeView,
}

impl View for SSAEvent {
    type V = SSAEventView;

    open spec fn view(&self) -> SSAEventView {
        SSAEventView {
            layer: self.layer,
            start: self.start,
            end: self.end,
            style: self.style@,
            name: self.name@,
            margin_l: self.margin_l,
            margin_r: self.margin_r,
            margin_v: self.margin_v,
            effect: self.effect@,
            text: self.text@,
            line_type: self.line_type@,
        }
    }
}

/// A styled-script document.
#[derive(Clone, Debug, PartialEq, Eq)]
pub struct SSA {
    pub info: SSAInfo,
    pub styles: Vec<SSAStyle>,
    pub events: Vec<SSAEvent>,
    pub fonts: Vec<String>,
    pub graphics: Vec<String>,
}

pub ghost struct SSAView {
    pub info: SSAInfoView,
    pub styles: Seq<SSAStyleView>,
    pub events: Seq<SSAEventView>,
    pub fonts: Seq<Seq<char>>,
    pub graphics: Seq<Seq<char>>,
}

impl View for SSA {
    type V = SSAView;

    open spec fn view(&self) -> SSAView {
        SSAView {
            info: self.info@,
            styles: self.styles@.map_values(|x: SSAStyle| x@),
            events: self.events@.map_values(|x: SSAEvent| x@),
            fonts: self.fonts@.map_values(|x: String| x@),
            graphics: self.graphics@.map_values(|x: String| x@),
        }
    }
}

#[derive(Clone, Debug, PartialEq, Eq)]
pub enum SSAErrorKind {
    Invalid,
    EmptyBlock,
    Parse(String),
    MissingHeader(String),
}

/// A parse failure and the 1-based line where it was found.
#[derive(Clone, Debug, PartialEq, Eq)]
pub struct SSAError {
    pub line: usize,
    pub kind: SSAErrorKind,
}

impl SSAError {
    pub fn line(&self) -> (r: usize)
        ensures
            r == self.line,
    {
        self.line
    }

    pub fn kind(&self) -> &SSAErrorKind {
        &self.kind
    }
}

/// The error that reports a fault.
pub open spec fn reports(e: SSAError, f: SSAFault) -> bool {
    match f {
        SSAFault::Invalid(l) => e.kind is Invalid && e.line == l,
        SSAFault::EmptyBlock(l) => e.kind is EmptyBlock && e.line == l,
        SSAFault::Parse(l) => e.kind is Parse && e.line == l,
        SSAFault::MissingHeader(n, l) => e.line == l && match e.kind {
            SSAErrorKind::MissingHeader(x) => x@ == n,
            _ => false,
        },
    }
}

pub open spec fn zero() -> Decimal {
    Decimal { negative: false, mantissa: 0, scale: 0 }
}

pub open spec fn num(t: Seq<char>) -> Decimal {
    match decimal_spec(t) {
        Some(d) => d,
        None => zero(),
    }
}

/// The colour of a checked colour column: it is always read, an empty text being refused.
pub open spec fn colour(t: Seq<char>) -> Option<Color> {
    match ssa_color_spec(t) {
        Ok(c) => Some(c),
        Err(_) => None,
    }
}

pub open spec fn byte(t: Seq<char>) -> u8 {
    match u32_text(t) {
        Some(n) => n as u8,
        None => 0,
    }
}

pub open spec fn int_value(t: Seq<char>) -> u32 {
    match u32_text(t) {
        Some(n) => n,
        None => 0,
    }
}

pub open spec fn align(t: Seq<char>) -> Alignment {
    match alignment_of(t) {
        Some(a) => a,
        None => Alignment::BottomCenter,
    }
}

pub open spec fn stamp(t: Seq<char>) -> Time {
    match parse_time_spec(t, TimeFormat::Ass) {
        Some(x) => x,
        None => Time { ms: 0 },
    }
}

/// The style that the checked texts of its columns give.
pub open spec fn style_from(ts: Seq<Seq<char>>) -> SSAStyleView {
    SSAStyleView {
        name: ts[0],
        fontname: ts[1],
        fontsize: num(ts[2]),
        primary_color: colour(ts[3]),
        secondary_color: colour(ts[4]),
        outline_color: colour(ts[5]),
        back_color: colour(ts[6]),
        bold: ts[7] == "-1"@,
        italic: ts[8] == "-1"@,
        underline: ts[9] == "-1"@,
        strikeout: ts[10] == "-1"@,
        scale_x: num(ts[11]),
        scale_y: num(ts[12]),
        spacing: num(ts[13]),
        angle: num(ts[14]),
        border_style: byte(ts[15]),
        outline: num(ts[16]),
        shadow: num(ts[17]),
        alignment: align(ts[18]),
        margin_l: num(ts[19]),
        margin_r: num(ts[20]),
        margin_v: num(ts[21]),
        encoding: num(ts[22]),
    }
}

pub open spec fn line_type_of(lt: Seq<char>) -> LineTypeView {
    if lt == "Dialogue"@ {
        LineTypeView::Dialogue
    } else if lt == "Comment"@ {
        LineTypeView::Comment
    } else {
        LineTypeView::Other(lt)
    }
}

/// The event that the checked texts of its columns and its kind give.
pub open spec fn event_from(ts: Seq<Seq<char>>, lt: Seq<char>) -> SSAEventView {
    SSAEventView {
        layer: int_value(ts[0]),
        start: stamp(ts[1]),
        end: stamp(ts[2]),
        style: ts[3],
        name: ts[4],
        margin_l: num(ts[5]),
        margin_r: num(ts[6]),
        margin_v: num(ts[7]),
        effect: ts[8],
        text: ts[9],
        line_type: line_type_of(lt),
    }
}

pub open spec fn is_comment(line: Seq<char>) -> bool {
    line.len() > 0 && line[0] == ';'
}

/// The first line in `[i, b)` that is not a `;` comment (or `b`).
pub open spec fn next_noncomment(ls: Seq<Seq<char>>, i: int, b: int) -> int
    decreases b - i,
{
    if 0 <= i < b && i < ls.len() && is_comment(ls[i]) {
        next_noncomment(ls, i + 1, b)
    } else {
        i
    }
}

/// One `Key: value` line of the script info, found at line `ln`. Comments and
/// empty values are skipped.
pub open spec fn info_line(info: SSAInfoView, line: Seq<char>, ln: int) -> Result<SSAInfoView, int> {
    if is_comment(line) {
        Ok(info)
    } else {
        match split_once(line, seq![':']) {
            None => Err(ln),
            Some(p) => {
                let name = p.0;
                let value = trim(p.1);
                if value.len() == 0 {
                    Ok(info)
                } else {
            if name == "Title"@ {
                Ok(SSAInfoView { title: Some(value), ..info })
            } else if name == "Original Script"@ {
                Ok(SSAInfoView { original_script: Some(value), ..info })
            } else if name == "Original Translation"@ {
                Ok(SSAInfoView { original_translation: Some(value), ..info })
            } else if name == "Original Editing"@ {
                Ok(SSAInfoView { original_editing: Some(value), ..info })
            } else if name == "Original Timing"@ {
                Ok(SSAInfoView { original_timing: Some(value), ..info })
            } else if name == "Synch Point"@ {
                Ok(SSAInfoView { synch_point: Some(value), ..info })
            } else if name == "Script Updated By"@ {
                Ok(SSAInfoView { script_update_by: Some(value), ..info })
            } else if name == "Update Details"@ {
                Ok(SSAInfoView { update_details: Some(value), ..info })
            } else if name == "ScriptType"@ {
                Ok(SSAInfoView { script_type: Some(value), ..info })
            } else if name == "Collisions"@ {
                Ok(SSAInfoView { collisions: Some(value), ..info })
            } else if name == "PlayResY"@ {
                match u32_text(value) {
                    Some(n) => Ok(SSAInfoView { play_res_y: Some(n), ..info }),
                    None => Err(ln),
                }
            } else if name == "PlayResX"@ {
                match u32_text(value) {
                    Some(n) => Ok(SSAInfoView { play_res_x: Some(n), ..info }),
                    None => Err(ln),
                }
            } else if name == "PlayDepth"@ {
                match u32_text(value) {
                    Some(n) => Ok(SSAInfoView { play_depth: Some(n), ..info }),
                    None => Err(ln),
                }
            } else if name == "Timer"@ {
                match decimal_spec(value) {
                    Some(d) => Ok(SSAInfoView { timer: Some(d), ..info }),
                    None => Err(ln),
                }
            } else if name == "WrapStyle"@ {
                match u32_text(value) {
                    Some(n) => if n <= 255 {
                        Ok(SSAInfoView { wrap_style: Some(n as u8), ..info })
                    } else {
                        Err(ln)
                    },
                    None => Err(ln),
                }
            } else {
                Ok(SSAInfoView { additional_fields: upsert(info.additional_fields, name, value), ..info })
            }
                }
            },
        }
    }
}

pub open spec fn empty_info() -> SSAInfoView {
    SSAInfoView {
        title: None,
        original_script: None,
        original_translation: None,
        original_editing: None,
        original_timing: None,
        synch_point: None,
        script_update_by: None,
        update_details: None,
        script_type: None,
        collisions: None,
        play_res_y: None,
        play_res_x: None,
        play_depth: None,
        timer: None,
        wrap_style: None,
        additional_fields: seq![],
    }
}

/// The info that lines `a + 1 .. j` give (line `a` holds the section name).
pub open spec fn info_upto(ls: Seq<Seq<char>>, a: int, j: int) -> Result<SSAInfoView, int>
    decreases j - a,
{
    if j <= a + 1 {
        Ok(empty_info())
    } else {
        match info_upto(ls, a, j - 1) {
            Ok(info) => info_line(info, ls[j - 1], j),
            Err(e) => Err(e),
        }
    }
}

pub proof fn lemma_info_err_stays(ls: Seq<Seq<char>>, a: int, j: int, n: int)
    requires
        j <= n,
        info_upto(ls, a, j) is Err,
    ensures
        info_upto(ls, a, n) == info_upto(ls, a, j),
    decreases n - j,
{
    if j < n {
        lemma_info_err_stays(ls, a, j, n - 1);
    }
}

/// A `Style:` row under `headers` (the header is at line `hline`), found at line `ln`.
pub open spec fn style_row(headers: Seq<Seq<char>>, line: Seq<char>, hline: int, ln: int) -> Result<SSAStyleView, SSAFault> {
    if !starts_with(line, "Style:"@) {
        Err(SSAFault::Parse(ln))
    } else {
        let values = split(trim(line.skip(6)), ',');
        match fold_columns(headers, values, style_columns(), 23, hline, ln) {
            Ok(ts) => Ok(style_from(ts)),
            Err(f) => Err(f),
        }
    }
}

/// An event row `Kind: v1,v2,...` under `headers`; the last column keeps any commas.
pub open spec fn event_row(headers: Seq<Seq<char>>, line: Seq<char>, hline: int, ln: int) -> Result<SSAEventView, SSAFault> {
    match split_once(line, seq![':']) {
        None => Err(SSAFault::Parse(ln)),
        Some(p) => {
            let values = crate::text::splitn_from(trim(p.1), ',', 0, headers.len() as int);
            match fold_columns(headers, values, event_columns(), 10, hline, ln) {
                Ok(ts) => Ok(event_from(ts, p.0)),
                Err(f) => Err(f),
            }
        },
    }
}

/// The `Format:` line of a section in lines `[a, b)`: its index and its column names.
pub open spec fn section_header(ls: Seq<Seq<char>>, a: int, b: int) -> Result<(int, Seq<Seq<char>>), SSAFault> {
    let h = next_noncomment(ls, a + 1, b);
    if h >= b {
        Err(SSAFault::EmptyBlock(a + 2))
    } else if !starts_with(ls[h], "Format:"@) {
        Err(SSAFault::Parse(h + 1))
    } else {
        Ok((h, split(trim(ls[h].skip(7)), ',')))
    }
}

/// The styles of rows `h + 1 .. j`.
pub open spec fn style_rows_upto(ls: Seq<Seq<char>>, headers: Seq<Seq<char>>, h: int, j: int) -> Result<Seq<SSAStyleView>, SSAFault>
    decreases j - h,
{
    if j <= h + 1 {
        Ok(seq![])
    } else {
        match style_rows_upto(ls, headers, h, j - 1) {
            Err(f) => Err(f),
            Ok(v) => if is_comment(ls[j - 1]) {
                Ok(v)
            } else {
                match style_row(headers, ls[j - 1], h + 1, j) {
                    Ok(x) => Ok(v.push(x)),
                    Err(f) => Err(f),
                }
            },
        }
    }
}

pub proof fn lemma_style_rows_err_stays(ls: Seq<Seq<char>>, headers: Seq<Seq<char>>, h: int, j: int, n: int)
    requires
        j <= n,
        style_rows_upto(ls, headers, h, j) is Err,
    ensures
        style_rows_upto(ls, headers, h, n) == style_rows_upto(ls, headers, h, j),
    decreases n - j,
{
    if j < n {
        lemma_style_rows_err_stays(ls, headers, h, j, n - 1);
    }
}

/// The events of rows `h + 1 .. j`.
pub open spec fn event_rows_upto(ls: Seq<Seq<char>>, headers: Seq<Seq<char>>, h: int, j: int) -> Result<Seq<SSAEventView>, SSAFault>
    decreases j - h,
{
    if j <= h + 1 {
        Ok(seq![])
    } else {
        match event_rows_upto(ls, headers, h, j - 1) {
            Err(f) => Err(f),
            Ok(v) => if is_comment(ls[j - 1]) {
                Ok(v)
            } else {
                match event_row(headers, ls[j - 1], h + 1, j) {
                    Ok(x) => Ok(v.push(x)),
                    Err(f) => Err(f),
                }
            },
        }
    }
}

pub proof fn lemma_event_rows_err_stays(ls: Seq<Seq<char>>, headers: Seq<Seq<char>>, h: int, j: int, n: int)
    requires
        j <= n,
        event_rows_upto(ls, headers, h, j) is Err,
    ensures
        event_rows_upto(ls, headers, h, n) == event_rows_upto(ls, headers, h, j),
    decreases n - j,
{
    if j < n {
        lemma_event_rows_err_stays(ls, headers, h, j, n - 1);
    }
}

pub open spec fn styles_section(ls: Seq<Seq<char>>, a: int, b: int) -> Result<Seq<SSAStyleView>, SSAFault> {
    match section_header(ls, a, b) {
        Err(f) => Err(f),
        Ok(hd) => style_rows_upto(ls, hd.1, hd.0, b),
    }
}

pub open spec fn events_section(ls: Seq<Seq<char>>, a: int, b: int) -> Result<Seq<SSAEventView>, SSAFault> {
    match section_header(ls, a, b) {
        Err(f) => Err(f),
        Ok(hd) => event_rows_upto(ls, hd.1, hd.0, b),
    }
}

/// The entries of lines `a + 1 .. j`, each `prefix` then a name.
pub open spec fn list_upto(ls: Seq<Seq<char>>, a: int, j: int, prefix: Seq<char>) -> Result<Seq<Seq<char>>, int>
    decreases j - a,
{
    if j <= a + 1 {
        Ok(seq![])
    } else {
        match list_upto(ls, a, j - 1, prefix) {
            Err(e) => Err(e),
            Ok(v) => if starts_with(ls[j - 1], prefix) {
                Ok(v.push(trim(ls[j - 1].skip(prefix.len() as int))))
            } else {
                Err(j)
            },
        }
    }
}

pub proof fn lemma_list_err_stays(ls: Seq<Seq<char>>, a: int, j: int, n: int, prefix: Seq<char>)
    requires
        j <= n,
        list_upto(ls, a, j, prefix) is Err,
    ensures
        list_upto(ls, a, n, prefix) == list_upto(ls, a, j, prefix),
    decreases n - j,
{
    if j < n {
        lemma_list_err_stays(ls, a, j, n - 1, prefix);
    }
}

pub open spec fn strip_bom(s: Seq<char>) -> Seq<char> {
    s.filter(|c: char| c != '\u{feff}')
}

/// The end of the lines once trailing blank lines are dropped.
pub open spec fn filled_end(ls: Seq<Seq<char>>, j: int) -> int
    decreases j,
{
    if 0 < j <= ls.len() && is_blank(ls[j - 1]) {
        filled_end(ls, j - 1)
    } else {
        j
    }
}

/// The sections of lines `[i, end)`: runs of lines split at each blank line, so
/// that two blank lines in a row give an empty section.
pub open spec fn ssa_blocks_from(ls: Seq<Seq<char>>, i: int, end: int) -> Seq<(int, int)>
    decreases end - i,
{
    if i < 0 || i >= end {
        seq![]
    } else {
        let b = next_blank(ls, i);
        let b2 = if b > end || b < i { end } else { b };
        if b2 >= end {
            seq![(i, b2)]
        } else {
            seq![(i, b2)] + ssa_blocks_from(ls, b2 + 1, end)
        }
    }
}

/// Reads the section in lines `[a, b)` into `d`; sections of unknown name are skipped.
pub open spec fn section_step(ls: Seq<Seq<char>>, a: int, b: int, d: SSAView) -> Result<SSAView, SSAFault> {
    if a >= b {
        Err(SSAFault::EmptyBlock(a + 1))
    } else if ls[a] == "[V4+ Styles]"@ {
        match styles_section(ls, a, b) {
            Ok(x) => Ok(SSAView { styles: x, ..d }),
            Err(f) => Err(f),
        }
    } else if ls[a] == "[Events]"@ {
        match events_section(ls, a, b) {
            Ok(x) => Ok(SSAView { events: x, ..d }),
            Err(f) => Err(f),
        }
    } else if ls[a] == "[Fonts]"@ {
        match list_upto(ls, a, b, "fontname:"@) {
            Ok(x) => Ok(SSAView { fonts: x, ..d }),
            Err(l) => Err(SSAFault::Parse(l)),
        }
    } else if ls[a] == "[Graphics]"@ {
        match list_upto(ls, a, b, "filename:"@) {
            Ok(x) => Ok(SSAView { graphics: x, ..d }),
            Err(l) => Err(SSAFault::Parse(l)),
        }
    } else {
        Ok(d)
    }
}

/// The document once the sections `1..k` are read into `init`.
pub open spec fn sections_upto(ls: Seq<Seq<char>>, bs: Seq<(int, int)>, k: int, init: SSAView) -> Result<SSAView, SSAFault>
    decreases k,
{
    if k <= 1 {
        Ok(init)
    } else {
        match sections_upto(ls, bs, k - 1, init) {
            Err(f) => Err(f),
            Ok(d) => section_step(ls, bs[k - 1].0, bs[k - 1].1, d),
        }
    }
}

pub proof fn lemma_sections_err_stays(ls: Seq<Seq<char>>, bs: Seq<(int, int)>, j: int, n: int, init: SSAView)
    requires
        j <= n,
        sections_upto(ls, bs, j, init) is Err,
    ensures
        sections_upto(ls, bs, n, init) == sections_upto(ls, bs, j, init),
    decreases n - j,
{
    if j < n {
        lemma_sections_err_stays(ls, bs, j, n - 1, init);
    }
}

/// What parsing a styled-script text gives: the document, or where it fails.
/// A byte-order mark is dropped first; the first section must be `[Script Info]`;
/// sections of unknown name are skipped.
pub open spec fn ssa_parse_spec(s: Seq<char>) -> Result<SSAView, SSAFault> {
    let ls = lines(strip_bom(s));
    let bs = ssa_blocks_from(ls, next_filled(ls, 0), filled_end(ls, ls.len() as int));
    if bs.len() == 0 || ls[bs[0].0] != "[Script Info]"@ {
        Err(SSAFault::Invalid(1))
    } else {
        match info_upto(ls, bs[0].0, bs[0].1) {
            Err(l) => Err(SSAFault::Parse(l)),
            Ok(info) => sections_upto(
                ls,
                bs,
                bs.len() as int,
                SSAView { info, styles: seq![], events: seq![], fonts: seq![], graphics: seq![] },
            ),
        }
    }
}

fn parse_err(line: usize) -> (e: SSAError)
    ensures
        e.kind is Parse && e.line == line,
{
    SSAError { line, kind: SSAErrorKind::Parse(String::from_str("malformed value")) }
}

fn column_pos_exec(headers: &Vec<Vec<char>>, name: &[char]) -> (r: Option<usize>)
    ensures
        match r {
            Some(p) => p as int == column_pos(views(headers@), name@, 0) && p < headers@.len(),
            None => column_pos(views(headers@), name@, 0) < 0,
        },
{
    let ghost hv = views(headers@);
    let mut i: usize = 0;
    while i < headers.len()
        invariant
            hv == views(headers@),
            i <= headers@.len(),
            column_pos(hv, name@, i as int) == column_pos(hv, name@, 0),
        decreases headers.len() - i,
    {
        assert(hv[i as int] == headers@[i as int]@);
        let t = trim_exec(headers[i].as_slice());
        if eq_ignore_case_exec(t.as_slice(), name) {
            return Some(i);
        }
        i += 1;
    }
    None
}

/// The value under the header `name` in a row found at line `current_line`
/// (the header is at line `header_line`).
pub fn get_line_value(
    headers: &Vec<Vec<char>>,
    name: &[char],
    list: &Vec<Vec<char>>,
    header_line: usize,
    current_line: usize,
) -> (r: Result<Vec<char>, SSAError>)
    ensures
        match r {
            Ok(v) => lookup(views(headers@), views(list@), name@, header_line as int, current_line as int) == Ok::<Seq<char>, SSAFault>(v@),
            Err(e) => match lookup(views(headers@), views(list@), name@, header_line as int, current_line as int) {
                Err(f) => reports(e, f),
                Ok(_) => false,
            },
        },
{
    let p = match column_pos_exec(headers, name) {
        Some(p) => p,
        None => return Err(SSAError { line: header_line, kind: SSAErrorKind::MissingHeader(string_of(name)) }),
    };
    if p >= list.len() {
        return Err(parse_err(current_line));
    }
    let v = slice_of(list[p].as_slice(), 0, list[p].len());
    assert(v@ =~= views(list@)[p as int]);
    Ok(v)
}

/// `-1` is true and `0` is false; anything else is an error at `line`.
pub fn parse_str_to_bool(s: &[char], line: usize) -> (r: Result<bool, SSAError>)
    ensures
        s@ == "-1"@ ==> r == Ok::<bool, SSAError>(true),
        s@ == "0"@ ==> r == Ok::<bool, SSAError>(false),
        s@ != "-1"@ && s@ != "0"@ ==> (r matches Err(e) && e.kind is Parse && e.line == line),
{
    proof {
        reveal_strlit("0");
        reveal_strlit("-1");
        assert("0"@.len() != "-1"@.len());
    }
    if eq_chars(s, lit("-1").as_slice()) {
        Ok(true)
    } else if eq_chars(s, lit("0").as_slice()) {
        Ok(false)
    } else {
        Err(parse_err(line))
    }
}

fn converts_exec(kind: ColumnKind, t: &[char]) -> (r: bool)
    ensures
        r == converts(kind, t@),
{
    match kind {
        ColumnKind::Text => true,
        ColumnKind::Number => parse_decimal_chars(t).is_some(),
        ColumnKind::Colour => color_from_ssa_chars(t).is_ok(),
        ColumnKind::Flag => parse_str_to_bool(t, 0).is_ok(),
        ColumnKind::Byte => match parse_u32(t) {
            Some(n) => n <= 255,
            None => false,
        },
        ColumnKind::Align => alignment_chars(t).is_some(),
        ColumnKind::Int => parse_u32(t).is_some(),
        ColumnKind::Stamp => parse_time_chars(t, TimeFormat::Ass).is_some(),
    }
}

/// The checked texts of the columns of a row.
fn fold_columns_exec(
    headers: &Vec<Vec<char>>,
    values: &Vec<Vec<char>>,
    cols: &Vec<(Vec<char>, ColumnKind)>,
    hline: usize,
    ln: usize,
) -> (r: Result<Vec<Vec<char>>, SSAError>)
    ensures
        match r {
            Ok(ts) => fold_columns(views(headers@), views(values@), table_view(cols@), cols@.len() as int, hline as int, ln as int) == Ok::<Seq<Seq<char>>, SSAFault>(views(ts@)),
            Err(e) => match fold_columns(views(headers@), views(values@), table_view(cols@), cols@.len() as int, hline as int, ln as int) {
                Err(f) => reports(e, f),
                Ok(_) => false,
            },
        },
{
    let ghost hv = views(headers@);
    let ghost vv = views(values@);
    let ghost cv = table_view(cols@);
    let mut ts: Vec<Vec<char>> = Vec::new();
    let mut k: usize = 0;
    assert(views(ts@) =~= seq![]);
    while k < cols.len()
        invariant
            hv == views(headers@),
            vv == views(values@),
            cv == table_view(cols@),
            k <= cols@.len(),
            fold_columns(hv, vv, cv, k as int, hline as int, ln as int) == Ok::<Seq<Seq<char>>, SSAFault>(views(ts@)),
        decreases cols.len() - k,
    {
        assert(cv[k as int].0 == cols@[k as int].0@);
        assert(cv[k as int].1 == cols@[k as int].1);
        let name = &cols[k].0;
        let kind = cols[k].1;
        let t = match get_line_value(headers, name.as_slice(), values, hline, ln) {
            Ok(t) => t,
            Err(e) => {
                proof {
                    lemma_columns_err_stays(hv, vv, cv, k + 1, cv.len() as int, hline as int, ln as int);
                }
                return Err(e);
            },
        };
        if !converts_exec(kind, t.as_slice()) {
            proof {
                lemma_columns_err_stays(hv, vv, cv, k + 1, cv.len() as int, hline as int, ln as int);
            }
            return Err(parse_err(ln));
        }
        let ghost tv = t@;
        let ghost before = views(ts@);
        ts.push(t);
        assert(views(ts@) =~= before.push(tv));
        k += 1;
    }
    Ok(ts)
}

fn num_exec(t: &[char]) -> (r: Decimal)
    ensures
        r == num(t@),
{
    match parse_decimal_chars(t) {
        Some(d) => d,
        None => Decimal { negative: false, mantissa: 0, scale: 0 },
    }
}

fn colour_exec(t: &[char]) -> (r: Option<Color>)
    ensures
        r == colour(t@),
{
    match color_from_ssa_chars(t) {
        Ok(c) => Some(c),
        Err(_) => None,
    }
}

fn flag_exec(t: &[char]) -> (r: bool)
    ensures
        r == (t@ == "-1"@),
{
    eq_chars(t, lit("-1").as_slice())
}

fn byte_exec(t: &[char]) -> (r: u8)
    ensures
        r == byte(t@),
{
    match parse_u32(t) {
        Some(n) => n as u8,
        None => 0,
    }
}

fn int_exec(t: &[char]) -> (r: u32)
    ensures
        r == int_value(t@),
{
    match parse_u32(t) {
        Some(n) => n,
        None => 0,
    }
}

fn align_exec(t: &[char]) -> (r: Alignment)
    ensures
        r == align(t@),
{
    match alignment_chars(t) {
        Some(a) => a,
        None => Alignment::BottomCenter,
    }
}

fn stamp_exec(t: &[char]) -> (r: Time)
    ensures
        r == stamp(t@),
{
    match parse_time_chars(t, TimeFormat::Ass) {
        Some(x) => x,
        None => Time { ms: 0 },
    }
}

fn style_from_exec(ts: &Vec<Vec<char>>) -> (r: SSAStyle)
    requires
        ts@.len() == 23,
    ensures
        r@ == style_from(views(ts@)),
{
    let ghost tv = views(ts@);
    assert(forall|k: int| 0 <= k < 23 ==> tv[k] == #[trigger] ts@[k]@);
    SSAStyle {
        name: string_of(ts[0].as_slice()),
        fontname: string_of(ts[1].as_slice()),
        fontsize: num_exec(ts[2].as_slice()),
        primary_color: colour_exec(ts[3].as_slice()),
        secondary_color: colour_exec(ts[4].as_slice()),
        outline_color: colour_exec(ts[5].as_slice()),
        back_color: colour_exec(ts[6].as_slice()),
        bold: flag_exec(ts[7].as_slice()),
        italic: flag_exec(ts[8].as_slice()),
        underline: flag_exec(ts[9].as_slice()),
        strikeout: flag_exec(ts[10].as_slice()),
        scale_x: num_exec(ts[11].as_slice()),
        scale_y: num_exec(ts[12].as_slice()),
        spacing: num_exec(ts[13].as_slice()),
        angle: num_exec(ts[14].as_slice()),
        border_style: byte_exec(ts[15].as_slice()),
        outline: num_exec(ts[16].as_slice()),
        shadow: num_exec(ts[17].as_slice()),
        alignment: align_exec(ts[18].as_slice()),
        margin_l: num_exec(ts[19].as_slice()),
        margin_r: num_exec(ts[20].as_slice()),
        margin_v: num_exec(ts[21].as_slice()),
        encoding: num_exec(ts[22].as_slice()),
    }
}

fn line_type_exec(lt: &[char]) -> (r: SSAEventLineType)
    ensures
        r@ == line_type_of(lt@),
{
    if eq_chars(lt, lit("Dialogue").as_slice()) {
        SSAEventLineType::Dialogue
    } else if eq_chars(lt, lit("Comment").as_slice()) {
        SSAEventLineType::Comment
    } else {
        SSAEventLineType::Other(string_of(lt))
    }
}

fn event_from_exec(ts: &Vec<Vec<char>>, lt: &[char]) -> (r: SSAEvent)
    requires
        ts@.len() == 10,
    ensures
        r@ == event_from(views(ts@), lt@),
{
    let ghost tv = views(ts@);
    assert(forall|k: int| 0 <= k < 10 ==> tv[k] == #[trigger] ts@[k]@);
    SSAEvent {
        layer: int_exec(ts[0].as_slice()),
        start: stamp_exec(ts[1].as_slice()),
        end: stamp_exec(ts[2].as_slice()),
        style: string_of(ts[3].as_slice()),
        name: string_of(ts[4].as_slice()),
        margin_l: num_exec(ts[5].as_slice()),
        margin_r: num_exec(ts[6].as_slice()),
        margin_v: num_exec(ts[7].as_slice()),
        effect: string_of(ts[8].as_slice()),
        text: string_of(ts[9].as_slice()),
        line_type: line_type_exec(lt),
    }
}

proof fn lemma_fold_len(headers: Seq<Seq<char>>, values: Seq<Seq<char>>, cols: Seq<(Seq<char>, ColumnKind)>, n: int, hline: int, ln: int)
    requires
        0 <= n,
        fold_columns(headers, values, cols, n, hline, ln) is Ok,
    ensures
        fold_columns(headers, values, cols, n, hline, ln)->Ok_0.len() == n,
    decreases n,
{
    if n > 0 {
        lemma_fold_len(headers, values, cols, n - 1, hline, ln);
    }
}

fn style_row_exec(headers: &Vec<Vec<char>>, line: &Vec<char>, hline: usize, ln: usize) -> (r: Result<SSAStyle, SSAError>)
    ensures
        match r {
            Ok(x) => style_row(views(headers@), line@, hline as int, ln as int) == Ok::<SSAStyleView, SSAFault>(x@),
            Err(e) => match style_row(views(headers@), line@, hline as int, ln as int) {
                Err(f) => reports(e, f),
                Ok(_) => false,
            },
        },
{
    if !starts_with_exec(line.as_slice(), lit("Style:").as_slice()) {
        return Err(parse_err(ln));
    }
    proof {
        reveal_strlit("Style:");
    }
    let rest = slice_of(line.as_slice(), 6, line.len());
    assert(rest@ =~= line@.skip(6));
    let values = split_exec(trim_exec(rest.as_slice()).as_slice(), ',');
    let cols = style_columns_exec();
    proof {
        assert(table_view(cols@).len() == 23);
    }
    match fold_columns_exec(headers, &values, &cols, hline, ln) {
        Ok(ts) => {
            proof {
                lemma_fold_len(views(headers@), views(values@), style_columns(), 23, hline as int, ln as int);
            }
            Ok(style_from_exec(&ts))
        },
        Err(e) => Err(e),
    }
}

fn event_row_exec(headers: &Vec<Vec<char>>, line: &Vec<char>, hline: usize, ln: usize) -> (r: Result<SSAEvent, SSAError>)
    ensures
        match r {
            Ok(x) => event_row(views(headers@), line@, hline as int, ln as int) == Ok::<SSAEventView, SSAFault>(x@),
            Err(e) => match event_row(views(headers@), line@, hline as int, ln as int) {
                Err(f) => reports(e, f),
                Ok(_) => false,
            },
        },
{
    let colon = vec![':'];
    assert(colon@ =~= seq![':']);
    let (lt, rest) = match split_once_exec(line.as_slice(), colon.as_slice()) {
        Some(p) => p,
        None => return Err(parse_err(ln)),
    };
    let values = crate::text::splitn_exec(trim_exec(rest.as_slice()).as_slice(), headers.len(), ',');
    let cols = event_columns_exec();
    proof {
        assert(table_view(cols@).len() == 10);
    }
    match fold_columns_exec(headers, &values, &cols, hline, ln) {
        Ok(ts) => {
            proof {
                lemma_fold_len(views(headers@), views(values@), event_columns(), 10, hline as int, ln as int);
            }
            Ok(event_from_exec(&ts, lt.as_slice()))
        },
        Err(e) => Err(e),
    }
}

fn is_comment_exec(line: &Vec<char>) -> (r: bool)
    ensures
        r == is_comment(line@),
{
    line.len() > 0 && line[0] == ';'
}

/// The `Format:` line of a section in lines `[a, b)`.
fn section_header_exec(ls: &Vec<Vec<char>>, a: usize, b: usize) -> (r: Result<(usize, Vec<Vec<char>>), SSAError>)
    requires
        a < b <= ls@.len(),
        ls@.len() < usize::MAX,
    ensures
        match r {
            Ok(x) => section_header(views(ls@), a as int, b as int) == Ok::<(int, Seq<Seq<char>>), SSAFault>((x.0 as int, views(x.1@))) && x.0 < b,
            Err(e) => match section_header(views(ls@), a as int, b as int) {
                Err(f) => reports(e, f),
                Ok(_) => false,
            },
        },
{
    let ghost v = views(ls@);
    let mut h = a + 1;
    while h < b && is_comment_exec(&ls[h])
        invariant
            a < h <= b <= ls@.len(),
            v == views(ls@),
            next_noncomment(v, h as int, b as int) == next_noncomment(v, a + 1, b as int),
        decreases b - h,
    {
        assert(v[h as int] == ls@[h as int]@);
        h += 1;
    }
    if h < b {
        assert(v[h as int] == ls@[h as int]@);
    }
    if h >= b {
        return Err(SSAError { line: a + 2, kind: SSAErrorKind::EmptyBlock });
    }
    if !starts_with_exec(ls[h].as_slice(), lit("Format:").as_slice()) {
        return Err(parse_err(h + 1));
    }
    proof {
        reveal_strlit("Format:");
    }
    let rest = slice_of(ls[h].as_slice(), 7, ls[h].len());
    assert(rest@ =~= v[h as int].skip(7));
    let headers = split_exec(trim_exec(rest.as_slice()).as_slice(), ',');
    Ok((h, headers))
}

#[verifier::rlimit(60)]
pub fn parse_style_block(ls: &Vec<Vec<char>>, a: usize, b: usize) -> (r: Result<Vec<SSAStyle>, SSAError>)
    requires
        a < b <= ls@.len(),
        ls@.len() < usize::MAX,
    ensures
        match r {
            Ok(x) => styles_section(views(ls@), a as int, b as int) == Ok::<Seq<SSAStyleView>, SSAFault>(x@.map_values(|y: SSAStyle| y@)),
            Err(e) => match styles_section(views(ls@), a as int, b as int) {
                Err(f) => reports(e, f),
                Ok(_) => false,
            },
        },
{
    let ghost v = views(ls@);
    let (h, headers) = match section_header_exec(ls, a, b) {
        Ok(x) => x,
        Err(e) => return Err(e),
    };
    let ghost hv = views(headers@);
    assert(styles_section(v, a as int, b as int) == style_rows_upto(v, hv, h as int, b as int));
    let mut out: Vec<SSAStyle> = Vec::new();
    assert(out@.map_values(|y: SSAStyle| y@) =~= seq![]);
    let mut j = h + 1;
    while j < b
        invariant
            styles_section(v, a as int, b as int) == style_rows_upto(v, hv, h as int, b as int),
            h < j <= b <= ls@.len(),
            ls@.len() < usize::MAX,
            v == views(ls@),
            hv == views(headers@),
            style_rows_upto(v, hv, h as int, j as int) == Ok::<Seq<SSAStyleView>, SSAFault>(out@.map_values(|y: SSAStyle| y@)),
        decreases b - j,
    {
        assert(v[j as int] == ls@[j as int]@);
        if !is_comment_exec(&ls[j]) {
            match style_row_exec(&headers, &ls[j], h + 1, j + 1) {
                Ok(x) => {
                    let ghost before = out@.map_values(|y: SSAStyle| y@);
                    out.push(x);
                    assert(out@.map_values(|y: SSAStyle| y@) =~= before.push(x@));
                },
                Err(e) => {
                    proof {
                        lemma_style_rows_err_stays(v, hv, h as int, j + 1, b as int);
                    }
                    return Err(e);
                },
            }
        }
        j += 1;
    }
    Ok(out)
}

#[verifier::rlimit(60)]
pub fn parse_events_block(ls: &Vec<Vec<char>>, a: usize, b: usize) -> (r: Result<Vec<SSAEvent>, SSAError>)
    requires
        a < b <= ls@.len(),
        ls@.len() < usize::MAX,
    ensures
        match r {
            Ok(x) => events_section(views(ls@), a as int, b as int) == Ok::<Seq<SSAEventView>, SSAFault>(x@.map_values(|y: SSAEvent| y@)),
            Err(e) => match events_section(views(ls@), a as int, b as int) {
                Err(f) => reports(e, f),
                Ok(_) => false,
            },
        },
{
    let ghost v = views(ls@);
    let (h, headers) = match section_header_exec(ls, a, b) {
        Ok(x) => x,
        Err(e) => return Err(e),
    };
    let ghost hv = views(headers@);
    assert(events_section(v, a as int, b as int) == event_rows_upto(v, hv, h as int, b as int));
    let mut out: Vec<SSAEvent> = Vec::new();
    assert(out@.map_values(|y: SSAEvent| y@) =~= seq![]);
    let mut j = h + 1;
    while j < b
        invariant
            events_section(v, a as int, b as int) == event_rows_upto(v, hv, h as int, b as int),
            h < j <= b <= ls@.len(),
            ls@.len() < usize::MAX,
            v == views(ls@),
            hv == views(headers@),
            event_rows_upto(v, hv, h as int, j as int) == Ok::<Seq<SSAEventView>, SSAFault>(out@.map_values(|y: SSAEvent| y@)),
        decreases b - j,
    {
        assert(v[j as int] == ls@[j as int]@);
        if !is_comment_exec(&ls[j]) {
            match event_row_exec(&headers, &ls[j], h + 1, j + 1) {
                Ok(x) => {
                    let ghost before = out@.map_values(|y: SSAEvent| y@);
                    out.push(x);
                    assert(out@.map_values(|y: SSAEvent| y@) =~= before.push(x@));
                },
                Err(e) => {
                    proof {
                        lemma_event_rows_err_stays(v, hv, h as int, j + 1, b as int);
                    }
                    return Err(e);
                },
            }
        }
        j += 1;
    }
    Ok(out)
}

/// The font names of a `[Fonts]` section in lines `[a, b)`: `fontname:` lines.
pub fn parse_fonts_block(ls: &Vec<Vec<char>>, a: usize, b: usize) -> (r: Result<Vec<String>, usize>)
    requires
        a < b <= ls@.len(),
        ls@.len() < usize::MAX,
    ensures
        match r {
            Ok(x) => list_upto(views(ls@), a as int, b as int, "fontname:"@) == Ok::<Seq<Seq<char>>, int>(x@.map_values(|y: String| y@)),
            Err(e) => list_upto(views(ls@), a as int, b as int, "fontname:"@) == Err::<Seq<Seq<char>>, int>(e as int),
        },
{
    parse_list_block(ls, a, b, lit("fontname:").as_slice())
}

/// The file names of a `[Graphics]` section in lines `[a, b)`: `filename:` lines.
pub fn parse_graphics_block(ls: &Vec<Vec<char>>, a: usize, b: usize) -> (r: Result<Vec<String>, usize>)
    requires
        a < b <= ls@.len(),
        ls@.len() < usize::MAX,
    ensures
        match r {
            Ok(x) => list_upto(views(ls@), a as int, b as int, "filename:"@) == Ok::<Seq<Seq<char>>, int>(x@.map_values(|y: String| y@)),
            Err(e) => list_upto(views(ls@), a as int, b as int, "filename:"@) == Err::<Seq<Seq<char>>, int>(e as int),
        },
{
    parse_list_block(ls, a, b, lit("filename:").as_slice())
}

pub fn parse_list_block(ls: &Vec<Vec<char>>, a: usize, b: usize, prefix: &[char]) -> (r: Result<Vec<String>, usize>)
    requires
        a < b <= ls@.len(),
        ls@.len() < usize::MAX,
    ensures
        match r {
            Ok(x) => list_upto(views(ls@), a as int, b as int, prefix@) == Ok::<Seq<Seq<char>>, int>(x@.map_values(|y: String| y@)),
            Err(e) => list_upto(views(ls@), a as int, b as int, prefix@) == Err::<Seq<Seq<char>>, int>(e as int),
        },
{
    let ghost v = views(ls@);
    let mut out: Vec<String> = Vec::new();
    assert(out@.map_values(|y: String| y@) =~= seq![]);
    let mut j = a + 1;
    while j < b
        invariant
            a < j <= b <= ls@.len(),
            ls@.len() < usize::MAX,
            v == views(ls@),
            list_upto(v, a as int, j as int, prefix@) == Ok::<Seq<Seq<char>>, int>(out@.map_values(|y: String| y@)),
        decreases b - j,
    {
        assert(v[j as int] == ls@[j as int]@);
        if !starts_with_exec(ls[j].as_slice(), prefix) {
            proof {
                lemma_list_err_stays(v, a as int, j + 1, b as int, prefix@);
            }
            return Err(j + 1);
        }
        let rest = slice_of(ls[j].as_slice(), prefix.len(), ls[j].len());
        assert(rest@ =~= v[j as int].skip(prefix.len() as int));
        let item = string_of(trim_exec(rest.as_slice()).as_slice());
        let ghost before = out@.map_values(|y: String| y@);
        out.push(item);
        assert(out@.map_values(|y: String| y@) =~= before.push(item@));
        j += 1;
    }
    Ok(out)
}

fn upsert_field(m: &mut Vec<(String, String)>, k: String, v: String)
    ensures
        final(m)@.map_values(|e: (String, String)| (e.0@, e.1@)) == upsert(old(m)@.map_values(|e: (String, String)| (e.0@, e.1@)), k@, v@),
{
    let ghost mv = m@.map_values(|e: (String, String)| (e.0@, e.1@));
    let ghost vv = v@;
    let mut i: usize = 0;
    let mut found = false;
    while i < m.len()
        invariant_except_break
            !found,
        invariant
            mv == m@.map_values(|e: (String, String)| (e.0@, e.1@)),
            i <= m@.len(),
            key_pos(mv, k@, i as int) == key_pos(mv, k@, 0),
        ensures
            found ==> i < m@.len() && key_pos(mv, k@, 0) == i,
            !found ==> key_pos(mv, k@, 0) < 0,
        decreases m.len() - i,
    {
        assert(mv[i as int].0 == m@[i as int].0@);
        if m[i].0 == k {
            assert(key_pos(mv, k@, i as int) == i as int);
            found = true;
            break;
        }
        i += 1;
    }
    if found {
        m.set(i, (k, v));
        assert(m@.map_values(|e: (String, String)| (e.0@, e.1@)) =~= mv.update(i as int, (k@, vv)));
    } else {
        m.push((k, v));
        assert(m@.map_values(|e: (String, String)| (e.0@, e.1@)) =~= mv.push((k@, vv)));
    }
}

#[verifier::rlimit(80)]
fn info_line_exec(info: &mut SSAInfo, line: &Vec<char>, ln: usize) -> (r: Result<(), usize>)
    ensures
        match r {
            Ok(_) => info_line(old(info)@, line@, ln as int) == Ok::<SSAInfoView, int>(final(info)@),
            Err(e) => info_line(old(info)@, line@, ln as int) == Err::<SSAInfoView, int>(e as int),
        },
{
    if is_comment_exec(line) {
        return Ok(());
    }
    let colon = vec![':'];
    assert(colon@ =~= seq![':']);
    let (name, raw) = match split_once_exec(line.as_slice(), colon.as_slice()) {
        Some(p) => p,
        None => return Err(ln),
    };
    let value = trim_exec(raw.as_slice());
    if value.len() == 0 {
        return Ok(());
    }
    if eq_chars(name.as_slice(), lit("Title").as_slice()) {
        info.title = Some(string_of(value.as_slice()));
    } else if eq_chars(name.as_slice(), lit("Original Script").as_slice()) {
        info.original_script = Some(string_of(value.as_slice()));
    } else if eq_chars(name.as_slice(), lit("Original Translation").as_slice()) {
        info.original_translation = Some(string_of(value.as_slice()));
    } else if eq_chars(name.as_slice(), lit("Original Editing").as_slice()) {
        info.original_editing = Some(string_of(value.as_slice()));
    } else if eq_chars(name.as_slice(), lit("Original Timing").as_slice()) {
        info.original_timing = Some(string_of(value.as_slice()));
    } else if eq_chars(name.as_slice(), lit("Synch Point").as_slice()) {
        info.synch_point = Some(string_of(value.as_slice()));
    } else if eq_chars(name.as_slice(), lit("Script Updated By").as_slice()) {
        info.script_update_by = Some(string_of(value.as_slice()));
    } else if eq_chars(name.as_slice(), lit("Update Details").as_slice()) {
        info.update_details = Some(string_of(value.as_slice()));
    } else if eq_chars(name.as_slice(), lit("ScriptType").as_slice()) {
        info.script_type = Some(string_of(value.as_slice()));
    } else if eq_chars(name.as_slice(), lit("Collisions").as_slice()) {
        info.collisions = Some(string_of(value.as_slice()));
    } else if eq_chars(name.as_slice(), lit("PlayResY").as_slice()) {
        match parse_u32(value.as_slice()) {
            Some(n) => info.play_res_y = Some(n),
            None => return Err(ln),
        }
    } else if eq_chars(name.as_slice(), lit("PlayResX").as_slice()) {
        match parse_u32(value.as_slice()) {
            Some(n) => info.play_res_x = Some(n),
            None => return Err(ln),
        }
    } else if eq_chars(name.as_slice(), lit("PlayDepth").as_slice()) {
        match parse_u32(value.as_slice()) {
            Some(n) => info.play_depth = Some(n),
            None => return Err(ln),
        }
    } else if eq_chars(name.as_slice(), lit("Timer").as_slice()) {
        match parse_decimal_chars(value.as_slice()) {
            Some(d) => info.timer = Some(d),
            None => return Err(ln),
        }
    } else if eq_chars(name.as_slice(), lit("WrapStyle").as_slice()) {
        match parse_u32(value.as_slice()) {
            Some(n) => {
                if n <= 255 {
                    info.wrap_style = Some(n as u8);
                } else {
                    return Err(ln);
                }
            },
            None => return Err(ln),
        }
    } else {
        upsert_field(&mut info.additional_fields, string_of(name.as_slice()), string_of(value.as_slice()));
    }
    Ok(())
}

pub fn parse_script_info_block(ls: &Vec<Vec<char>>, a: usize, b: usize) -> (r: Result<SSAInfo, usize>)
    requires
        a < b <= ls@.len(),
        ls@.len() < usize::MAX,
    ensures
        match r {
            Ok(x) => info_upto(views(ls@), a as int, b as int) == Ok::<SSAInfoView, int>(x@),
            Err(e) => info_upto(views(ls@), a as int, b as int) == Err::<SSAInfoView, int>(e as int),
        },
{
    let ghost v = views(ls@);
    let mut info = SSAInfo {
        title: None,
        original_script: None,
        original_translation: None,
        original_editing: None,
        original_timing: None,
        synch_point: None,
        script_update_by: None,
        update_details: None,
        script_type: None,
        collisions: None,
        play_res_y: None,
        play_res_x: None,
        play_depth: None,
        timer: None,
        wrap_style: None,
        additional_fields: Vec::new(),
    };
    assert(info@.additional_fields =~= seq![]);
    let mut j = a + 1;
    while j < b
        invariant
            a < j <= b <= ls@.len(),
            ls@.len() < usize::MAX,
            v == views(ls@),
            info_upto(v, a as int, j as int) == Ok::<SSAInfoView, int>(info@),
        decreases b - j,
    {
        assert(v[j as int] == ls@[j as int]@);
        match info_line_exec(&mut info, &ls[j], j + 1) {
            Ok(_) => {},
            Err(e) => {
                proof {
                    lemma_info_err_stays(v, a as int, j + 1, b as int);
                }
                return Err(e);
            },
        }
        j += 1;
    }
    Ok(info)
}

fn strip_bom_exec(s: &Vec<char>) -> (r: Vec<char>)
    ensures
        r@ == strip_bom(s@),
        r@.len() <= s@.len(),
{
    let mut out: Vec<char> = Vec::new();
    let mut i: usize = 0;
    proof {
        reveal(Seq::filter);
    }
    while i < s.len()
        invariant
            i <= s@.len(),
            out@ == s@.take(i as int).filter(|c: char| c != '\u{feff}'),
            out@.len() <= i,
        decreases s.len() - i,
    {
        proof {
            reveal(Seq::filter);
            assert(s@.take(i + 1).drop_last() =~= s@.take(i as int));
        }
        if s[i] != '\u{feff}' {
            out.push(s[i]);
        }
        i += 1;
    }
    assert(s@.take(s@.len() as int) =~= s@);
    out
}

proof fn lemma_filled_end_bounds(ls: Seq<Seq<char>>, j: int)
    requires
        0 <= j <= ls.len(),
    ensures
        0 <= filled_end(ls, j) <= j,
    decreases j,
{
    if 0 < j && is_blank(ls[j - 1]) {
        lemma_filled_end_bounds(ls, j - 1);
    }
}

/// The sections of lines `[st, en)`.
fn ssa_blocks_exec(ls: &Vec<Vec<char>>, st: usize, en: usize) -> (r: Vec<(usize, usize)>)
    requires
        st <= en <= ls@.len(),
        ls@.len() < usize::MAX,
    ensures
        r@.len() == ssa_blocks_from(views(ls@), st as int, en as int).len(),
        forall|k: int|
            0 <= k < r@.len() ==> (#[trigger] r@[k]).0 as int == ssa_blocks_from(views(ls@), st as int, en as int)[k].0
                && r@[k].1 as int == ssa_blocks_from(views(ls@), st as int, en as int)[k].1,
        forall|k: int| 0 <= k < r@.len() ==> (#[trigger] r@[k]).0 <= r@[k].1 <= en && r@[k].0 < en,
{
    let ghost v = views(ls@);
    let mut r: Vec<(usize, usize)> = Vec::new();
    let ghost acc: Seq<(int, int)> = seq![];
    let mut i = st;
    while i < en
        invariant
            v == views(ls@),
            st <= i,
            en <= ls@.len(),
            ls@.len() < usize::MAX,
            acc + ssa_blocks_from(v, i as int, en as int) == ssa_blocks_from(v, st as int, en as int),
            r@.len() == acc.len(),
            forall|k: int| 0 <= k < r@.len() ==> (#[trigger] r@[k]).0 as int == acc[k].0 && r@[k].1 as int == acc[k].1,
            forall|k: int| 0 <= k < r@.len() ==> (#[trigger] r@[k]).0 <= r@[k].1 <= en && r@[k].0 < en,
        decreases en - i,
    {
        let mut b = i;
        while b < ls.len() && !is_blank_exec(ls[b].as_slice())
            invariant
                v == views(ls@),
                i <= b <= ls@.len(),
                next_blank(v, b as int) == next_blank(v, i as int),
            decreases ls@.len() - b,
        {
            assert(v[b as int] == ls@[b as int]@);
            b += 1;
        }
        if b < ls.len() {
            assert(v[b as int] == ls@[b as int]@);
        }
        let b2 = if b > en { en } else { b };
        r.push((i, b2));
        proof {
            acc = acc.push((i as int, b2 as int));
        }
        if b2 >= en {
            assert(ssa_blocks_from(v, i as int, en as int) == seq![(i as int, b2 as int)]);
            assert(acc =~= ssa_blocks_from(v, st as int, en as int));
            return r;
        }
        assert(ssa_blocks_from(v, i as int, en as int) == seq![(i as int, b2 as int)] + ssa_blocks_from(v, b2 + 1, en as int));
        assert(acc + ssa_blocks_from(v, b2 + 1, en as int) =~= ssa_blocks_from(v, st as int, en as int));
        i = b2 + 1;
    }
    assert(acc =~= ssa_blocks_from(v, st as int, en as int));
    r
}

#[verifier::rlimit(40)]
fn read_section(ls: &Vec<Vec<char>>, a: usize, b: usize, doc: SSA) -> (r: Result<SSA, SSAError>)
    requires
        a <= b <= ls@.len(),
        a < ls@.len(),
        ls@.len() < usize::MAX,
    ensures
        match r {
            Ok(d) => section_step(views(ls@), a as int, b as int, doc@) == Ok::<SSAView, SSAFault>(d@),
            Err(e) => match section_step(views(ls@), a as int, b as int, doc@) {
                Err(f) => reports(e, f),
                Ok(_) => false,
            },
        },
{
    let ghost v = views(ls@);
    let mut doc = doc;
    if a >= b {
        return Err(SSAError { line: a + 1, kind: SSAErrorKind::EmptyBlock });
    }
    assert(v[a as int] == ls@[a as int]@);
    if eq_chars(ls[a].as_slice(), lit("[V4+ Styles]").as_slice()) {
        match parse_style_block(ls, a, b) {
            Ok(x) => {
                doc.styles = x;
            },
            Err(e) => return Err(e),
        }
    } else if eq_chars(ls[a].as_slice(), lit("[Events]").as_slice()) {
        match parse_events_block(ls, a, b) {
            Ok(x) => {
                doc.events = x;
            },
            Err(e) => return Err(e),
        }
    } else if eq_chars(ls[a].as_slice(), lit("[Fonts]").as_slice()) {
        match parse_fonts_block(ls, a, b) {
            Ok(x) => {
                doc.fonts = x;
            },
            Err(l) => return Err(parse_err(l)),
        }
    } else if eq_chars(ls[a].as_slice(), lit("[Graphics]").as_slice()) {
        match parse_graphics_block(ls, a, b) {
            Ok(x) => {
                doc.graphics = x;
            },
            Err(l) => return Err(parse_err(l)),
        }
    }
    Ok(doc)
}

proof fn lemma_next_filled_not_blank(ls: Seq<Seq<char>>, i: int)
    requires
        0 <= i <= ls.len(),
    ensures
        next_filled(ls, i) < ls.len() ==> !is_blank(ls[next_filled(ls, i)]),
        i <= next_filled(ls, i) <= ls.len(),
    decreases ls.len() - i,
{
    if i < ls.len() && is_blank(ls[i]) {
        lemma_next_filled_not_blank(ls, i + 1);
    }
}

impl SSA {
    /// Parses a styled-script text.
    #[verifier::rlimit(80)]
    pub fn parse(content: &str) -> (r: Result<SSA, SSAError>)
        requires
            content@.len() < usize::MAX,
        ensures
            match r {
                Ok(d) => ssa_parse_spec(content@) == Ok::<SSAView, SSAFault>(d@),
                Err(e) => match ssa_parse_spec(content@) {
                    Err(f) => reports(e, f),
                    Ok(_) => false,
                },
            },
    {
        let raw = chars_of(content);
        let cs = strip_bom_exec(&raw);
        let ls = lines_exec(cs.as_slice());
        proof {
            lemma_lines_len(cs@, 0);
        }
        let ghost v = views(ls@);
        let mut st: usize = 0;
        while st < ls.len() && is_blank_exec(ls[st].as_slice())
            invariant
                v == views(ls@),
                st <= ls@.len(),
                next_filled(v, st as int) == next_filled(v, 0),
            decreases ls@.len() - st,
        {
            assert(v[st as int] == ls@[st as int]@);
            st += 1;
        }
        if st < ls.len() {
            assert(v[st as int] == ls@[st as int]@);
        }
        let mut en: usize = ls.len();
        while en > 0 && is_blank_exec(ls[en - 1].as_slice())
            invariant
                v == views(ls@),
                en <= ls@.len(),
                filled_end(v, en as int) == filled_end(v, ls@.len() as int),
            decreases en,
        {
            assert(v[en - 1] == ls@[en - 1]@);
            en -= 1;
        }
        if en > 0 {
            assert(v[en - 1] == ls@[en - 1]@);
        }
        if st > en {
            st = en;
            // only blank lines: no sections
            assert(ssa_blocks_from(v, next_filled(v, 0), filled_end(v, v.len() as int)).len() == 0);
        }
        let bs = ssa_blocks_exec(&ls, st, en);
        let ghost bv = ssa_blocks_from(v, next_filled(v, 0), filled_end(v, v.len() as int));
        assert(bs@.len() == bv.len());
        if bs.len() == 0 {
            return Err(SSAError { line: 1, kind: SSAErrorKind::Invalid });
        }
        let (a0, b0) = bs[0];
        assert(v[a0 as int] == ls@[a0 as int]@);
        if !eq_chars(ls[a0].as_slice(), lit("[Script Info]").as_slice()) {
            return Err(SSAError { line: 1, kind: SSAErrorKind::Invalid });
        }
        proof {
            let f = next_filled(v, 0);
            let e = filled_end(v, v.len() as int);
            assert(bv[0].0 == f);
            lemma_next_filled_not_blank(v, 0);
            crate::text::lemma_next_blank_bounds(v, f + 1);
            assert(next_blank(v, f) == next_blank(v, f + 1));
        }
        assert(a0 < b0);
        let info = match parse_script_info_block(&ls, a0, b0) {
            Ok(x) => x,
            Err(l) => return Err(parse_err(l)),
        };
        let mut doc = SSA { info, styles: Vec::new(), events: Vec::new(), fonts: Vec::new(), graphics: Vec::new() };
        let ghost init = doc@;
        assert(init.styles =~= seq![] && init.events =~= seq![] && init.fonts =~= seq![] && init.graphics =~= seq![]);
        let mut k: usize = 1;
        while k < bs.len()
            invariant
                v == views(ls@),
                ls@.len() < usize::MAX,
                bs@.len() == bv.len(),
                en <= ls@.len(),
                forall|j: int| 0 <= j < bs@.len() ==> (#[trigger] bs@[j]).0 as int == bv[j].0 && bs@[j].1 as int == bv[j].1,
                forall|j: int| 0 <= j < bs@.len() ==> (#[trigger] bs@[j]).0 <= bs@[j].1 <= en && bs@[j].0 < en,
                1 <= k <= bs@.len(),
                ssa_parse_spec(content@) == sections_upto(v, bv, bv.len() as int, init),
                sections_upto(v, bv, k as int, init) == Ok::<SSAView, SSAFault>(doc@),
            decreases bs.len() - k,
        {
            let (a, b) = bs[k];
            match read_section(&ls, a, b, doc) {
                Ok(d) => {
                    doc = d;
                },
                Err(e) => {
                    proof {
                        lemma_sections_err_stays(v, bv, k + 1, bv.len() as int, init);
                    }
                    return Err(e);
                },
            }
            k += 1;
        }
        Ok(doc)
    }
}

pub open spec fn style_format_line() -> Seq<char> {
    "Format: Name,Fontname,Fontsize,PrimaryColour,SecondaryColour,OutlineColour,BackColour,Bold,Italic,Underline,StrikeOut,ScaleX,ScaleY,Spacing,Angle,BorderStyle,Outline,Shadow,Alignment,MarginL,MarginR,MarginV,Encoding"@
}

pub open spec fn event_format_line() -> Seq<char> {
    "Format: Layer,Start,End,Style,Name,MarginL,MarginR,MarginV,Effect,Text"@
}

pub open spec fn field_line(key: Seq<char>, value: Seq<char>) -> Seq<char> {
    key + seq![':', ' '] + value
}

pub open spec fn opt_line(key: Seq<char>, o: Option<Seq<char>>) -> Seq<Seq<char>> {
    match o {
        Some(v) => seq![field_line(key, v)],
        None => seq![],
    }
}

pub open spec fn opt_num_line(key: Seq<char>, o: Option<u32>) -> Seq<Seq<char>> {
    match o {
        Some(n) => seq![field_line(key, decimal(n as nat))],
        None => seq![],
    }
}

pub open spec fn opt_dec_line(key: Seq<char>, o: Option<Decimal>) -> Seq<Seq<char>> {
    match o {
        Some(d) => seq![field_line(key, d.spec_text())],
        None => seq![],
    }
}

/// The lines of the script info: the recognized fields that are set, in a fixed
/// order, then the other fields.
pub open spec fn info_lines(x: SSAInfoView) -> Seq<Seq<char>> {
    opt_line("Title"@, x.title) + opt_line("Original Script"@, x.original_script) + opt_line("Original Translation"@, x.original_translation) + opt_line("Original Editing"@, x.original_editing) + opt_line("Original Timing"@, x.original_timing) + opt_line("Synch Point"@, x.synch_point) + opt_line("Script Updated By"@, x.script_update_by) + opt_line("Update Details"@, x.update_details) + opt_line("ScriptType"@, x.script_type) + opt_line("Collisions"@, x.collisions) + opt_num_line("PlayResY"@, x.play_res_y) + opt_num_line("PlayResX"@, x.play_res_x) + opt_num_line("PlayDepth"@, x.play_depth) + opt_dec_line("Timer"@, x.timer) + opt_num_line("WrapStyle"@, match x.wrap_style { Some(w) => Some(w as u32), None => None }) + x.additional_fields.map_values(|e: (Seq<char>, Seq<char>)| field_line(e.0, e.1))
}

pub open spec fn colour_text(c: Option<Color>) -> Seq<char> {
    match c {
        Some(c) => c.spec_ssa_string(),
        None => seq![],
    }
}

pub open spec fn flag_text(b: bool) -> Seq<char> {
    if b {
        "-1"@
    } else {
        "0"@
    }
}

/// A style row: `Style: ` and its columns in the order of the fixed header.
pub open spec fn style_line(x: SSAStyleView) -> Seq<char> {
    "Style: "@ + join(seq![
            x.name,
            x.fontname,
            x.fontsize.spec_text(),
            colour_text(x.primary_color),
            colour_text(x.secondary_color),
            colour_text(x.outline_color),
            colour_text(x.back_color),
            flag_text(x.bold),
            flag_text(x.italic),
            flag_text(x.underline),
            flag_text(x.strikeout),
            x.scale_x.spec_text(),
            x.scale_y.spec_text(),
            x.spacing.spec_text(),
            x.angle.spec_text(),
            decimal(x.border_style as nat),
            x.outline.spec_text(),
            x.shadow.spec_text(),
            decimal(x.alignment.spec_number()),
            x.margin_l.spec_text(),
            x.margin_r.spec_text(),
            x.margin_v.spec_text(),
            x.encoding.spec_text(),
        ], seq![','])
}

pub open spec fn line_type_text(t: LineTypeView) -> Seq<char> {
    match t {
        LineTypeView::Dialogue => "Dialogue"@,
        LineTypeView::Comment => "Comment"@,
        LineTypeView::Other(s) => s,
    }
}

/// An event row: its kind, `: `, and its columns in the order of the fixed header.
pub open spec fn event_line(x: SSAEventView) -> Seq<char> {
    line_type_text(x.line_type) + seq![':', ' '] + join(seq![
            decimal(x.layer as nat),
            x.start.spec_format(TimeFormat::Ass),
            x.end.spec_format(TimeFormat::Ass),
            x.style,
            x.name,
            x.margin_l.spec_text(),
            x.margin_r.spec_text(),
            x.margin_v.spec_text(),
            x.effect,
            x.text,
        ], seq![','])
}

/// The text of a document: the script info, the styles and the events, each a
/// section under its fixed header. Fonts and graphics are not written.
pub open spec fn ssa_text(d: SSAView) -> Seq<char> {
    join(
        seq!["[Script Info]"@] + info_lines(d.info) + seq![seq![], "[V4+ Styles]"@, style_format_line()]
            + d.styles.map_values(|x: SSAStyleView| style_line(x)) + seq![seq![], "[Events]"@, event_format_line()]
            + d.events.map_values(|x: SSAEventView| event_line(x)),
        seq!['\n'],
    )
}

fn push_opt(out: &mut Vec<Vec<char>>, key: &str, o: &Option<String>)
    ensures
        views(final(out)@) == views(old(out)@) + opt_line(key@, opt_view(*o)),
{
    match o {
        Some(v) => push_line(out, key, chars_of(v.as_str())),
        None => {},
    }
    assert(views(final(out)@) =~= views(old(out)@) + opt_line(key@, opt_view(*o)));
}

fn push_opt_num(out: &mut Vec<Vec<char>>, key: &str, o: Option<u32>)
    ensures
        views(final(out)@) == views(old(out)@) + opt_num_line(key@, o),
{
    match o {
        Some(n) => push_line(out, key, decimal_exec(n as u64)),
        None => {},
    }
    assert(views(final(out)@) =~= views(old(out)@) + opt_num_line(key@, o));
}

fn push_opt_dec(out: &mut Vec<Vec<char>>, key: &str, o: Option<Decimal>)
    ensures
        views(final(out)@) == views(old(out)@) + opt_dec_line(key@, o),
{
    match o {
        Some(d) => push_line(out, key, d.text_chars()),
        None => {},
    }
    assert(views(final(out)@) =~= views(old(out)@) + opt_dec_line(key@, o));
}

fn push_line(out: &mut Vec<Vec<char>>, key: &str, value: Vec<char>)
    ensures
        views(final(out)@) == views(old(out)@).push(field_line(key@, value@)),
{
    let mut l = chars_of(key);
    l.push(':');
    l.push(' ');
    push_all(&mut l, value.as_slice());
    let ghost before = views(out@);
    let ghost lv = l@;
    out.push(l);
    assert(views(out@) =~= before.push(lv));
    assert(lv =~= field_line(key@, value@));
}

#[verifier::rlimit(60)]
fn info_lines_exec(x: &SSAInfo) -> (r: Vec<Vec<char>>)
    ensures
        views(r@) == info_lines(x@),
{
    let mut out: Vec<Vec<char>> = Vec::new();
    assert(views(out@) =~= seq![]);
    push_opt(&mut out, "Title", &x.title);
    push_opt(&mut out, "Original Script", &x.original_script);
    push_opt(&mut out, "Original Translation", &x.original_translation);
    push_opt(&mut out, "Original Editing", &x.original_editing);
    push_opt(&mut out, "Original Timing", &x.original_timing);
    push_opt(&mut out, "Synch Point", &x.synch_point);
    push_opt(&mut out, "Script Updated By", &x.script_update_by);
    push_opt(&mut out, "Update Details", &x.update_details);
    push_opt(&mut out, "ScriptType", &x.script_type);
    push_opt(&mut out, "Collisions", &x.collisions);
    push_opt_num(&mut out, "PlayResY", x.play_res_y);
    push_opt_num(&mut out, "PlayResX", x.play_res_x);
    push_opt_num(&mut out, "PlayDepth", x.play_depth);
    push_opt_dec(&mut out, "Timer", x.timer);
    let ws: Option<u32> = match x.wrap_style {
        Some(w) => Some(w as u32),
        None => None,
    };
    push_opt_num(&mut out, "WrapStyle", ws);
    let ghost fixed = views(out@);
    let mut i: usize = 0;
    let ghost extra = x@.additional_fields.map_values(|e: (Seq<char>, Seq<char>)| field_line(e.0, e.1));
    while i < x.additional_fields.len()
        invariant
            i <= x.additional_fields@.len(),
            extra == x@.additional_fields.map_values(|e: (Seq<char>, Seq<char>)| field_line(e.0, e.1)),
            views(out@) == fixed + extra.take(i as int),
        decreases x.additional_fields.len() - i,
    {
        let k = &x.additional_fields[i].0;
        let v = &x.additional_fields[i].1;
        let mut l = chars_of(k.as_str());
        l.push(':');
        l.push(' ');
        push_str(&mut l, v.as_str());
        let ghost before = views(out@);
        let ghost lv = l@;
        out.push(l);
        assert(lv =~= extra[i as int]);
        assert(views(out@) =~= before.push(lv));
        assert(fixed + extra.take(i + 1) =~= (fixed + extra.take(i as int)).push(extra[i as int]));
        i += 1;
    }
    assert(extra.take(x.additional_fields@.len() as int) =~= extra);
    assert(fixed =~= opt_line("Title"@, x@.title) + opt_line("Original Script"@, x@.original_script) + opt_line("Original Translation"@, x@.original_translation) + opt_line("Original Editing"@, x@.original_editing) + opt_line("Original Timing"@, x@.original_timing) + opt_line("Synch Point"@, x@.synch_point) + opt_line("Script Updated By"@, x@.script_update_by) + opt_line("Update Details"@, x@.update_details) + opt_line("ScriptType"@, x@.script_type) + opt_line("Collisions"@, x@.collisions) + opt_num_line("PlayResY"@, x@.play_res_y) + opt_num_line("PlayResX"@, x@.play_res_x) + opt_num_line("PlayDepth"@, x@.play_depth) + opt_dec_line("Timer"@, x@.timer) + opt_num_line("WrapStyle"@, ws));
    assert(views(out@) =~= info_lines(x@));
    out
}

fn colour_chars(c: Option<Color>) -> (r: Vec<char>)
    ensures
        r@ == colour_text(c),
{
    match c {
        Some(c) => c.ssa_chars(),
        None => Vec::new(),
    }
}

fn flag_chars(b: bool) -> (r: Vec<char>)
    ensures
        r@ == flag_text(b),
{
    if b {
        lit("-1")
    } else {
        lit("0")
    }
}

fn join_comma(cols: &Vec<Vec<char>>) -> (r: Vec<char>)
    ensures
        r@ == join(views(cols@), seq![',']),
{
    let mut out: Vec<char> = Vec::new();
    let comma = vec![','];
    push_joined(&mut out, cols, 0, cols.len(), comma.as_slice());
    assert(views(cols@).subrange(0, cols@.len() as int) =~= views(cols@));
    assert(comma@ =~= seq![',']);
    out
}

#[verifier::rlimit(60)]
fn style_line_exec(x: &SSAStyle) -> (r: Vec<char>)
    ensures
        r@ == style_line(x@),
{
    let mut cols: Vec<Vec<char>> = Vec::new();
    cols.push(chars_of(x.name.as_str()));
    cols.push(chars_of(x.fontname.as_str()));
    cols.push(x.fontsize.text_chars());
    cols.push(colour_chars(x.primary_color));
    cols.push(colour_chars(x.secondary_color));
    cols.push(colour_chars(x.outline_color));
    cols.push(colour_chars(x.back_color));
    cols.push(flag_chars(x.bold));
    cols.push(flag_chars(x.italic));
    cols.push(flag_chars(x.underline));
    cols.push(flag_chars(x.strikeout));
    cols.push(x.scale_x.text_chars());
    cols.push(x.scale_y.text_chars());
    cols.push(x.spacing.text_chars());
    cols.push(x.angle.text_chars());
    cols.push(decimal_exec(x.border_style as u64));
    cols.push(x.outline.text_chars());
    cols.push(x.shadow.text_chars());
    cols.push(decimal_exec(x.alignment.number() as u64));
    cols.push(x.margin_l.text_chars());
    cols.push(x.margin_r.text_chars());
    cols.push(x.margin_v.text_chars());
    cols.push(x.encoding.text_chars());
    let body = join_comma(&cols);
    let mut out = lit("Style: ");
    push_all(&mut out, body.as_slice());
    assert(views(cols@) =~= seq![
            x@.name,
            x@.fontname,
            x@.fontsize.spec_text(),
            colour_text(x@.primary_color),
            colour_text(x@.secondary_color),
            colour_text(x@.outline_color),
            colour_text(x@.back_color),
            flag_text(x@.bold),
            flag_text(x@.italic),
            flag_text(x@.underline),
            flag_text(x@.strikeout),
            x@.scale_x.spec_text(),
            x@.scale_y.spec_text(),
            x@.spacing.spec_text(),
            x@.angle.spec_text(),
            decimal(x@.border_style as nat),
            x@.outline.spec_text(),
            x@.shadow.spec_text(),
            decimal(x@.alignment.spec_number()),
            x@.margin_l.spec_text(),
            x@.margin_r.spec_text(),
            x@.margin_v.spec_text(),
            x@.encoding.spec_text(),
        ]);
    out
}

fn line_type_chars(t: &SSAEventLineType) -> (r: Vec<char>)
    ensures
        r@ == line_type_text(t@),
{
    match t {
        SSAEventLineType::Dialogue => lit("Dialogue"),
        SSAEventLineType::Comment => lit("Comment"),
        SSAEventLineType::Other(s) => chars_of(s.as_str()),
    }
}

#[verifier::rlimit(60)]
fn event_line_exec(x: &SSAEvent) -> (r: Vec<char>)
    ensures
        r@ == event_line(x@),
{
    let mut cols: Vec<Vec<char>> = Vec::new();
    cols.push(decimal_exec(x.layer as u64));
    cols.push(x.start.format_chars(TimeFormat::Ass));
    cols.push(x.end.format_chars(TimeFormat::Ass));
    cols.push(chars_of(x.style.as_str()));
    cols.push(chars_of(x.name.as_str()));
    cols.push(x.margin_l.text_chars());
    cols.push(x.margin_r.text_chars());
    cols.push(x.margin_v.text_chars());
    cols.push(chars_of(x.effect.as_str()));
    cols.push(chars_of(x.text.as_str()));
    let body = join_comma(&cols);
    let mut out = line_type_chars(&x.line_type);
    out.push(':');
    out.push(' ');
    push_all(&mut out, body.as_slice());
    assert(views(cols@) =~= seq![
            decimal(x@.layer as nat),
            x@.start.spec_format(TimeFormat::Ass),
            x@.end.spec_format(TimeFormat::Ass),
            x@.style,
            x@.name,
            x@.margin_l.spec_text(),
            x@.margin_r.spec_text(),
            x@.margin_v.spec_text(),
            x@.effect,
            x@.text,
        ]);
    assert(out@ =~= event_line(x@));
    out
}

impl SSA {
    /// The document as text: `[Script Info]` with the fields that are set,
    /// `[V4+ Styles]` and `[Events]` under their fixed `Format:` headers, with
    /// times in centiseconds and colors in script-hex form.
    pub fn to_string(&self) -> (r: String)
        ensures
            r@ == ssa_text(self@),
    {
        let ghost d = self@;
        let mut ls: Vec<Vec<char>> = Vec::new();
        ls.push(lit("[Script Info]"));
        let info = info_lines_exec(&self.info);
        let mut i: usize = 0;
        let ghost head_lines = seq!["[Script Info]"@];
        assert(views(ls@) =~= head_lines);
        while i < info.len()
            invariant
                i <= info@.len(),
                views(ls@) == head_lines + views(info@).take(i as int),
            decreases info.len() - i,
        {
            let l = slice_of(info[i].as_slice(), 0, info[i].len());
            let ghost before = views(ls@);
            let ghost lv = l@;
            ls.push(l);
            assert(views(ls@) =~= before.push(lv));
            assert(lv =~= views(info@)[i as int]);
            assert(head_lines + views(info@).take(i + 1) =~= (head_lines + views(info@).take(i as int)).push(views(info@)[i as int]));
            i += 1;
        }
        assert(views(info@).take(info@.len() as int) =~= views(info@));
        let ghost info_done = views(ls@);
        ls.push(Vec::new());
        ls.push(lit("[V4+ Styles]"));
        ls.push(lit("Format: Name,Fontname,Fontsize,PrimaryColour,SecondaryColour,OutlineColour,BackColour,Bold,Italic,Underline,StrikeOut,ScaleX,ScaleY,Spacing,Angle,BorderStyle,Outline,Shadow,Alignment,MarginL,MarginR,MarginV,Encoding"));
        let ghost styles_head = info_done + seq![seq![], "[V4+ Styles]"@, style_format_line()];
        assert(views(ls@) =~= styles_head);
        let ghost sl = d.styles.map_values(|x: SSAStyleView| style_line(x));
        let mut j: usize = 0;
        while j < self.styles.len()
            invariant
                d == self@,
                j <= self.styles@.len(),
                sl == d.styles.map_values(|x: SSAStyleView| style_line(x)),
                views(ls@) == styles_head + sl.take(j as int),
            decreases self.styles.len() - j,
        {
            let l = style_line_exec(&self.styles[j]);
            let ghost before = views(ls@);
            let ghost lv = l@;
            ls.push(l);
            assert(views(ls@) =~= before.push(lv));
            assert(styles_head + sl.take(j + 1) =~= (styles_head + sl.take(j as int)).push(sl[j as int]));
            j += 1;
        }
        assert(sl.take(self.styles@.len() as int) =~= sl);
        ls.push(Vec::new());
        ls.push(lit("[Events]"));
        ls.push(lit("Format: Layer,Start,End,Style,Name,MarginL,MarginR,MarginV,Effect,Text"));
        let ghost events_head = styles_head + sl + seq![seq![], "[Events]"@, event_format_line()];
        assert(views(ls@) =~= events_head);
        let ghost el = d.events.map_values(|x: SSAEventView| event_line(x));
        let mut k: usize = 0;
        while k < self.events.len()
            invariant
                d == self@,
                k <= self.events@.len(),
                el == d.events.map_values(|x: SSAEventView| event_line(x)),
                views(ls@) == events_head + el.take(k as int),
            decreases self.events.len() - k,
        {
            let l = event_line_exec(&self.events[k]);
            let ghost before = views(ls@);
            let ghost lv = l@;
            ls.push(l);
            assert(views(ls@) =~= before.push(lv));
            assert(events_head + el.take(k + 1) =~= (events_head + el.take(k as int)).push(el[k as int]));
            k += 1;
        }
        assert(el.take(self.events@.len() as int) =~= el);
        let mut out: Vec<char> = Vec::new();
        let nl = vec!['\n'];
        push_joined(&mut out, &ls, 0, ls.len(), nl.as_slice());
        assert(views(ls@).subrange(0, ls@.len() as int) =~= views(ls@));
        assert(nl@ =~= seq!['\n']);
        assert(views(ls@) =~= seq!["[Script Info]"@] + info_lines(d.info) + seq![seq![], "[V4+ Styles]"@, style_format_line()]
            + d.styles.map_values(|x: SSAStyleView| style_line(x)) + seq![seq![], "[Events]"@, event_format_line()]
            + d.events.map_values(|x: SSAEventView| event_line(x)));
        string_of(out.as_slice())
    }
}

} // verus!
