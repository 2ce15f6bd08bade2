//! The six conversions between the formats. They cannot fail; markup that a
//! target format cannot express is dropped.
use vstd::prelude::*;
use crate::color::{vtt_color_spec, Color};
use crate::decimal::{decimal_spec, parse_decimal_chars, Decimal};
use crate::srt::{SRTLine, SRTLineView, SRT};
use crate::ssa::{
    Alignment, LineTypeView, SSAEvent, SSAEventLineType, SSAEventView, SSAInfo, SSAInfoView, SSAStyle,
    SSAStyleView, SSAView, SSA, empty_info,
};
use crate::tags::{
    any_tag_pattern, erase_matches, escape_breaks, escape_breaks_exec, foreign_tag_pattern,
    html_to_overrides, html_to_overrides_exec, line_voice_pattern, override_pattern,
    overrides_to_html, overrides_to_html_exec, regex_captures, regex_erased, speaker_captures,
    speaker_pattern, voice_split, voice_split_exec, wrap_tags, wrap_tags_exec,
};
use crate::text::{chars_of, contains, contains_exec, decimal, decimal_exec, ends_with, starts_with, starts_with_exec, string_of, slice_of};
use crate::time::Time;
use crate::vtt::{key_pos, VTTLine, VTTLineView, VTTStyle, VTTStyleView, VTTView, VTT};

verus! {

/// A cue-block cue for each sequential cue: the sequence number becomes the identifier.
pub open spec fn srt_to_vtt_spec(d: Seq<SRTLineView>) -> VTTView {
    VTTView {
        regions: seq![],
        styles: seq![],
        lines: d.map_values(
            |l: SRTLineView|
                VTTLineView {
                    identifier: Some(decimal(l.sequence_number as nat)),
                    start: l.start,
                    end: l.end,
                    settings: seq![],
                    text: l.text,
                },
        ),
    }
}

/// The text of a cue in the sequential-cue format: voice tags at line starts,
/// then every tag but bold, italic and underline, removed.
pub open spec fn vtt_text_to_srt(t: Seq<char>) -> Seq<char> {
    regex_erased(foreign_tag_pattern(), regex_erased(line_voice_pattern(), t))
}

/// A sequential cue for each cue, numbered from 1.
pub open spec fn vtt_to_srt_spec(d: VTTView) -> Seq<SRTLineView> {
    Seq::new(
        d.lines.len(),
        |i: int|
            SRTLineView {
                sequence_number: (i + 1) as u32,
                start: d.lines[i].start,
                end: d.lines[i].end,
                text: vtt_text_to_srt(d.lines[i].text),
            },
    )
}

/// The first style named `name`, or -1.
pub open spec fn style_pos(styles: Seq<SSAStyleView>, name: Seq<char>, i: int) -> int
    decreases styles.len() - i,
{
    if i < 0 || i >= styles.len() {
        -1
    } else if styles[i].name == name {
        i
    } else {
        style_pos(styles, name, i + 1)
    }
}

/// The text of an event in the sequential-cue format: bold, italic and
/// underline codes as tags, the whole text wrapped in the tags of the flags of
/// its style (when the event names one that exists), and other codes removed.
pub open spec fn ssa_text_to_srt(styles: Seq<SSAStyleView>, e: SSAEventView) -> Seq<char> {
    let t = overrides_to_html(e.text);
    let p = style_pos(styles, e.style, 0);
    let w = if e.style.len() > 0 && p >= 0 {
        wrap_tags(t, styles[p].bold, styles[p].italic, styles[p].underline)
    } else {
        t
    };
    regex_erased(override_pattern(), w)
}

/// A sequential cue for each event, numbered from 1.
pub open spec fn ssa_to_srt_spec(d: SSAView) -> Seq<SRTLineView> {
    Seq::new(
        d.events.len(),
        |i: int|
            SRTLineView {
                sequence_number: (i + 1) as u32,
                start: d.events[i].start,
                end: d.events[i].end,
                text: ssa_text_to_srt(d.styles, d.events[i]),
            },
    )
}

pub open spec fn whole(n: u64) -> Decimal {
    Decimal { negative: false, mantissa: n, scale: 0 }
}

/// The style that a converted document starts from.
pub open spec fn base_style() -> SSAStyleView {
    SSAStyleView {
        name: "Default"@,
        fontname: "Arial"@,
        fontsize: whole(20),
        primary_color: Some(Color { r: 255, g: 255, b: 255, a: 255 }),
        secondary_color: Some(Color { r: 0, g: 0, b: 0, a: 255 }),
        outline_color: Some(Color { r: 0, g: 0, b: 0, a: 0 }),
        back_color: Some(Color { r: 0, g: 0, b: 0, a: 0 }),
        bold: false,
        italic: false,
        underline: false,
        strikeout: false,
        scale_x: whole(120),
        scale_y: whole(120),
        spacing: whole(0),
        angle: whole(0),
        border_style: 1,
        outline: whole(1),
        shadow: whole(1),
        alignment: Alignment::BottomCenter,
        margin_l: whole(0),
        margin_r: whole(0),
        margin_v: whole(20),
        encoding: whole(0),
    }
}

/// The value of property `key` of a rule.
pub open spec fn property(m: Seq<(Seq<char>, Seq<char>)>, key: Seq<char>) -> Option<Seq<char>> {
    let p = key_pos(m, key, 0);
    if p < 0 {
        None
    } else {
        Some(m[p].1)
    }
}

/// `v` without any `px` at its end.
pub open spec fn strip_px(v: Seq<char>) -> Seq<char>
    decreases v.len(),
{
    if v.len() >= 2 && ends_with(v, "px"@) {
        strip_px(v.take(v.len() - 2))
    } else {
        v
    }
}

/// A pixel length: a decimal, with or without `px`.
pub open spec fn pixels(v: Option<Seq<char>>) -> Option<Decimal> {
    match v {
        Some(x) => decimal_spec(strip_px(x)),
        None => None,
    }
}

pub open spec fn web_color(v: Option<Seq<char>>) -> Option<Color> {
    match v {
        Some(x) => match vtt_color_spec(x) {
            Ok(c) => Some(c),
            Err(_) => None,
        },
        None => None,
    }
}

/// `st` with the recognized properties of a rule applied; a rule with a
/// selector, and values that do not read, change nothing.
pub open spec fn apply_rule(st: SSAStyleView, rule: VTTStyleView) -> SSAStyleView {
    if rule.selector is Some {
        st
    } else {
        let m = rule.entries;
        let deco = property(m, "text-decoration"@);
        SSAStyleView {
            primary_color: match web_color(property(m, "color"@)) {
                Some(c) => Some(c),
                None => st.primary_color,
            },
            back_color: match web_color(property(m, "background-color"@)) {
                Some(c) => Some(c),
                None => st.back_color,
            },
            fontsize: match pixels(property(m, "font-size"@)) {
                Some(d) => d,
                None => st.fontsize,
            },
            italic: st.italic || property(m, "font-style"@) == Some("italic"@),
            bold: st.bold || match property(m, "font-weight"@) {
                Some(x) => starts_with(x, "bold"@),
                None => false,
            },
            underline: st.underline || match deco {
                Some(x) => contains(x, "underline"@),
                None => false,
            },
            strikeout: st.strikeout || match deco {
                Some(x) => contains(x, "line-through"@),
                None => false,
            },
            spacing: match pixels(property(m, "letter-spacing"@)) {
                Some(d) => d,
                None => st.spacing,
            },
            ..st
        }
    }
}

/// The style that the first `n` rules give, each applied over the earlier ones.
pub open spec fn rules_upto(rules: Seq<VTTStyleView>, n: int) -> SSAStyleView
    decreases n,
{
    if n <= 0 {
        base_style()
    } else {
        apply_rule(rules_upto(rules, n - 1), rules[n - 1])
    }
}

/// The text and speaker of an event made from a cue.
pub open spec fn cue_event_parts(t: Seq<char>) -> (Seq<char>, Seq<char>) {
    let v = voice_split(t, regex_captures(speaker_pattern(), t), regex_erased(speaker_pattern(), t));
    (escape_breaks(regex_erased(any_tag_pattern(), html_to_overrides(v.0))), v.1)
}

/// An event of the default style for each cue.
pub open spec fn vtt_to_ssa_spec(d: VTTView) -> SSAView {
    SSAView {
        info: empty_info(),
        styles: seq![rules_upto(d.styles, d.styles.len() as int)],
        events: Seq::new(
            d.lines.len(),
            |i: int|
                SSAEventView {
                    layer: 0,
                    start: d.lines[i].start,
                    end: d.lines[i].end,
                    style: "Default"@,
                    name: cue_event_parts(d.lines[i].text).1,
                    margin_l: whole(0),
                    margin_r: whole(0),
                    margin_v: whole(0),
                    effect: seq![],
                    text: cue_event_parts(d.lines[i].text).0,
                    line_type: LineTypeView::Dialogue,
                },
        ),
        fonts: seq![],
        graphics: seq![],
    }
}

fn property_exec(m: &Vec<(String, String)>, key: &str) -> (r: Option<String>)
    ensures
        crate::vtt::opt_view(r) == property(crate::vtt::entries_view(m@), key@),
{
    let ghost mv = crate::vtt::entries_view(m@);
    let k = string_of(chars_of(key).as_slice());
    let mut i: usize = 0;
    while i < m.len()
        invariant
            mv == crate::vtt::entries_view(m@),
            k@ == key@,
            i <= m@.len(),
            key_pos(mv, key@, i as int) == key_pos(mv, key@, 0),
        decreases m.len() - i,
    {
        assert(mv[i as int].0 == m@[i as int].0@);
        if m[i].0 == k {
            assert(key_pos(mv, key@, i as int) == i as int);
            return Some(string_of(chars_of(m[i].1.as_str()).as_slice()));
        }
        i += 1;
    }
    None
}

fn strip_px_exec(v: &String) -> (r: Vec<char>)
    ensures
        r@ == strip_px(v@),
{
    let mut t = chars_of(v.as_str());
    let px = chars_of("px");
    while t.len() >= 2 && crate::text::ends_with_exec(t.as_slice(), px.as_slice())
        invariant
            px@ == "px"@,
            strip_px(t@) == strip_px(v@),
        decreases t@.len(),
    {
        let n = t.len();
        t = slice_of(t.as_slice(), 0, n - 2);
    }
    t
}

fn pixels_exec(v: &Option<String>) -> (r: Option<Decimal>)
    ensures
        r == pixels(crate::vtt::opt_view(*v)),
{
    match v {
        Some(x) => {
            let t = strip_px_exec(x);
            parse_decimal_chars(t.as_slice())
        },
        None => None,
    }
}

fn web_color_exec(v: &Option<String>) -> (r: Option<Color>)
    ensures
        r == web_color(crate::vtt::opt_view(*v)),
{
    match v {
        Some(x) => match Color::from_vtt(x.as_str()) {
            Ok(c) => Some(c),
            Err(_) => None,
        },
        None => None,
    }
}

#[verifier::rlimit(60)]
fn apply_rule_exec(st: &mut SSAStyle, rule: &VTTStyle)
    ensures
        final(st)@ == apply_rule(old(st)@, rule@),
{
    if rule.selector.is_some() {
        return ;
    }
    let m = &rule.entries;
    match web_color_exec(&property_exec(m, "color")) {
        Some(c) => st.primary_color = Some(c),
        None => {},
    }
    match web_color_exec(&property_exec(m, "background-color")) {
        Some(c) => st.back_color = Some(c),
        None => {},
    }
    match pixels_exec(&property_exec(m, "font-size")) {
        Some(d) => st.fontsize = d,
        None => {},
    }
    match property_exec(m, "font-style") {
        Some(x) => {
            if crate::text::eq_chars(chars_of(x.as_str()).as_slice(), chars_of("italic").as_slice()) {
                st.italic = true;
            }
        },
        None => {},
    }
    match property_exec(m, "font-weight") {
        Some(x) => {
            if starts_with_exec(chars_of(x.as_str()).as_slice(), chars_of("bold").as_slice()) {
                st.bold = true;
            }
        },
        None => {},
    }
    match property_exec(m, "text-decoration") {
        Some(x) => {
            let xv = chars_of(x.as_str());
            if contains_exec(xv.as_slice(), chars_of("underline").as_slice()) {
                st.underline = true;
            }
            if contains_exec(xv.as_slice(), chars_of("line-through").as_slice()) {
                st.strikeout = true;
            }
        },
        None => {},
    }
    match pixels_exec(&property_exec(m, "letter-spacing")) {
        Some(d) => st.spacing = d,
        None => {},
    }
}

fn base_style_exec() -> (r: SSAStyle)
    ensures
        r@ == base_style(),
{
    SSAStyle {
        name: string_of(chars_of("Default").as_slice()),
        fontname: string_of(chars_of("Arial").as_slice()),
        fontsize: Decimal::whole(20),
        primary_color: Some(Color::white()),
        secondary_color: Some(Color::black()),
        outline_color: Some(Color::transparent()),
        back_color: Some(Color::transparent()),
        bold: false,
        italic: false,
        underline: false,
        strikeout: false,
        scale_x: Decimal::whole(120),
        scale_y: Decimal::whole(120),
        spacing: Decimal::whole(0),
        angle: Decimal::whole(0),
        border_style: 1,
        outline: Decimal::whole(1),
        shadow: Decimal::whole(1),
        alignment: Alignment::BottomCenter,
        margin_l: Decimal::whole(0),
        margin_r: Decimal::whole(0),
        margin_v: Decimal::whole(20),
        encoding: Decimal::whole(0),
    }
}

/// The text and speaker of an event made from a cue text.
pub fn cue_event_parts_exec(t: &str) -> (r: (String, String))
    ensures
        (r.0@, r.1@) == cue_event_parts(t@),
{
    let caps = speaker_captures("(?m)^<v.*?\\s(?P<speaker>.*?)>", t);
    let erased = erase_matches("(?m)^<v.*?\\s(?P<speaker>.*?)>", t);
    let (text, speaker) = voice_split_exec(t, &caps, erased.as_str());
    let tagged = html_to_overrides_exec(text.as_str());
    let bare = erase_matches("<.*?>", tagged.as_str());
    (escape_breaks_exec(bare.as_str()), speaker)
}

/// The text of a cue in the sequential-cue format.
pub fn vtt_text_to_srt_exec(t: &str) -> (r: String)
    ensures
        r@ == vtt_text_to_srt(t@),
{
    let a = erase_matches("(?m)^<v[^>]*>", t);
    erase_matches("<(?:[^biu/>]|/[^biu>]|[biu][^>]|/[biu][^>])[^>]*>", a.as_str())
}

fn style_pos_exec(styles: &Vec<SSAStyle>, name: &String) -> (r: Option<usize>)
    ensures
        match r {
            Some(p) => p as int == style_pos(styles@.map_values(|x: SSAStyle| x@), name@, 0) && p < styles@.len(),
            None => style_pos(styles@.map_values(|x: SSAStyle| x@), name@, 0) < 0,
        },
{
    let ghost sv = styles@.map_values(|x: SSAStyle| x@);
    let mut i: usize = 0;
    while i < styles.len()
        invariant
            sv == styles@.map_values(|x: SSAStyle| x@),
            i <= styles@.len(),
            style_pos(sv, name@, i as int) == style_pos(sv, name@, 0),
        decreases styles.len() - i,
    {
        assert(sv[i as int].name == styles@[i as int].name@);
        if styles[i].name == *name {
            return Some(i);
        }
        i += 1;
    }
    None
}

/// The text of an event in the sequential-cue format.
pub fn ssa_text_to_srt_exec(styles: &Vec<SSAStyle>, e: &SSAEvent) -> (r: String)
    ensures
        r@ == ssa_text_to_srt(styles@.map_values(|x: SSAStyle| x@), e@),
{
    let t = overrides_to_html_exec(e.text.as_str());
    let p = style_pos_exec(styles, &e.style);
    let w = if !e.style.as_str().is_empty() {
        match p {
            Some(k) => wrap_tags_exec(t.as_str(), styles[k].bold, styles[k].italic, styles[k].underline),
            None => t,
        }
    } else {
        t
    };
    erase_matches("(?m)\\{\\\\.+?\\}", w.as_str())
}

impl SRT {
    /// The cue-block document with a cue for each cue; sequence numbers become identifiers.
    pub fn to_vtt(&self) -> (r: VTT)
        ensures
            r@ == srt_to_vtt_spec(self@),
    {
        let ghost target = srt_to_vtt_spec(self@);
        let mut lines: Vec<VTTLine> = Vec::new();
        let mut i: usize = 0;
        while i < self.lines.len()
            invariant
                i <= self.lines@.len(),
                target == srt_to_vtt_spec(self@),
                lines@.map_values(|l: VTTLine| l@) == target.lines.take(i as int),
            decreases self.lines.len() - i,
        {
            let l = &self.lines[i];
            let id = string_of(decimal_exec(l.sequence_number as u64).as_slice());
            let c = VTTLine {
                identifier: Some(id),
                start: l.start,
                end: l.end,
                settings: Vec::new(),
                text: string_of(chars_of(l.text.as_str()).as_slice()),
            };
            assert(c@.settings =~= seq![]);
            assert(c@ == target.lines[i as int]);
            let ghost before = lines@.map_values(|l: VTTLine| l@);
            lines.push(c);
            assert(lines@.map_values(|l: VTTLine| l@) =~= before.push(c@));
            assert(target.lines.take(i + 1) =~= target.lines.take(i as int).push(target.lines[i as int]));
            i += 1;
        }
        assert(target.lines.take(self.lines@.len() as int) =~= target.lines);
        let r = VTT { regions: Vec::new(), styles: Vec::new(), lines };
        assert(r@.regions =~= seq![]);
        assert(r@.styles =~= seq![]);
        r
    }

    /// The styled-script document that the cue-block form of this document gives.
    pub fn to_ssa(&self) -> (r: SSA)
        ensures
            r@ == vtt_to_ssa_spec(srt_to_vtt_spec(self@)),
    {
        self.to_vtt().to_ssa()
    }
}

impl VTT {
    /// The sequential-cue document: cues numbered from 1, voice tags at line
    /// starts and tags other than bold, italic and underline removed.
    pub fn to_srt(&self) -> (r: SRT)
        requires
            self.lines@.len() < u32::MAX,
        ensures
            r@ == vtt_to_srt_spec(self@),
    {
        let ghost target = vtt_to_srt_spec(self@);
        let mut lines: Vec<SRTLine> = Vec::new();
        let mut i: usize = 0;
        while i < self.lines.len()
            invariant
                i <= self.lines@.len(),
                self.lines@.len() < u32::MAX,
                target == vtt_to_srt_spec(self@),
                lines@.map_values(|l: SRTLine| l@) == target.take(i as int),
            decreases self.lines.len() - i,
        {
            let c = &self.lines[i];
            let l = SRTLine {
                sequence_number: i as u32 + 1,
                start: c.start,
                end: c.end,
                text: vtt_text_to_srt_exec(c.text.as_str()),
            };
            assert(l@ == target[i as int]);
            let ghost before = lines@.map_values(|l: SRTLine| l@);
            lines.push(l);
            assert(lines@.map_values(|l: SRTLine| l@) =~= before.push(l@));
            assert(target.take(i + 1) =~= target.take(i as int).push(target[i as int]));
            i += 1;
        }
        assert(target.take(self.lines@.len() as int) =~= target);
        SRT { lines }
    }

    /// The styled-script document: one default style built from the rules
    /// without selector, and an event for each cue, the speaker of a single
    /// leading voice tag as its name.
    pub fn to_ssa(&self) -> (r: SSA)
        ensures
            r@ == vtt_to_ssa_spec(self@),
    {
        let ghost target = vtt_to_ssa_spec(self@);
        let ghost sv = self@.styles;
        let mut st = base_style_exec();
        let mut k: usize = 0;
        while k < self.styles.len()
            invariant
                k <= self.styles@.len(),
                sv == self@.styles,
                st@ == rules_upto(sv, k as int),
            decreases self.styles.len() - k,
        {
            apply_rule_exec(&mut st, &self.styles[k]);
            k += 1;
        }
        let mut events: Vec<SSAEvent> = Vec::new();
        let mut i: usize = 0;
        while i < self.lines.len()
            invariant
                i <= self.lines@.len(),
                target == vtt_to_ssa_spec(self@),
                events@.map_values(|e: SSAEvent| e@) == target.events.take(i as int),
            decreases self.lines.len() - i,
        {
            let c = &self.lines[i];
            let (text, speaker) = cue_event_parts_exec(c.text.as_str());
            let e = SSAEvent {
                layer: 0,
                start: c.start,
                end: c.end,
                style: string_of(chars_of("Default").as_slice()),
                name: speaker,
                margin_l: Decimal::whole(0),
                margin_r: Decimal::whole(0),
                margin_v: Decimal::whole(0),
                effect: String::new(),
                text,
                line_type: SSAEventLineType::Dialogue,
            };
            assert(e@ == target.events[i as int]);
            let ghost before = events@.map_values(|e: SSAEvent| e@);
            events.push(e);
            assert(events@.map_values(|e: SSAEvent| e@) =~= before.push(e@));
            assert(target.events.take(i + 1) =~= target.events.take(i as int).push(target.events[i as int]));
            i += 1;
        }
        assert(target.events.take(self.lines@.len() as int) =~= target.events);
        let info = SSAInfo {
            title: None,
            original_script: None,
            original_translation: None,
            original_editing: None,
            original_timing: None,
            synch_point: None,
            script_update_by: None,
            update_details: None,
            script_type: None,
            collisions: None,
            play_res_y: None,
            play_res_x: None,
            play_depth: None,
            timer: None,
            wrap_style: None,
            additional_fields: Vec::new(),
        };
        assert(info@.additional_fields =~= seq![]);
        let mut styles: Vec<SSAStyle> = Vec::new();
        styles.push(st);
        let r = SSA { info, styles, events, fonts: Vec::new(), graphics: Vec::new() };
        assert(r@.styles =~= seq![rules_upto(sv, sv.len() as int)]);
        assert(r@.fonts =~= seq![]);
        assert(r@.graphics =~= seq![]);
        assert(r@.info == empty_info());
        r
    }
}

impl SSA {
    /// The sequential-cue document: an entry for each event, numbered from 1.
    pub fn to_srt(&self) -> (r: SRT)
        requires
            self.events@.len() < u32::MAX,
        ensures
            r@ == ssa_to_srt_spec(self@),
    {
        let ghost target = ssa_to_srt_spec(self@);
        let mut lines: Vec<SRTLine> = Vec::new();
        let mut i: usize = 0;
        while i < self.events.len()
            invariant
                i <= self.events@.len(),
                self.events@.len() < u32::MAX,
                target == ssa_to_srt_spec(self@),
                lines@.map_values(|l: SRTLine| l@) == target.take(i as int),
            decreases self.events.len() - i,
        {
            let e = &self.events[i];
            let l = SRTLine {
                sequence_number: i as u32 + 1,
                start: e.start,
                end: e.end,
                text: ssa_text_to_srt_exec(&self.styles, e),
            };
            assert(l@ == target[i as int]);
            let ghost before = lines@.map_values(|l: SRTLine| l@);
            lines.push(l);
            assert(lines@.map_values(|l: SRTLine| l@) =~= before.push(l@));
            assert(target.take(i + 1) =~= target.take(i as int).push(target[i as int]));
            i += 1;
        }
        assert(target.take(self.events@.len() as int) =~= target);
        SRT { lines }
    }

    /// The cue-block document that the sequential-cue form of this document gives.
    pub fn to_vtt(&self) -> (r: VTT)
        requires
            self.events@.len() < u32::MAX,
        ensures
            r@ == srt_to_vtt_spec(ssa_to_srt_spec(self@)),
    {
        self.to_srt().to_vtt()
    }
}

} // verus!
