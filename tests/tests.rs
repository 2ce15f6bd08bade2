use rsubs_lib::convert::{cue_event_parts_exec, vtt_text_to_srt_exec};
use rsubs_lib::tags::{escape_breaks_exec, html_to_overrides_exec, overrides_to_html_exec, wrap_tags_exec};
use rsubs_lib::{Alignment, Color, ColorError, Decimal, Time, TimeError, TimeFormat};

#[test]
fn alignments() {
    let mut a = Alignment::infer_from_str("1").unwrap();
    assert_eq!(a, Alignment::BottomLeft);
    a = Alignment::infer_from_str("2").unwrap();
    assert_eq!(a, Alignment::BottomCenter);
    a = Alignment::infer_from_str("3").unwrap();
    assert_eq!(a, Alignment::BottomRight);
    a = Alignment::infer_from_str("4").unwrap();
    assert_eq!(a, Alignment::MiddleLeft);
    a = Alignment::infer_from_str("5").unwrap();
    assert_eq!(a, Alignment::MiddleCenter);
    a = Alignment::infer_from_str("6").unwrap();
    assert_eq!(a, Alignment::MiddleRight);
    a = Alignment::infer_from_str("7").unwrap();
    assert_eq!(a, Alignment::TopLeft);
    a = Alignment::infer_from_str("8").unwrap();
    assert_eq!(a, Alignment::TopCenter);
    a = Alignment::infer_from_str("9").unwrap();
    assert_eq!(a, Alignment::TopRight);
}

#[test]
fn script_hex_colors() {
    assert_eq!(Color::from_ssa("&HAA"), Ok(Color { r: 170, g: 0, b: 0, a: 255 }));
    assert_eq!(Color::from_ssa("&HAAAB"), Ok(Color { r: 171, g: 170, b: 0, a: 255 }));
    assert_eq!(Color::from_ssa("&HAAABAC"), Ok(Color { r: 172, g: 171, b: 170, a: 255 }));
    assert_eq!(Color::from_ssa("&H80112233"), Ok(Color { r: 0x33, g: 0x22, b: 0x11, a: 0x80 }));
    assert_eq!(Color::from_ssa("&HAAABAAAAAAAAC"), Err(ColorError::InvalidLength));
    assert_eq!(Color::from_ssa("&H0000-1"), Err(ColorError::InvalidDigit));
    assert_eq!(Color::from_ssa("AAAB"), Err(ColorError::InvalidLength));
}

#[test]
fn web_colors() {
    assert_eq!(Color::from_vtt("#AA"), Ok(Color { r: 170, g: 0, b: 0, a: 255 }));
    assert_eq!(Color::from_vtt("#AAAB"), Ok(Color { r: 170, g: 171, b: 0, a: 255 }));
    assert_eq!(Color::from_vtt("#AAABAC"), Ok(Color { r: 170, g: 171, b: 172, a: 255 }));
    assert_eq!(Color::from_vtt("#AAABACAD"), Ok(Color { r: 171, g: 172, b: 173, a: 170 }));
    assert_eq!(Color::from_vtt("Red"), Ok(Color { r: 255, g: 0, b: 0, a: 255 }));
    assert_eq!(Color::from_vtt("rebeccapurple"), Ok(Color { r: 102, g: 51, b: 153, a: 255 }));
    assert_eq!(Color::from_vtt("AAABAAAAAAAAC"), Err(ColorError::UnknownName));
    assert_eq!(Color::from_vtt("#AAABAAAAAAAAC"), Err(ColorError::InvalidLength));
    assert_eq!(Color::from_vtt("#GG"), Err(ColorError::InvalidDigit));
}

#[test]
fn color_strings_keep_alpha_only_when_needed() {
    let white = Color::new(255, 255, 255, 255);
    assert_eq!(white.to_ssa_string(), "&HFFFFFF");
    assert_eq!(white.to_vtt_string(), "#FFFFFF");
    let c = Color::new(0x11, 0x22, 0x33, 0x44);
    assert_eq!(c.to_ssa_string(), "&H44332211");
    assert_eq!(c.to_vtt_string(), "#11223344");
    assert_eq!(Color::from_ssa(&c.to_ssa_string()), Ok(c));
    let clear = Color::new(0, 0, 0, 0);
    assert_eq!(clear.to_ssa_string(), "&H00000000");
}

#[test]
fn time_dialects() {
    let t = Time::parse("01:02:03,456", TimeFormat::Srt).unwrap();
    assert_eq!(t.total_ms(), 3_723_456);
    assert_eq!(t.to_srt_string(), "01:02:03,456");
    assert_eq!(t.to_vtt_string(), "01:02:03.456");
    assert_eq!(t.to_ass_string(), "1:02:03.45");
    assert_eq!(Time::parse("02:03.456", TimeFormat::Vtt).unwrap().total_ms(), 123_456);
    assert_eq!(Time::parse("0:00:05.10", TimeFormat::Ass).unwrap().total_ms(), 5_100);
    assert_eq!(Time::parse("02:03.456", TimeFormat::Srt), Err(TimeError { text: "02:03.456".to_string() }));
    assert_eq!(Time::parse("00:61:00,000", TimeFormat::Srt), Err(TimeError { text: "00:61:00,000".to_string() }));
    assert_eq!(Time::parse("00:00:05,1", TimeFormat::Srt), Err(TimeError { text: "00:00:05,1".to_string() }));
    assert_eq!(Time::parse("00:00:05.100", TimeFormat::Ass), Err(TimeError { text: "00:00:05.100".to_string() }));
    assert_eq!(Time::parse("a:00:05,100", TimeFormat::Srt), Err(TimeError { text: "a:00:05,100".to_string() }));
}

#[test]
fn time_canonical_rendering_is_stable() {
    for (s, f) in [("7:05:09.99", TimeFormat::Ass), ("100:00:00,001", TimeFormat::Srt), ("59:59.999", TimeFormat::Vtt)] {
        let once = Time::parse(s, f).unwrap();
        let text = match f {
            TimeFormat::Ass => once.to_ass_string(),
            TimeFormat::Srt => once.to_srt_string(),
            TimeFormat::Vtt => once.to_vtt_string(),
        };
        let twice = Time::parse(&text, f).unwrap();
        assert_eq!(once, twice);
    }
}

#[test]
fn time_shift_saturates() {
    let mut t = Time::from_ms(20_000);
    t.shift(1_000);
    assert_eq!(t.total_ms(), 21_000);
    t.shift(-1_000);
    assert_eq!(t.total_ms(), 20_000);
    t.shift(-100_000);
    assert_eq!(t.total_ms(), 0);
    t.shift(i64::MAX);
    assert_eq!(t.total_ms(), u32::MAX);
    let mut u = Time::from_ms(22_000);
    u.shift(100);
    assert_eq!(u.to_srt_string(), "00:00:22,100");
    assert_eq!((u.hours(), u.minutes(), u.seconds(), u.millis()), (0, 0, 22, 100));
}

#[test]
fn decimals() {
    assert_eq!(Decimal::parse("25.50").unwrap().to_string(), "25.5");
    assert_eq!(Decimal::parse("0030").unwrap().to_string(), "30");
    assert_eq!(Decimal::parse("-0.0").unwrap().to_string(), "0");
    assert_eq!(Decimal::parse(".5").unwrap().to_string(), "0.5");
    assert_eq!(Decimal::parse("-1.25").unwrap().to_string(), "-1.25");
    assert_eq!(Decimal::parse("1e5"), None);
    assert_eq!(Decimal::parse(""), None);
    assert_eq!(Decimal::parse("."), None);
    assert_eq!(Decimal::whole(120).to_string(), "120");
}

#[test]
fn markup_helpers() {
    assert_eq!(overrides_to_html_exec("{\\b1}a{\\b0}\\Nb"), "<b>a</b>\nb");
    assert_eq!(html_to_overrides_exec("<s>x</s><u>y</u>"), "{\\s1}x{\\s0}{\\u1}y{\\u0}");
    assert_eq!(escape_breaks_exec("a\r\nb\nc"), "a\\Nb\\Nc");
    assert_eq!(wrap_tags_exec("t", true, true, true), "<u><i><b>t</b></i></u>");
}

#[test]
fn regex_backed_steps() {
    assert_eq!(vtt_text_to_srt_exec("<v Bob>hi <i>there</i> <c.red>you</c>"), "hi <i>there</i> you");
    let (text, speaker) = cue_event_parts_exec("<v Neil deGrasse Tyson><i>Laughs</i>");
    assert_eq!(text, "{\\i1}Laughs{\\i0}");
    assert_eq!(speaker, "Neil deGrasse Tyson");
}

#[test]
fn test_time() {
    let fi = "
        1
00:11.000 --> 00:13.000
We are in New York City

2
00:13.000 --> 00:16.000
We’re actually at the Lucern Hotel, just down the street

3
00:16.000 --> 00:18.000
from the American Museum of Natural History

4
00:18.000 --> 00:20.000
And with me is Neil deGrasse Tyson

5
00:20.000 --> 00:22.000
Astrophysicist, Director of the Hayden Planetarium

6
00:22.000 --> 00:24.000
at the AMNH.

7
00:24.000 --> 00:26.000
Thank you for walking down here.

8
00:27.000 --> 00:30.000
And I want to do a follow-up on the last conversation we did.

9
00:30.000 --> 00:31.500
When we e-mailed—

10
00:30.500 --> 00:32.500
Didn’t we talk about enough in that conversation?
Didn’t we talk about enough in that conversation?
Didn’t we talk about enough in that conversation?

11
00:32.000 --> 00:35.500
No! No no no no; 'cos 'cos obviously 'cos

12
00:32.500 --> 00:33.500
<i>Laughs</i>

13
00:35.500 --> 00:38.000
You know I’m so excited my glasses are falling off here.
        "
    .to_string();
    // the timestamps leave out the hours, which the cue-block format allows
    let content = format!("WEBVTT\n{fi}");
    let mut shifted = rsubs_lib::VTT::parse(&content).unwrap();
    let unshifted = rsubs_lib::VTT::parse(&content).unwrap();
    for line in shifted.lines.iter_mut() {
        line.end.shift(1000);
        line.start.shift(1000);
    }
    assert_eq!(shifted.lines.len(), 13);
    for (ctr, line) in shifted.lines.iter().enumerate() {
        assert_eq!(line.start.total_ms(), unshifted.lines[ctr].start.total_ms() + 1000);
        assert_eq!(line.end.total_ms(), unshifted.lines[ctr].end.total_ms() + 1000);
        assert_eq!(line.start.total_ms(), unshifted.lines[ctr].start.total_ms() + 1000_u32);
        assert_eq!(line.end.total_ms(), unshifted.lines[ctr].end.total_ms() + 1000_u32);
    }
}

#[test]
fn test_time_2() {
    let t0 = Time::parse("00:00:20.000", TimeFormat::Vtt).unwrap();
    assert_eq!((t0.hours(), t0.minutes(), t0.seconds(), t0.millis()), (0, 0, 20, 0));
    let t1 = Time::parse("00:01:20.011", TimeFormat::Vtt).unwrap();
    assert_eq!((t1.hours(), t1.minutes(), t1.seconds(), t1.millis()), (0, 1, 20, 11));
    let t2 = Time::parse("0:00:05,100", TimeFormat::Srt).unwrap();
    assert_eq!((t2.hours(), t2.minutes(), t2.seconds(), t2.millis()), (0, 0, 5, 100));
    let mut tr = t0;
    let mut plus = tr;
    plus.shift(1000);
    assert_eq!(plus.total_ms(), 21000_u32);
    let mut minus = tr;
    minus.shift(-1000);
    assert_eq!(minus.total_ms(), 19000_u32);
    tr.shift(1000);
    assert_eq!(tr.total_ms(), 21000_u32);
    tr.shift(1000);
    tr.shift(-1000);
    assert_eq!(tr.total_ms(), 21000_u32);
    tr.shift(-1000);
    assert_eq!(tr.total_ms(), 20000_u32);
    tr = Time::zero();
    assert_eq!(tr.total_ms(), 0_u32);
    tr.shift(22000);
    let mut b = tr;
    b.shift(100);
    assert_eq!(b.to_srt_string(), "00:00:22,100".to_string());
    b.shift(-100000);
    assert_eq!(b, Time::zero());
}

#[test]
fn colors_test() {
    let white = Color::new(255, 255, 255, 255);
    // an opaque color is written with six digits in both forms
    assert_eq!("&HFFFFFF", white.to_ssa_string());
    assert_eq!("#FFFFFF", white.to_vtt_string());
    assert_eq!(Color::from_ssa("&HFFFFFFFF"), Ok(white));
    assert_eq!(Color::from_vtt("#FFFFFFFF"), Ok(white));
    assert_eq!(Color::from_ssa("&HAA"), Ok(Color { r: 170, g: 0, b: 0, a: 255 }));
    assert_eq!(Color::from_ssa("&HAAAB"), Ok(Color { r: 171, g: 170, b: 0, a: 255 }));
    assert_eq!(Color::from_ssa("&HAAABAC"), Ok(Color { r: 172, g: 171, b: 170, a: 255 }));
    assert_eq!(Color::from_vtt("#AA"), Ok(Color { r: 170, g: 0, b: 0, a: 255 }));
    assert_eq!(Color::from_vtt("#AAAB"), Ok(Color { r: 170, g: 171, b: 0, a: 255 }));
    assert_eq!(Color::from_vtt("#AAABAC"), Ok(Color { r: 170, g: 171, b: 172, a: 255 }));
    let h = Color::from_vtt("#AAABACAD").unwrap();
    assert_eq!(h, Color { r: 171, g: 172, b: 173, a: 170 });
    // the web form writes the alpha last
    assert_eq!(h.to_vtt_string(), "#ABACADAA");
}
