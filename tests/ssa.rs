use rsubs_lib::{SSAErrorKind, SSA};

const SIMPLE: &str = r"[Script Info]

[V4+ Styles]
Format: Name,Fontname,Fontsize,PrimaryColour,SecondaryColour,OutlineColour,BackColour,Bold,Italic,Underline,Strikeout,ScaleX,ScaleY,Spacing,Angle,BorderStyle,Outline,Shadow,Alignment,MarginL,MarginR,MarginV,Encoding
Style: Default,Arial,25.5,&H00FFFFFF,&H00000000,&H00000000,&H00000000,0,0,0,0,120,120,0,0,1,1,1,2,0000,0000,0030,0

[Events]
Format: Layer,Start,End,Style,Name,MarginL,MarginR,MarginV,Effect,Text
Dialogue: 0,0:00:06.20,0:00:08.20,Default,,0000,0000,0000,,Lorem Ipsum1
Dialogue: 0,0:00:08.20,0:00:10.20,Default,,0000,0000,0000,,Lorem Ipsum2
Dialogue: 0,0:00:12.20,0:00:14.20,Default,,0000,0000,0000,,Lorem Ipsum3
Dialogue: 0,0:00:14.20,0:00:16.20,Default,,0000,0000,0000,,Lorem Ipsum4";

const STYLING_INLINE: &str = r"[Script Info]

[V4+ Styles]
Format: Name,Fontname,Fontsize,PrimaryColour,SecondaryColour,OutlineColour,BackColour,Bold,Italic,Underline,Strikeout,ScaleX,ScaleY,Spacing,Angle,BorderStyle,Outline,Shadow,Alignment,MarginL,MarginR,MarginV,Encoding
Style: Default,Arial,25.5,&H00FFFFFF,&H00000000,&H00000000,&H00000000,0,0,0,0,120,120,0,0,1,1,1,2,0000,0000,0030,0

[Events]
Format: Layer,Start,End,Style,Name,MarginL,MarginR,MarginV,Effect,Text
Dialogue: 0,0:00:00.20,0:00:02.20,Default,,0000,0000,0000,,{\i1}Lorem Ipsum1{\i0}
Dialogue: 0,0:00:02.20,0:00:04.20,Default,,0000,0000,0000,,{\u1}Lorem Ipsum2{\u0}
Dialogue: 0,0:00:06.20,0:00:08.20,Default,,0000,0000,0000,,{\c1}Lorem Ipsum3{\c0}
";

const STYLING_GLOBAL: &str = r"[Script Info]

[V4+ Styles]
Format: Name,Fontname,Fontsize,PrimaryColour,SecondaryColour,OutlineColour,BackColour,Bold,Italic,Underline,Strikeout,ScaleX,ScaleY,Spacing,Angle,BorderStyle,Outline,Shadow,Alignment,MarginL,MarginR,MarginV,Encoding
Style: Default,Arial,25.5,&H00FFFFFF,&H00000000,&H00000000,&H00000000,-1,0,0,0,120,120,0,0,1,1,1,2,0000,0000,0030,0

[Events]
Format: Layer,Start,End,Style,Name,MarginL,MarginR,MarginV,Effect,Text
Dialogue: 0,0:00:00.20,0:00:02.20,Default,,0000,0000,0000,,{\i1}Lorem Ipsum1{\i0}
Dialogue: 0,0:00:02.20,0:00:04.20,Default,,0000,0000,0000,,Lorem Ipsum2
Dialogue: 0,0:00:06.20,0:00:08.20,Default,,0000,0000,0000,,Lorem Ipsum3";

const MULTILINE: &str = r"[Script Info]

[V4+ Styles]
Format: Name,Fontname,Fontsize,PrimaryColour,SecondaryColour,OutlineColour,BackColour,Bold,Italic,Underline,Strikeout,ScaleX,ScaleY,Spacing,Angle,BorderStyle,Outline,Shadow,Alignment,MarginL,MarginR,MarginV,Encoding
Style: Default,Arial,25.5,&H00FFFFFF,&H00000000,&H00000000,&H00000000,0,0,0,0,120,120,0,0,1,1,1,2,0000,0000,0030,0

[Events]
Format: Layer,Start,End,Style,Name,MarginL,MarginR,MarginV,Effect,Text
Dialogue: 0,0:00:00.20,0:00:02.20,Default,,0000,0000,0000,,Lorem Ipsum1\NLorem Ipsum2\NLorem Ipsum3
Dialogue: 0,0:00:02.20,0:00:04.20,Default,,0000,0000,0000,,Lorem Ipsum4";

#[test]
fn ssa_convert_simple_to_srt() {
    let expected = r"1
00:00:06,200 --> 00:00:08,200
Lorem Ipsum1

2
00:00:08,200 --> 00:00:10,200
Lorem Ipsum2

3
00:00:12,200 --> 00:00:14,200
Lorem Ipsum3

4
00:00:14,200 --> 00:00:16,200
Lorem Ipsum4";
    let ssa = SSA::parse(SIMPLE).unwrap();
    assert_eq!(ssa.to_srt().to_string(), expected)
}

#[test]
fn ssa_convert_simple_to_vtt() {
    let expected = r"WEBVTT

1
00:00:06.200 --> 00:00:08.200
Lorem Ipsum1

2
00:00:08.200 --> 00:00:10.200
Lorem Ipsum2

3
00:00:12.200 --> 00:00:14.200
Lorem Ipsum3

4
00:00:14.200 --> 00:00:16.200
Lorem Ipsum4";
    let ssa = SSA::parse(SIMPLE).unwrap();
    assert_eq!(ssa.to_vtt().to_string(), expected)
}

#[test]
fn ssa_convert_styling_inline_to_srt() {
    let expected = r"1
00:00:00,200 --> 00:00:02,200
<i>Lorem Ipsum1</i>

2
00:00:02,200 --> 00:00:04,200
<u>Lorem Ipsum2</u>

3
00:00:06,200 --> 00:00:08,200
Lorem Ipsum3";
    let ssa = SSA::parse(STYLING_INLINE).unwrap();
    assert_eq!(ssa.to_srt().to_string(), expected)
}

#[test]
fn convert_styling_inline_to_vtt() {
    let expected = r"WEBVTT

1
00:00:00.200 --> 00:00:02.200
<i>Lorem Ipsum1</i>

2
00:00:02.200 --> 00:00:04.200
<u>Lorem Ipsum2</u>

3
00:00:06.200 --> 00:00:08.200
Lorem Ipsum3";
    let ssa = SSA::parse(STYLING_INLINE).unwrap();
    assert_eq!(ssa.to_vtt().to_string(), expected)
}

#[test]
fn ssa_convert_styling_global_to_srt() {
    let expected = r"1
00:00:00,200 --> 00:00:02,200
<b><i>Lorem Ipsum1</i></b>

2
00:00:02,200 --> 00:00:04,200
<b>Lorem Ipsum2</b>

3
00:00:06,200 --> 00:00:08,200
<b>Lorem Ipsum3</b>";
    let ssa = SSA::parse(STYLING_GLOBAL).unwrap();
    assert_eq!(ssa.to_srt().to_string(), expected)
}

#[test]
fn convert_styling_global_to_vtt() {
    let expected = r"WEBVTT

1
00:00:00.200 --> 00:00:02.200
<b><i>Lorem Ipsum1</i></b>

2
00:00:02.200 --> 00:00:04.200
<b>Lorem Ipsum2</b>

3
00:00:06.200 --> 00:00:08.200
<b>Lorem Ipsum3</b>";
    let ssa = SSA::parse(STYLING_GLOBAL).unwrap();
    assert_eq!(ssa.to_vtt().to_string(), expected)
}

#[test]
fn ssa_convert_multiline_to_srt() {
    let expected = r"1
00:00:00,200 --> 00:00:02,200
Lorem Ipsum1
Lorem Ipsum2
Lorem Ipsum3

2
00:00:02,200 --> 00:00:04,200
Lorem Ipsum4";
    let ssa = SSA::parse(MULTILINE).unwrap();
    assert_eq!(ssa.to_srt().to_string(), expected)
}

#[test]
fn ssa_convert_multiline_to_vtt() {
    let expected = r"WEBVTT

1
00:00:00.200 --> 00:00:02.200
Lorem Ipsum1
Lorem Ipsum2
Lorem Ipsum3

2
00:00:02.200 --> 00:00:04.200
Lorem Ipsum4";
    let ssa = SSA::parse(MULTILINE).unwrap();
    assert_eq!(ssa.to_vtt().to_string(), expected)
}

#[test]
fn invalid_start_block() {
    let ssa = r#"[Events]
Format: Layer,Start,End,Style,Name,MarginL,MarginR,MarginV,Effect,Text
Dialogue: 0,0:00:00.20,0:00:02.20,Default,,0000,0000,0000,,{\i1}Lorem Ipsum1{\i0}
Dialogue: 0,0:00:02.20,0:00:04.20,Default,,0000,0000,0000,,{\c1}Lorem Ipsum2{\c0}
Dialogue: 0,0:00:06.20,0:00:08.20,Default,,0000,0000,0000,,Lorem Ipsum3
Dialogue: 0,0:00:08.20,0:00:10.20,Default,,0000,0000,0000,,Lorem Ipsum4
Dialogue: 0,0:00:12.20,0:00:14.20,Default,,0000,0000,0000,,Lorem Ipsum5
Dialogue: 0,0:00:14.20,0:00:16.20,Default,,0000,0000,0000,,Lorem Ipsum6

[Script Info]

[V4+ Styles]
Format: Name,Fontname,Fontsize,PrimaryColour,SecondaryColour,OutlineColour,BackColour,Bold,Italic,Underline,Strikeout,ScaleX,ScaleY,Spacing,Angle,BorderStyle,Outline,Shadow,Alignment,MarginL,MarginR,MarginV,Encoding
Style: Default,Arial,25.5,&H00FFFFFF,&H00000000,&H00000000,&H00000000,-1,0,0,0,120,120,0,0,1,1,1,2,0000,0000,0030,0
Style: De2,Trebuchet MS,25.5,&H00FFFFFF,&H00000000,&H00000000,&H00000000,-1,0,0,0,120,120,0,0,1,1,1,2,0000,0000,0030,0
Style: De4,Trebuchet MS,25.5,&H00FFFFFF,&H00000000,&H00000000,&H00000000,-1,0,0,0,120,120,0,0,1,1,1,2,0000,0000,0030,0
"#;

    let err = SSA::parse(ssa).unwrap_err();
    assert_eq!(err.line(), 1);
    assert!(matches!(err.kind(), SSAErrorKind::Invalid))
}

#[test]
fn empty_block() {
    let ssa = r#"[Script Info]


[V4+ Styles]
Format: Name,Fontname,Fontsize,PrimaryColour,SecondaryColour,OutlineColour,BackColour,Bold,Italic,Underline,Strikeout,ScaleX,ScaleY,Spacing,Angle,BorderStyle,Outline,Shadow,Alignment,MarginL,MarginR,MarginV,Encoding
Style: Default,Arial,25.5,&H00FFFFFF,&H00000000,&H00000000,&H00000000,-1,0,0,0,120,120,0,0,1,1,1,2,0000,0000,0030,0
"#;

    let err = SSA::parse(ssa).unwrap_err();
    assert_eq!(err.line(), 3);
    assert!(matches!(err.kind(), SSAErrorKind::EmptyBlock))
}

#[test]
fn info_missing_delimiter() {
    let ssa = r#"[Script Info]
Collisions
"#;

    let err = SSA::parse(ssa).unwrap_err();
    assert_eq!(err.line(), 2);
    assert!(matches!(err.kind(), SSAErrorKind::Parse(_)))
}

#[test]
fn styles_missing_header() {
    let ssa = r#"[Script Info]

[V4+ Styles]
Format: Name,Fontname,Fontsize,PrimaryColour,SecondaryColour,OutlineColour,Bold,Italic,Underline,Strikeout,ScaleX,ScaleY,Spacing,Angle,BorderStyle,Outline,Shadow,Alignment,MarginL,MarginR,MarginV,Encoding
Style: Default,Arial,25.5,&H00FFFFFF,&H00000000,&H00000000,&H00000000,-1,0,0,0,120,120,0,0,1,1,1,2,0000,0000,0030,0
"#;

    let err = SSA::parse(ssa).unwrap_err();
    assert_eq!(err.line(), 4);
    assert_eq!(
        err.kind(),
        &SSAErrorKind::MissingHeader("BackColour".to_string())
    )
}

#[test]
fn styles_missing_field() {
    let ssa = r#"[Script Info]

[V4+ Styles]
Format: Name,Fontname,Fontsize,PrimaryColour,SecondaryColour,OutlineColour,BackColour,Bold,Italic,Underline,Strikeout,ScaleX,ScaleY,Spacing,Angle,BorderStyle,Outline,Shadow,Alignment,MarginL,MarginR,MarginV,Encoding
Style: Default,25.5,&H00FFFFFF,&H00000000,&H00000000,&H00000000,-1,0,0,0,120,120,0,0,1,1,1,2,0000,0000,0030,0
"#;

    let err = SSA::parse(ssa).unwrap_err();
    assert_eq!(err.line(), 5);
    assert!(matches!(err.kind(), SSAErrorKind::Parse(_)))
}

#[test]
fn styles_invalid_colors() {
    let colors = [
        "#00000000",
        "&H-1000000",
        "&H00-10000",
        "&H0000-100",
        "&H000000-1",
    ];

    for color in colors {
        let err = SSA::parse(&format!(r#"[Script Info]

[V4+ Styles]
Format: Name,Fontname,Fontsize,PrimaryColour,SecondaryColour,OutlineColour,BackColour,Bold,Italic,Underline,Strikeout,ScaleX,ScaleY,Spacing,Angle,BorderStyle,Outline,Shadow,Alignment,MarginL,MarginR,MarginV,Encoding
Style: Default,Arial,25.5,&H00FFFFFF,&H00000000,{color},&H00000000,-1,0,0,0,120,120,0,0,1,1,1,2,0000,0000,0030,0
"#)).unwrap_err();
        assert_eq!(err.line(), 5);
        assert!(matches!(err.kind(), SSAErrorKind::Parse(_)))
    }
}

#[test]
fn events_missing_header() {
    let ssa = r#"[Script Info]

[Events]
Format: Layer,Start,End,Style,Name,MarginL,MarginR,MarginV,Effect
Dialogue: 0,0:00:00.20,0:00:02.20,Default,,0000,0000,0000,,{\i1}Lorem Ipsum1{\i0}
"#;

    let err = SSA::parse(ssa).unwrap_err();
    assert_eq!(err.line(), 4);
    assert_eq!(err.kind(), &SSAErrorKind::MissingHeader("Text".to_string()))
}

#[test]
fn events_missing_field() {
    let ssa = r#"[Script Info]

[Events]
Format: Layer,Start,End,Style,Name,MarginL,MarginR,MarginV,Effect,Text
Dialogue: 0,0:00:00.20,0:00:02.20,Default,,0000,0000,,{\i1}Lorem Ipsum1{\i0}
"#;

    let err = SSA::parse(ssa).unwrap_err();
    assert_eq!(err.line(), 5);
    assert!(matches!(err.kind(), SSAErrorKind::Parse(_)))
}

#[test]
fn ssa_round_trip() {
    let ssa = SSA::parse(STYLING_GLOBAL).unwrap();
    let text = ssa.to_string();
    let again = SSA::parse(&text).unwrap();
    assert_eq!(ssa, again);
    assert_eq!(again.to_string(), text);
}

#[test]
fn ssa_reads_typed_info_and_columns() {
    let ssa = SSA::parse(
        "\u{feff}[Script Info]\n; comment\nTitle: Demo\nPlayResX: 640\nTimer: 100.0000\nWrapStyle: 1\nCustom: kept\n\n[V4+ Styles]\nFormat: Name,Fontname,Fontsize,PrimaryColour,SecondaryColour,OutlineColour,BackColour,Bold,Italic,Underline,StrikeOut,ScaleX,ScaleY,Spacing,Angle,BorderStyle,Outline,Shadow,Alignment,MarginL,MarginR,MarginV,Encoding\nStyle: Main,Arial,25.5,&H0000FF,&H80FF0000,&H00000000,&H00000000,-1,0,-1,0,100,100,1.5,-10,3,2,0,8,10,10,30,1\n\n[Events]\nFormat: Layer,Start,End,Style,Name,MarginL,MarginR,MarginV,Effect,Text\nComment: 1,0:00:01.50,1:02:03.04,Main,Bob,0,0,0,,Hello, world, again\n\n[Fonts]\nfontname: a.ttf\n\n[Unknown]\nwhatever",
    )
    .unwrap();
    assert_eq!(ssa.info.title, Some("Demo".to_string()));
    assert_eq!(ssa.info.play_res_x, Some(640));
    assert_eq!(ssa.info.wrap_style, Some(1));
    assert_eq!(ssa.info.timer.unwrap().to_string(), "100");
    assert_eq!(ssa.info.additional_fields, vec![("Custom".to_string(), "kept".to_string())]);
    let st = &ssa.styles[0];
    assert_eq!(st.primary_color, Some(rsubs_lib::Color::new(255, 0, 0, 255)));
    assert_eq!(st.secondary_color, Some(rsubs_lib::Color::new(0, 0, 255, 0x80)));
    assert_eq!(st.outline_color, Some(rsubs_lib::Color::new(0, 0, 0, 0)));
    assert!(st.bold && !st.italic && st.underline && !st.strikeout);
    assert_eq!(st.spacing.to_string(), "1.5");
    assert_eq!(st.angle.to_string(), "-10");
    assert_eq!(st.border_style, 3);
    assert_eq!(st.alignment, rsubs_lib::Alignment::TopCenter);
    let ev = &ssa.events[0];
    assert_eq!(ev.line_type, rsubs_lib::SSAEventLineType::Comment);
    assert_eq!(ev.layer, 1);
    assert_eq!(ev.start.total_ms(), 1_500);
    assert_eq!(ev.end.total_ms(), 3_723_040);
    assert_eq!(ev.text, "Hello, world, again");
    assert_eq!(ssa.fonts, vec!["a.ttf".to_string()]);
}

#[test]
fn ssa_invalid_alignment_is_an_error() {
    let err = SSA::parse("[Script Info]\n\n[V4+ Styles]\nFormat: Name,Fontname,Fontsize,PrimaryColour,SecondaryColour,OutlineColour,BackColour,Bold,Italic,Underline,StrikeOut,ScaleX,ScaleY,Spacing,Angle,BorderStyle,Outline,Shadow,Alignment,MarginL,MarginR,MarginV,Encoding\nStyle: Main,Arial,25.5,&H00FFFFFF,&H00000000,&H00000000,&H00000000,0,0,0,0,100,100,0,0,1,2,0,0,10,10,30,1").unwrap_err();
    assert_eq!(err.line(), 5);
    assert!(matches!(err.kind(), SSAErrorKind::Parse(_)));
}

#[test]
fn ssa_styles_without_rows_are_empty_block() {
    let err = SSA::parse("[Script Info]\n\n[V4+ Styles]\n; only a comment").unwrap_err();
    assert_eq!(err.line(), 4);
    assert_eq!(err.kind(), &SSAErrorKind::EmptyBlock);
}

#[test]
fn ssa_laughs_to_both_formats() {
    let ssa = SSA::parse("[Script Info]\n\n[Events]\nFormat: Layer,Start,End,Style,Name,MarginL,MarginR,MarginV,Effect,Text\nDialogue: 0,0:00:00.20,0:00:02.20,Default,,0,0,0,,{\\i1}Laughs{\\i0}").unwrap();
    assert_eq!(ssa.to_srt().lines[0].text, "<i>Laughs</i>");
    assert_eq!(ssa.to_vtt().lines[0].text, "<i>Laughs</i>");
}

#[test]
fn ssa_bold_style_wraps_text() {
    let ssa = SSA::parse(STYLING_GLOBAL).unwrap();
    assert_eq!(ssa.to_srt().lines[1].text, "<b>Lorem Ipsum2</b>");
}

#[test]
fn ssa_missing_style_is_not_an_error() {
    let ssa = SSA::parse("[Script Info]\n\n[Events]\nFormat: Layer,Start,End,Style,Name,MarginL,MarginR,MarginV,Effect,Text\nDialogue: 0,0:00:00.20,0:00:02.20,Nowhere,,0,0,0,,{\\b1}x{\\b0}{\\fs20}y").unwrap();
    assert_eq!(ssa.to_srt().lines[0].text, "<b>x</b>y");
}

#[test]
fn ssa_empty_colour_is_an_error() {
    let err = SSA::parse("[Script Info]\n\n[V4+ Styles]\nFormat: Name,Fontname,Fontsize,PrimaryColour,SecondaryColour,OutlineColour,BackColour,Bold,Italic,Underline,StrikeOut,ScaleX,ScaleY,Spacing,Angle,BorderStyle,Outline,Shadow,Alignment,MarginL,MarginR,MarginV,Encoding\nStyle: Main,Arial,25.5,&H00FFFFFF,,&H00000000,&H00000000,0,0,0,0,100,100,0,0,1,2,0,2,10,10,30,1").unwrap_err();
    assert_eq!(err.line(), 5);
    assert!(matches!(err.kind(), SSAErrorKind::Parse(_)));
}
