use rsubs_lib::{SRTErrorKind, SRT};

const SIMPLE: &str = r#"1
00:00:11,000 --> 00:00:13,000
We are in New York City

2
00:00:13,000 --> 00:00:16,000
We’re actually at the Lucern Hotel, just down the street

3
00:00:16,000 --> 00:00:18,000
from the American Museum of Natural History

4
00:00:18,000 --> 00:00:20,000
And with me is Neil deGrasse Tyson

5
00:00:20,000 --> 00:00:22,000
Astrophysicist, Director of the Hayden Planetarium
"#;

const STYLING: &str = "1
00:00:32,000 --> 00:00:35,500
No! No no no no; 'cos 'cos obviously 'cos

2
00:00:32,500 --> 00:00:33,500
<i>Laughs</i>

3
00:00:35,500 --> 00:00:38,000
You know I’m so excited my glasses are falling off here.";

const MULTILINE: &str = "1
00:00:30,500 --> 00:00:32,500
Didn’t we talk about enough in that conversation?
Didn’t we talk about enough in that conversation?
Didn’t we talk about enough in that conversation?";

#[test]
fn srt_convert_simple_to_vtt() {
    let expected = r"WEBVTT

1
00:00:11.000 --> 00:00:13.000
We are in New York City

2
00:00:13.000 --> 00:00:16.000
We’re actually at the Lucern Hotel, just down the street

3
00:00:16.000 --> 00:00:18.000
from the American Museum of Natural History

4
00:00:18.000 --> 00:00:20.000
And with me is Neil deGrasse Tyson

5
00:00:20.000 --> 00:00:22.000
Astrophysicist, Director of the Hayden Planetarium";
    let srt = SRT::parse(SIMPLE).unwrap();
    assert_eq!(srt.to_vtt().to_string(), expected)
}

#[test]
fn convert_styling_to_vtt() {
    let expected = r"WEBVTT

1
00:00:32.000 --> 00:00:35.500
No! No no no no; 'cos 'cos obviously 'cos

2
00:00:32.500 --> 00:00:33.500
<i>Laughs</i>

3
00:00:35.500 --> 00:00:38.000
You know I’m so excited my glasses are falling off here.";
    let srt = SRT::parse(STYLING).unwrap();
    assert_eq!(srt.to_vtt().to_string(), expected)
}

#[test]
fn srt_convert_multiline_to_vtt() {
    let expected = r"WEBVTT

1
00:00:30.500 --> 00:00:32.500
Didn’t we talk about enough in that conversation?
Didn’t we talk about enough in that conversation?
Didn’t we talk about enough in that conversation?";
    let srt = SRT::parse(MULTILINE).unwrap();
    assert_eq!(srt.to_vtt().to_string(), expected)
}

#[test]
fn missing_sequence_number() {
    let srt = r#"1
00:00:11,000 --> 00:00:13,000
We are in New York City

2
00:00:13,000 --> 00:00:16,000
We’re actually at the Lucern Hotel, just down the street

00:00:16,000 --> 00:00:18,000
from the American Museum of Natural History

4
00:00:18,000 --> 00:00:20,000
And with me is Neil deGrasse Tyson
"#;

    let err = SRT::parse(srt).unwrap_err();
    assert_eq!(err.line(), 9);
    assert!(matches!(err.kind(), SRTErrorKind::Parse(_)))
}

#[test]
fn missing_time_range() {
    let srt = r#"1
We are in New York City
"#;

    let err = SRT::parse(srt).unwrap_err();
    assert_eq!(err.line(), 2);
    assert!(matches!(err.kind(), SRTErrorKind::Parse(_)))
}

#[test]
fn invalid_from_time() {
    let srt = r#"1
00:00:11,000 -->
We are in New York City
"#;

    let err = SRT::parse(srt).unwrap_err();
    assert_eq!(err.line(), 2);
    assert!(matches!(err.kind(), SRTErrorKind::Parse(_)))
}

#[test]
fn invalid_to_time() {
    let srt = r#"1
--> 00:00:13,000
We are in New York City
"#;

    let err = SRT::parse(srt).unwrap_err();
    assert_eq!(err.line(), 2);
    assert!(matches!(err.kind(), SRTErrorKind::Parse(_)))
}

#[test]
fn srt_block_to_vtt_cue() {
    let srt = SRT::parse("1\n00:00:11,000 --> 00:00:13,000\nWe are in New York City").unwrap();
    let vtt = srt.to_vtt();
    assert_eq!(vtt.lines.len(), 1);
    assert_eq!(vtt.lines[0].identifier, Some("1".to_string()));
    assert_eq!(
        vtt.to_string(),
        "WEBVTT\n\n1\n00:00:11.000 --> 00:00:13.000\nWe are in New York City"
    );
}

#[test]
fn srt_round_trip() {
    let srt = SRT::parse(SIMPLE).unwrap();
    let again = SRT::parse(&srt.to_string()).unwrap();
    assert_eq!(srt, again);
    assert_eq!(srt.lines.len(), 5);
    assert_eq!(srt.lines[1].start.total_ms(), 13_000);
    assert_eq!(srt.lines[1].end.total_ms(), 16_000);
}

#[test]
fn srt_keeps_sequence_numbers_and_line_breaks() {
    let srt = SRT::parse("7\n00:00:01,000 --> 00:00:02,500\nfirst\nsecond\n\n\n\n9\n00:00:03,000 --> 00:00:04,000\nthird\n").unwrap();
    assert_eq!(srt.lines.len(), 2);
    assert_eq!(srt.lines[0].sequence_number, 7);
    assert_eq!(srt.lines[0].text, "first\nsecond");
    assert_eq!(
        srt.to_string(),
        "7\n00:00:01,000 --> 00:00:02,500\nfirst\nsecond\n\n9\n00:00:03,000 --> 00:00:04,000\nthird"
    );
}

#[test]
fn srt_error_line_counts_blank_lines() {
    let err = SRT::parse("1\n00:00:01,000 --> 00:00:02,000\na\n\n\nx\n00:00:03,000 --> 00:00:04,000\nb").unwrap_err();
    assert_eq!(err.line(), 6);
    assert!(matches!(err.kind(), SRTErrorKind::Parse(_)));
}

#[test]
fn srt_empty_input() {
    let srt = SRT::parse("").unwrap();
    assert!(srt.lines.is_empty());
    assert_eq!(srt.to_string(), "");
}

#[test]
fn srt_to_ssa_escapes_line_breaks() {
    let srt = SRT::parse(MULTILINE).unwrap();
    let ssa = srt.to_ssa();
    assert_eq!(ssa.events.len(), 1);
    assert_eq!(
        ssa.events[0].text,
        "Didn’t we talk about enough in that conversation?\\NDidn’t we talk about enough in that conversation?\\NDidn’t we talk about enough in that conversation?"
    );
    assert_eq!(ssa.events[0].style, "Default");
}

#[test]
fn srt_to_ssa_translates_tags() {
    let srt = SRT::parse(STYLING).unwrap();
    let ssa = srt.to_ssa();
    assert_eq!(ssa.events[1].text, "{\\i1}Laughs{\\i0}");
    assert_eq!(ssa.styles.len(), 1);
    assert_eq!(ssa.styles[0].name, "Default");
}

#[test]
fn srt_convert_simple_to_ssa() {
    let expected = r"[Script Info]

[V4+ Styles]
Format: Name,Fontname,Fontsize,PrimaryColour,SecondaryColour,OutlineColour,BackColour,Bold,Italic,Underline,StrikeOut,ScaleX,ScaleY,Spacing,Angle,BorderStyle,Outline,Shadow,Alignment,MarginL,MarginR,MarginV,Encoding
Style: Default,Arial,20,&HFFFFFF,&H000000,&H00000000,&H00000000,0,0,0,0,120,120,0,0,1,1,1,2,0,0,20,0

[Events]
Format: Layer,Start,End,Style,Name,MarginL,MarginR,MarginV,Effect,Text
Dialogue: 0,0:00:11.00,0:00:13.00,Default,,0,0,0,,We are in New York City
Dialogue: 0,0:00:13.00,0:00:16.00,Default,,0,0,0,,We’re actually at the Lucern Hotel, just down the street
Dialogue: 0,0:00:16.00,0:00:18.00,Default,,0,0,0,,from the American Museum of Natural History
Dialogue: 0,0:00:18.00,0:00:20.00,Default,,0,0,0,,And with me is Neil deGrasse Tyson
Dialogue: 0,0:00:20.00,0:00:22.00,Default,,0,0,0,,Astrophysicist, Director of the Hayden Planetarium";
    let srt = SRT::parse(SIMPLE).unwrap();
    assert_eq!(srt.to_ssa().to_string(), expected)
}

#[test]
fn convert_styling_to_ssa() {
    let expected = r"[Script Info]

[V4+ Styles]
Format: Name,Fontname,Fontsize,PrimaryColour,SecondaryColour,OutlineColour,BackColour,Bold,Italic,Underline,StrikeOut,ScaleX,ScaleY,Spacing,Angle,BorderStyle,Outline,Shadow,Alignment,MarginL,MarginR,MarginV,Encoding
Style: Default,Arial,20,&HFFFFFF,&H000000,&H00000000,&H00000000,0,0,0,0,120,120,0,0,1,1,1,2,0,0,20,0

[Events]
Format: Layer,Start,End,Style,Name,MarginL,MarginR,MarginV,Effect,Text
Dialogue: 0,0:00:32.00,0:00:35.50,Default,,0,0,0,,No! No no no no; 'cos 'cos obviously 'cos
Dialogue: 0,0:00:32.50,0:00:33.50,Default,,0,0,0,,{\i1}Laughs{\i0}
Dialogue: 0,0:00:35.50,0:00:38.00,Default,,0,0,0,,You know I’m so excited my glasses are falling off here.";
    let srt = SRT::parse(STYLING).unwrap();
    assert_eq!(srt.to_ssa().to_string(), expected)
}

#[test]
fn srt_convert_multiline_to_ssa() {
    let expected = r"[Script Info]

[V4+ Styles]
Format: Name,Fontname,Fontsize,PrimaryColour,SecondaryColour,OutlineColour,BackColour,Bold,Italic,Underline,StrikeOut,ScaleX,ScaleY,Spacing,Angle,BorderStyle,Outline,Shadow,Alignment,MarginL,MarginR,MarginV,Encoding
Style: Default,Arial,20,&HFFFFFF,&H000000,&H00000000,&H00000000,0,0,0,0,120,120,0,0,1,1,1,2,0,0,20,0

[Events]
Format: Layer,Start,End,Style,Name,MarginL,MarginR,MarginV,Effect,Text
Dialogue: 0,0:00:30.50,0:00:32.50,Default,,0,0,0,,Didn’t we talk about enough in that conversation?\NDidn’t we talk about enough in that conversation?\NDidn’t we talk about enough in that conversation?";
    let srt = SRT::parse(MULTILINE).unwrap();
    assert_eq!(srt.to_ssa().to_string(), expected)
}
