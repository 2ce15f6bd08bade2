//! Inline markup between the formats: the override codes of the styled-script
//! format (`{\b1}`), the HTML-like tags of the other two (`<b>`), and the
//! patterns that strip what has no counterpart.
use vstd::prelude::*;
use crate::text::{chars_of, occurs_at, occurs_at_exec, push_all, string_of};

verus! {

/// Override codes: `{\` then at least one character, up to the next `}`.
pub open spec fn override_pattern() -> Seq<char> {
    "(?m)\\{\\\\.+?\\}"@
}

/// A voice tag at the start of a line.
pub open spec fn line_voice_pattern() -> Seq<char> {
    "(?m)^<v[^>]*>"@
}

/// A voice tag at the start of a line, capturing the speaker after the first blank.
pub open spec fn speaker_pattern() -> Seq<char> {
    "(?m)^<v.*?\\s(?P<speaker>.*?)>"@
}

/// Any tag.
pub open spec fn any_tag_pattern() -> Seq<char> {
    "<.*?>"@
}

/// Any tag but `<b>`, `<i>`, `<u>` and their closing forms.
pub open spec fn foreign_tag_pattern() -> Seq<char> {
    "<(?:[^biu/>]|/[^biu>]|[biu][^>]|/[biu][^>])[^>]*>"@
}

/// The patterns this library hands to the regex engine; each of them compiles.
pub open spec fn is_tag_pattern(p: Seq<char>) -> bool {
    p == override_pattern() || p == line_voice_pattern() || p == speaker_pattern() || p
        == any_tag_pattern() || p == foreign_tag_pattern()
}

/// What is left of `text` once every match of `pattern` is removed.
pub uninterp spec fn regex_erased(pattern: Seq<char>, text: Seq<char>) -> Seq<char>;

/// For each successive match of `pattern` in `text`: the text after the match,
/// and the group named `speaker`.
pub uninterp spec fn regex_captures(pattern: Seq<char>, text: Seq<char>) -> Seq<(Seq<char>, Seq<char>)>;

/// Relies on `regex::Regex::new`, which accepts each pattern of this library,
/// and `Regex::replace_all` with an empty replacement: every non-overlapping
/// match is removed; the result depends on the pattern and the text alone.
#[verifier::external_body]
pub(crate) fn erase_matches(pattern: &str, text: &str) -> (r: String)
    requires
        is_tag_pattern(pattern@),
    ensures
        r@ == regex_erased(pattern@, text@),
{
    regex::Regex::new(pattern).unwrap().replace_all(text, "").into_owned()
}

/// Relies on `regex::Regex::new`, which accepts each pattern of this library,
/// and `Regex::captures_iter`: for each successive match, the rest of the text
/// after it and the text of the group `speaker`.
#[verifier::external_body]
pub(crate) fn speaker_captures(pattern: &str, text: &str) -> (r: Vec<(String, String)>)
    requires
        pattern@ == speaker_pattern(),
    ensures
        r@.map_values(|p: (String, String)| (p.0@, p.1@)) == regex_captures(pattern@, text@),
{
    regex::Regex::new(pattern).unwrap().captures_iter(text).map(
        |c| (text[c.get(0).map_or(0, |m| m.end())..].to_string(), c.name("speaker").map_or(String::new(), |m| m.as_str().to_string())),
    ).collect()
}

/// `s[i..]` with every occurrence of `from` replaced by `to`, left to right.
pub open spec fn replaced_from(s: Seq<char>, from: Seq<char>, to: Seq<char>, i: int) -> Seq<char>
    decreases s.len() - i,
{
    if i < 0 || i >= s.len() {
        seq![]
    } else if from.len() > 0 && occurs_at(s, from, i) {
        to + replaced_from(s, from, to, i + from.len())
    } else {
        seq![s[i]] + replaced_from(s, from, to, i + 1)
    }
}

pub open spec fn replaced(s: Seq<char>, from: Seq<char>, to: Seq<char>) -> Seq<char> {
    replaced_from(s, from, to, 0)
}

/// `s` with every occurrence of `from` replaced by `to`, left to right.
pub fn replace_exec(s: &[char], from: &[char], to: &[char]) -> (r: Vec<char>)
    ensures
        r@ == replaced(s@, from@, to@),
{
    let n = s.len();
    let mut out: Vec<char> = Vec::new();
    let mut i: usize = 0;
    while i < n
        invariant
            n == s@.len(),
            i <= n,
            out@ + replaced_from(s@, from@, to@, i as int) == replaced(s@, from@, to@),
        decreases n - i,
    {
        let ghost before = out@;
        if from.len() > 0 && occurs_at_exec(s, from, i) {
            push_all(&mut out, to);
            assert(before + replaced_from(s@, from@, to@, i as int) =~= out@ + replaced_from(
                s@,
                from@,
                to@,
                i + from@.len(),
            ));
            i = i + from.len();
        } else {
            out.push(s[i]);
            assert(before + replaced_from(s@, from@, to@, i as int) =~= out@ + replaced_from(
                s@,
                from@,
                to@,
                i + 1,
            ));
            i = i + 1;
        }
    }
    assert(out@ + replaced_from(s@, from@, to@, i as int) =~= out@);
    out
}

fn replace_str(s: Vec<char>, from: &str, to: &str) -> (r: Vec<char>)
    ensures
        r@ == replaced(s@, from@, to@),
{
    let f = chars_of(from);
    let t = chars_of(to);
    replace_exec(s.as_slice(), f.as_slice(), t.as_slice())
}

/// Bold, italic and underline override codes as HTML-like tags.
pub open spec fn overrides_to_html(s: Seq<char>) -> Seq<char> {
    let s1 = replaced(s, "{\\b1}"@, "<b>"@);
    let s2 = replaced(s1, "{\\b0}"@, "</b>"@);
    let s3 = replaced(s2, "{\\i1}"@, "<i>"@);
    let s4 = replaced(s3, "{\\i0}"@, "</i>"@);
    let s5 = replaced(s4, "{\\u1}"@, "<u>"@);
    let s6 = replaced(s5, "{\\u0}"@, "</u>"@);
    replaced(s6, "\\N"@, "\n"@)
}

/// Turns the bold, italic and underline override codes of a script-format
/// text into HTML-like tags, and its `\N` line breaks into literal ones.
pub fn overrides_to_html_exec(s: &str) -> (r: String)
    ensures
        r@ == overrides_to_html(s@),
{
    let v = chars_of(s);
    let v = replace_str(v, "{\\b1}", "<b>");
    let v = replace_str(v, "{\\b0}", "</b>");
    let v = replace_str(v, "{\\i1}", "<i>");
    let v = replace_str(v, "{\\i0}", "</i>");
    let v = replace_str(v, "{\\u1}", "<u>");
    let v = replace_str(v, "{\\u0}", "</u>");
    let v = replace_str(v, "\\N", "\n");
    string_of(v.as_slice())
}

/// Bold, italic, strikeout and underline tags as override codes.
pub open spec fn html_to_overrides(s: Seq<char>) -> Seq<char> {
    let s1 = replaced(s, "<b>"@, "{\\b1}"@);
    let s2 = replaced(s1, "</b>"@, "{\\b0}"@);
    let s3 = replaced(s2, "<i>"@, "{\\i1}"@);
    let s4 = replaced(s3, "</i>"@, "{\\i0}"@);
    let s5 = replaced(s4, "<s>"@, "{\\s1}"@);
    let s6 = replaced(s5, "</s>"@, "{\\s0}"@);
    let s7 = replaced(s6, "<u>"@, "{\\u1}"@);
    replaced(s7, "</u>"@, "{\\u0}"@)
}

/// Turns bold, italic, strikeout and underline tags into override codes.
pub fn html_to_overrides_exec(s: &str) -> (r: String)
    ensures
        r@ == html_to_overrides(s@),
{
    let v = chars_of(s);
    let v = replace_str(v, "<b>", "{\\b1}");
    let v = replace_str(v, "</b>", "{\\b0}");
    let v = replace_str(v, "<i>", "{\\i1}");
    let v = replace_str(v, "</i>", "{\\i0}");
    let v = replace_str(v, "<s>", "{\\s1}");
    let v = replace_str(v, "</s>", "{\\s0}");
    let v = replace_str(v, "<u>", "{\\u1}");
    let v = replace_str(v, "</u>", "{\\u0}");
    string_of(v.as_slice())
}

/// Line breaks (`\r\n` or `\n`) as the script format's `\N`.
pub open spec fn escape_breaks(s: Seq<char>) -> Seq<char> {
    replaced(replaced(s, "\r\n"@, "\\N"@), "\n"@, "\\N"@)
}

/// Writes the line breaks of a text as the script format's `\N`.
pub fn escape_breaks_exec(s: &str) -> (r: String)
    ensures
        r@ == escape_breaks(s@),
{
    let v = chars_of(s);
    let v = replace_str(v, "\r\n", "\\N");
    let v = replace_str(v, "\n", "\\N");
    string_of(v.as_slice())
}

/// `text` inside `<b>`, then `<i>`, then `<u>`, as each flag asks.
pub open spec fn wrap_tags(text: Seq<char>, bold: bool, italic: bool, underline: bool) -> Seq<char> {
    let t1 = if bold { "<b>"@ + text + "</b>"@ } else { text };
    let t2 = if italic { "<i>"@ + t1 + "</i>"@ } else { t1 };
    if underline { "<u>"@ + t2 + "</u>"@ } else { t2 }
}

/// Wraps a whole text in the tags of the flags that are set: bold innermost,
/// underline outermost.
pub fn wrap_tags_exec(text: &str, bold: bool, italic: bool, underline: bool) -> (r: String)
    ensures
        r@ == wrap_tags(text@, bold, italic, underline),
{
    let mut t = chars_of(text);
    if bold {
        let mut w = chars_of("<b>");
        push_all(&mut w, t.as_slice());
        push_all(&mut w, chars_of("</b>").as_slice());
        t = w;
    }
    if italic {
        let mut w = chars_of("<i>");
        push_all(&mut w, t.as_slice());
        push_all(&mut w, chars_of("</i>").as_slice());
        t = w;
    }
    if underline {
        let mut w = chars_of("<u>");
        push_all(&mut w, t.as_slice());
        push_all(&mut w, chars_of("</u>").as_slice());
        t = w;
    }
    string_of(t.as_slice())
}

/// The text and speaker of a cue, given the speaker captures of its text and
/// its text with every such match removed: with one match, the text after it
/// and its speaker; with more, the text without them and no speaker; with none,
/// the text as it is.
pub open spec fn voice_split(text: Seq<char>, caps: Seq<(Seq<char>, Seq<char>)>, erased: Seq<char>) -> (Seq<char>, Seq<char>) {
    if caps.len() >= 2 {
        (erased, seq![])
    } else if caps.len() == 1 {
        caps[0]
    } else {
        (text, seq![])
    }
}

/// Splits the speaker off a cue text; see [`voice_split`].
pub fn voice_split_exec(text: &str, caps: &Vec<(String, String)>, erased: &str) -> (r: (String, String))
    ensures
        (r.0@, r.1@) == voice_split(text@, caps@.map_values(|p: (String, String)| (p.0@, p.1@)), erased@),
{
    if caps.len() >= 2 {
        (string_of(chars_of(erased).as_slice()), String::new())
    } else if caps.len() == 1 {
        (string_of(chars_of(caps[0].0.as_str()).as_slice()), string_of(chars_of(caps[0].1.as_str()).as_slice()))
    } else {
        (string_of(chars_of(text).as_slice()), String::new())
    }
}

} // verus!
