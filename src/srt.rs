//! The sequential-cue format: numbered blocks of a sequence number, a time
//! range `HH:MM:SS,mmm --> HH:MM:SS,mmm` and text lines, separated by blank lines.
use vstd::prelude::*;
use crate::text::{
    blocks, blocks_exec, chars_of, decimal, decimal_exec, join, lemma_lines_len, lines,
    lines_exec, parse_u32, push_all, push_joined, push_str, slice_of, split_once,
    split_once_exec, string_of, trim, trim_exec, u32_text, views,
};
use crate::time::{parse_time_chars, parse_time_spec, Time, TimeFormat};

verus! {

/// One cue: its sequence number, its time range and its text (which may hold line breaks).
#[derive(Clone, Debug, PartialEq, Eq)]
pub struct SRTLine {
    pub sequence_number: u32,
    pub start: Time,
    pub end: Time,
    pub text: String,
}

/// The mathematical content of an [`SRTLine`].
pub ghost struct SRTLineView {
    pub sequence_number: u32,
    pub start: Time,
    pub end: Time,
    pub text: Seq<char>,
}

impl View for SRTLine {
    type V = SRTLineView;

    open spec fn view(&self) -> SRTLineView {
        SRTLineView {
            sequence_number: self.sequence_number,
            start: self.start,
            end: self.end,
            text: self.text@,
        }
    }
}

/// A sequential-cue document: its cues in order.
#[derive(Clone, Debug, PartialEq, Eq)]
pub struct SRT {
    pub lines: Vec<SRTLine>,
}

impl View for SRT {
    type V = Seq<SRTLineView>;

    open spec fn view(&self) -> Seq<SRTLineView> {
        self.lines@.map_values(|l: SRTLine| l@)
    }
}

#[derive(Clone, Debug, PartialEq, Eq)]
pub enum SRTErrorKind {
    Parse(String),
}

/// A parse failure and the 1-based line where it was found.
#[derive(Clone, Debug, PartialEq, Eq)]
pub struct SRTError {
    pub line: usize,
    pub kind: SRTErrorKind,
}

impl SRTError {
    pub open spec fn spec_line(&self) -> usize {
        self.line
    }

    pub fn line(&self) -> (r: usize)
        ensures
            r == self.spec_line(),
    {
        self.line
    }

    pub fn kind(&self) -> &SRTErrorKind {
        &self.kind
    }
}

pub open spec fn arrow() -> Seq<char> {
    seq!['-', '-', '>']
}

/// The cue that lines `[a, b)` hold, or the 1-based line of the first fault.
pub open spec fn srt_block_spec(ls: Seq<Seq<char>>, a: int, b: int) -> Result<SRTLineView, int> {
    match u32_text(trim(ls[a])) {
        None => Err(a + 1),
        Some(n) => if b - a < 2 {
            Err(a + 2)
        } else {
            match split_once(ls[a + 1], arrow()) {
                None => Err(a + 2),
                Some(p) => match (parse_time_spec(trim(p.0), TimeFormat::Srt), parse_time_spec(trim(p.1), TimeFormat::Srt)) {
                    (Some(st), Some(en)) => Ok(
                        SRTLineView {
                            sequence_number: n,
                            start: st,
                            end: en,
                            text: join(ls.subrange(a + 2, b), seq!['\n']),
                        },
                    ),
                    _ => Err(a + 2),
                },
            }
        },
    }
}

/// The cues of blocks `k..` of lines `ls`, or the line of the first fault.
pub open spec fn srt_blocks_from(ls: Seq<Seq<char>>, bs: Seq<(int, int)>, k: int) -> Result<Seq<SRTLineView>, int>
    decreases bs.len() - k,
{
    if k < 0 || k >= bs.len() {
        Ok(seq![])
    } else {
        match srt_block_spec(ls, bs[k].0, bs[k].1) {
            Err(e) => Err(e),
            Ok(l) => match srt_blocks_from(ls, bs, k + 1) {
                Ok(rest) => Ok(seq![l] + rest),
                Err(e) => Err(e),
            },
        }
    }
}

/// What parsing a sequential-cue text gives: its cues, or the line of the first fault.
pub open spec fn srt_parse_spec(s: Seq<char>) -> Result<Seq<SRTLineView>, int> {
    let ls = lines(s);
    srt_blocks_from(ls, blocks(ls), 0)
}

/// The text of one cue: number, time range and text on their own lines.
pub open spec fn srt_block_text(l: SRTLineView) -> Seq<char> {
    decimal(l.sequence_number as nat) + seq!['\n'] + l.start.spec_format(TimeFormat::Srt) + seq![' ']
        + arrow() + seq![' '] + l.end.spec_format(TimeFormat::Srt) + seq!['\n'] + l.text
}

/// The text of a document: its cues, with a blank line between each two.
/// Each cue keeps its own sequence number.
pub open spec fn srt_text(d: Seq<SRTLineView>) -> Seq<char> {
    join(d.map_values(|l: SRTLineView| srt_block_text(l)), seq!['\n', '\n'])
}

pub open spec fn prepend_ok<T>(acc: Seq<T>, r: Result<Seq<T>, int>) -> Result<Seq<T>, int> {
    match r {
        Ok(v) => Ok(acc + v),
        Err(e) => Err(e),
    }
}

fn block_chars(l: &SRTLine) -> (r: Vec<char>)
    ensures
        r@ == srt_block_text(l@),
{
    let mut out: Vec<char> = Vec::new();
    let num = decimal_exec(l.sequence_number as u64);
    push_all(&mut out, num.as_slice());
    out.push('\n');
    push_all(&mut out, l.start.format_chars(TimeFormat::Srt).as_slice());
    out.push(' ');
    out.push('-');
    out.push('-');
    out.push('>');
    out.push(' ');
    push_all(&mut out, l.end.format_chars(TimeFormat::Srt).as_slice());
    out.push('\n');
    push_str(&mut out, l.text.as_str());
    assert(out@ =~= srt_block_text(l@));
    out
}

fn parse_srt_block(ls: &Vec<Vec<char>>, a: usize, b: usize) -> (r: Result<SRTLine, (usize, String)>)
    requires
        a < b <= ls@.len(),
        ls@.len() < usize::MAX,
    ensures
        match r {
            Ok(l) => srt_block_spec(views(ls@), a as int, b as int) == Ok::<SRTLineView, int>(l@),
            Err(e) => srt_block_spec(views(ls@), a as int, b as int) == Err::<SRTLineView, int>(e.0 as int),
        },
{
    let ghost v = views(ls@);
    assert(v[a as int] == ls@[a as int]@);
    let first = trim_exec(ls[a].as_slice());
    let n = match parse_u32(first.as_slice()) {
        Some(n) => n,
        None => return Err((a + 1, String::from_str("invalid sequence number"))),
    };
    if b - a < 2 {
        return Err((a + 2, String::from_str("missing time range")));
    }
    assert(v[a + 1] == ls@[a + 1]@);
    let arrow_v = chars_of("-->");
    proof {
        reveal_strlit("-->");
        assert(arrow_v@ =~= arrow());
    }
    let (x, y) = match split_once_exec(ls[a + 1].as_slice(), arrow_v.as_slice()) {
        Some(p) => p,
        None => return Err((a + 2, String::from_str("invalid time range"))),
    };
    let xs = trim_exec(x.as_slice());
    let ys = trim_exec(y.as_slice());
    let start = match parse_time_chars(xs.as_slice(), TimeFormat::Srt) {
        Some(t) => t,
        None => return Err((a + 2, String::from_str("invalid start time"))),
    };
    let end = match parse_time_chars(ys.as_slice(), TimeFormat::Srt) {
        Some(t) => t,
        None => return Err((a + 2, String::from_str("invalid end time"))),
    };
    let mut text: Vec<char> = Vec::new();
    let nl = vec!['\n'];
    push_joined(&mut text, ls, a + 2, b, nl.as_slice());
    assert(nl@ =~= seq!['\n']);
    assert(text@ =~= join(v.subrange(a + 2, b as int), seq!['\n']));
    Ok(SRTLine { sequence_number: n, start, end, text: string_of(text.as_slice()) })
}

impl SRT {
    /// Parses a sequential-cue text.
    pub fn parse(content: &str) -> (r: Result<SRT, SRTError>)
        requires
            content@.len() < usize::MAX,
        ensures
            match r {
                Ok(d) => srt_parse_spec(content@) == Ok::<Seq<SRTLineView>, int>(d@),
                Err(e) => srt_parse_spec(content@) == Err::<Seq<SRTLineView>, int>(e.spec_line() as int)
                    && e.kind is Parse,
            },
    {
        let cs = chars_of(content);
        let ls = lines_exec(cs.as_slice());
        proof {
            lemma_lines_len(cs@, 0);
        }
        let ghost v = views(ls@);
        assert(v.len() == ls@.len());
        let bs = blocks_exec(&ls);
        let mut out: Vec<SRTLine> = Vec::new();
        let mut k: usize = 0;
        let ghost bv = blocks(v);
        while k < bs.len()
            invariant
                v == views(ls@),
                v == lines(content@),
                bv == blocks(v),
                ls@.len() < usize::MAX,
                bs@.len() == bv.len(),
                forall|j: int|
                    0 <= j < bs@.len() ==> (#[trigger] bs@[j]).0 as int == bv[j].0 && bs@[j].1 as int
                        == bv[j].1,
                forall|j: int| 0 <= j < bs@.len() ==> (#[trigger] bs@[j]).0 < bs@[j].1 <= ls@.len(),
                k <= bs@.len(),
                prepend_ok(out@.map_values(|l: SRTLine| l@), srt_blocks_from(v, bv, k as int)) == srt_parse_spec(content@),
            decreases bs.len() - k,
        {
            let (a, b) = bs[k];
            match parse_srt_block(&ls, a, b) {
                Ok(l) => {
                    let ghost before = out@.map_values(|l: SRTLine| l@);
                    out.push(l);
                    assert(out@.map_values(|l: SRTLine| l@) =~= before.push(l@));
                    proof {
                        match srt_blocks_from(v, bv, k + 1) {
                            Ok(rest) => {
                                assert(before.push(l@) + rest =~= before + (seq![l@] + rest));
                            },
                            Err(_) => {},
                        }
                    }
                },
                Err(e) => {
                    return Err(SRTError { line: e.0, kind: SRTErrorKind::Parse(e.1) });
                },
            }
            k += 1;
        }
        assert(out@.map_values(|l: SRTLine| l@) + seq![] =~= out@.map_values(|l: SRTLine| l@));
        Ok(SRT { lines: out })
    }

    /// The document as text: each cue as number, time range and text, with a
    /// blank line between cues. Sequence numbers are written as they are held.
    pub fn to_string(&self) -> (r: String)
        ensures
            r@ == srt_text(self@),
    {
        let mut out: Vec<char> = Vec::new();
        let mut i: usize = 0;
        let ghost d = self@;
        let ghost parts = d.map_values(|l: SRTLineView| srt_block_text(l));
        while i < self.lines.len()
            invariant
                i <= self.lines@.len(),
                d == self@,
                parts == d.map_values(|l: SRTLineView| srt_block_text(l)),
                out@ == join(parts.take(i as int), seq!['\n', '\n']),
            decreases self.lines.len() - i,
        {
            let ghost before = out@;
            if i > 0 {
                out.push('\n');
                out.push('\n');
            }
            let l = &self.lines[i];
            let blk = block_chars(l);
            push_all(&mut out, blk.as_slice());
            proof {
                let p = parts.take(i + 1);
                assert(p.drop_last() =~= parts.take(i as int));
                assert(p.last() == srt_block_text(l@));
                if i == 0 {
                    assert(out@ =~= srt_block_text(l@));
                } else {
                    assert(out@ =~= before + seq!['\n', '\n'] + srt_block_text(l@));
                }
            }
            i += 1;
        }
        assert(parts.take(self.lines@.len() as int) =~= parts);
        string_of(out.as_slice())
    }
}

} // verus!
