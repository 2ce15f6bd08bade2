//! Parsing, writing and converting subtitles in three formats: the
//! sequential-cue format (`.srt`), the styled-script format (`.ssa`/`.ass`)
//! and the cue-block format (`.vtt`).
use vstd::prelude::*;

pub mod text;
pub mod time;
pub mod color;
pub mod decimal;
pub mod srt;
pub mod vtt;
pub mod ssa;
pub mod tags;
pub mod convert;
pub mod laws;

pub use color::{Color, ColorError};
pub use decimal::Decimal;
pub use srt::{SRTError, SRTErrorKind, SRTLine, SRT};
pub use ssa::{
    Alignment, SSAError, SSAErrorKind, SSAEvent, SSAEventLineType, SSAInfo, SSAStyle, SSA,
};
pub use time::{Time, TimeError, TimeFormat};
pub use vtt::{VTTError, VTTErrorKind, VTTLine, VTTRegion, VTTStyle, VTT};

verus! {

} // verus!
