use vstd::prelude::*;
use vstd::string::StringSliceAdditionalSpecFns;

verus! {

/// Errors met while reading a chart.
#[derive(Debug, Clone, Copy, PartialEq, Eq, Structural)]
pub enum ChartParseError {
    /// The side token of a platform is neither `l` nor `r`.
    UnrecognizedIsLeftToken,
    /// The token names no note input type.
    UnrecognizedNoteInputType,
    /// The token names no platform type.
    UnrecognizedPlatformType,
    /// The token names no section tag.
    UnrecognizedTag,
}

/// The input a note asks for.
#[derive(Debug, Clone, Copy, PartialEq, Eq, Structural)]
pub enum NoteInputType {
    Tap1,
    Tap2,
    Tap3,
    Tap4,
    TapMove1,
    TapMove2,
    TapWidth,
}

/// The shapes of platform a chart can hold.
#[derive(Debug, Clone, Copy, PartialEq, Eq, Structural)]
pub enum PlatformType {
    DynamicQuad,
    DoubleSidedBezier,
    DoubleSidedParallelBezier,
    SingleSidedBezier,
}

/// The sections of a chart file.
#[derive(Debug, Clone, Copy, PartialEq, Eq, Structural)]
pub enum Tag {
    StartingBpm,
    StartingMeasure,
    Notes,
    Platforms,
    BpmChanges,
    MeasureChanges,
    PlayfieldChanges,
    MusicFilePath,
    MusicStartingOffset,
}

/// The note input type that token `t` names.
pub open spec fn spec_note_input_type(t: Seq<u8>) -> Option<NoteInputType> {
    if t == "T1".spec_bytes() {
        Some(NoteInputType::Tap1)
    } else if t == "T2".spec_bytes() {
        Some(NoteInputType::Tap2)
    } else if t == "T3".spec_bytes() {
        Some(NoteInputType::Tap3)
    } else if t == "T4".spec_bytes() {
        Some(NoteInputType::Tap4)
    } else if t == "TM1".spec_bytes() {
        Some(NoteInputType::TapMove1)
    } else if t == "TM2".spec_bytes() {
        Some(NoteInputType::TapMove2)
    } else if t == "TW".spec_bytes() {
        Some(NoteInputType::TapWidth)
    } else {
        None
    }
}

/// The platform type that token `t` names.
pub open spec fn spec_platform_type(t: Seq<u8>) -> Option<PlatformType> {
    if t == "DQ".spec_bytes() {
        Some(PlatformType::DynamicQuad)
    } else if t == "DSB".spec_bytes() {
        Some(PlatformType::DoubleSidedBezier)
    } else if t == "DSPB".spec_bytes() {
        Some(PlatformType::DoubleSidedParallelBezier)
    } else if t == "SSB".spec_bytes() {
        Some(PlatformType::SingleSidedBezier)
    } else {
        None
    }
}

/// The section tag that token `t` names.
pub open spec fn spec_tag(t: Seq<u8>) -> Option<Tag> {
    if t == "STARTING_BPM".spec_bytes() {
        Some(Tag::StartingBpm)
    } else if t == "STARTING_MEASURE".spec_bytes() {
        Some(Tag::StartingMeasure)
    } else if t == "BPM_CHANGES".spec_bytes() {
        Some(Tag::BpmChanges)
    } else if t == "MEASURE_CHANGES".spec_bytes() {
        Some(Tag::MeasureChanges)
    } else if t == "PLAYFIELD_CHANGES".spec_bytes() {
        Some(Tag::PlayfieldChanges)
    } else if t == "NOTES".spec_bytes() {
        Some(Tag::Notes)
    } else if t == "PLATFORMS".spec_bytes() {
        Some(Tag::Platforms)
    } else if t == "MUSIC_FILE_PATH".spec_bytes() {
        Some(Tag::MusicFilePath)
    } else if t == "MUSIC_STARTING_OFFSET".spec_bytes() {
        Some(Tag::MusicStartingOffset)
    } else {
        None
    }
}

/// Whether `s` is the token `lit`, byte for byte.
fn token_is(s: &str, lit: &str) -> (r: bool)
    ensures
        r == (s.spec_bytes() == lit.spec_bytes()),
{
    let a = s.as_bytes();
    let b = lit.as_bytes();
    if a.len() != b.len() {
        return false;
    }
    let mut i: usize = 0;
    while i < a.len()
        invariant
            a@ == s.spec_bytes(),
            b@ == lit.spec_bytes(),
            a@.len() == b@.len(),
            i <= a@.len(),
            forall|k: int| 0 <= k < i ==> #[trigger] a@[k] == b@[k],
        decreases a@.len() - i,
    {
        if a[i] != b[i] {
            assert(a@[i as int] != b@[i as int]);
            return false;
        }
        i = i + 1;
    }
    assert(a@ =~= b@);
    true
}

impl NoteInputType {
    /// Reads a note input token: `T1` to `T4`, `TM1`, `TM2` or `TW`.
    pub fn try_from_token(s: &str) -> (r: Result<NoteInputType, ChartParseError>)
        ensures
            match spec_note_input_type(s.spec_bytes()) {
                Some(t) => r == Ok::<NoteInputType, ChartParseError>(t),
                None => r == Err::<NoteInputType, ChartParseError>(ChartParseError::UnrecognizedNoteInputType),
            },
    {
        if token_is(s, "T1") {
            Ok(NoteInputType::Tap1)
        } else if token_is(s, "T2") {
            Ok(NoteInputType::Tap2)
        } else if token_is(s, "T3") {
            Ok(NoteInputType::Tap3)
        } else if token_is(s, "T4") {
            Ok(NoteInputType::Tap4)
        } else if token_is(s, "TM1") {
            Ok(NoteInputType::TapMove1)
        } else if token_is(s, "TM2") {
            Ok(NoteInputType::TapMove2)
        } else if token_is(s, "TW") {
            Ok(NoteInputType::TapWidth)
        } else {
            Err(ChartParseError::UnrecognizedNoteInputType)
        }
    }
}

impl PlatformType {
    /// Reads a platform type token: `DQ`, `DSB`, `DSPB` or `SSB`.
    pub fn try_from_token(s: &str) -> (r: Result<PlatformType, ChartParseError>)
        ensures
            match spec_platform_type(s.spec_bytes()) {
                Some(t) => r == Ok::<PlatformType, ChartParseError>(t),
                None => r == Err::<PlatformType, ChartParseError>(ChartParseError::UnrecognizedPlatformType),
            },
    {
        if token_is(s, "DQ") {
            Ok(PlatformType::DynamicQuad)
        } else if token_is(s, "DSB") {
            Ok(PlatformType::DoubleSidedBezier)
        } else if token_is(s, "DSPB") {
            Ok(PlatformType::DoubleSidedParallelBezier)
        } else if token_is(s, "SSB") {
            Ok(PlatformType::SingleSidedBezier)
        } else {
            Err(ChartParseError::UnrecognizedPlatformType)
        }
    }
}

impl Tag {
    /// Reads a section tag token.
    pub fn try_from_token(s: &str) -> (r: Result<Tag, ChartParseError>)
        ensures
            match spec_tag(s.spec_bytes()) {
                Some(t) => r == Ok::<Tag, ChartParseError>(t),
                None => r == Err::<Tag, ChartParseError>(ChartParseError::UnrecognizedTag),
            },
    {
        if token_is(s, "STARTING_BPM") {
            Ok(Tag::StartingBpm)
        } else if token_is(s, "STARTING_MEASURE") {
            Ok(Tag::StartingMeasure)
        } else if token_is(s, "BPM_CHANGES") {
            Ok(Tag::BpmChanges)
        } else if token_is(s, "MEASURE_CHANGES") {
            Ok(Tag::MeasureChanges)
        } else if token_is(s, "PLAYFIELD_CHANGES") {
            Ok(Tag::PlayfieldChanges)
        } else if token_is(s, "NOTES") {
            Ok(Tag::Notes)
        } else if token_is(s, "PLATFORMS") {
            Ok(Tag::Platforms)
        } else if token_is(s, "MUSIC_FILE_PATH") {
            Ok(Tag::MusicFilePath)
        } else if token_is(s, "MUSIC_STARTING_OFFSET") {
            Ok(Tag::MusicStartingOffset)
        } else {
            Err(ChartParseError::UnrecognizedTag)
        }
    }
}

/// Reads the side token of a platform: `l` is the left side, `r` the right.
pub fn parse_is_left(val: &str) -> (r: Result<bool, ChartParseError>)
    ensures
        val.spec_bytes() == seq![0x6Cu8] ==> r == Ok::<bool, ChartParseError>(true),
        val.spec_bytes() == seq![0x72u8] ==> r == Ok::<bool, ChartParseError>(false),
        val.spec_bytes() != seq![0x6Cu8] && val.spec_bytes() != seq![0x72u8]
            ==> r == Err::<bool, ChartParseError>(ChartParseError::UnrecognizedIsLeftToken),
{
    let bytes = val.as_bytes();
    if bytes.len() == 1 {
        let b = bytes[0];
        if b == 0x6C {
            assert(bytes@ =~= seq![0x6Cu8]);
            return Ok(true);
        } else if b == 0x72 {
            assert(bytes@ =~= seq![0x72u8]);
            return Ok(false);
        }
    }
    Err(ChartParseError::UnrecognizedIsLeftToken)
}

} // verus!
