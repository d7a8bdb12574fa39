use chizumu_graphics::chart::{parse_is_left, ChartParseError, NoteInputType, PlatformType, Tag};
use chizumu_graphics::input::{
    key_binding, mouse_binding, ElementState, KeyCode, MouseButton, RhythmControlInput, RhythmControlInputState,
    RhythmControlState,
};
use chizumu_graphics::platform::DrawRange;

#[test]
fn is_left_tokens() {
    assert_eq!(parse_is_left("l"), Ok(true));
    assert_eq!(parse_is_left("r"), Ok(false));
    assert_eq!(parse_is_left("x"), Err(ChartParseError::UnrecognizedIsLeftToken));
    assert_eq!(parse_is_left("lr"), Err(ChartParseError::UnrecognizedIsLeftToken));
    assert_eq!(parse_is_left(""), Err(ChartParseError::UnrecognizedIsLeftToken));
}

#[test]
fn draw_range_starts_empty() {
    let d = DrawRange::new();
    assert_eq!((d.index_offset, d.index_count, d.first_platform_index, d.last_platform_index), (0, 0, 0, 0));
}

#[test]
fn rhythm_controls_tap_once_per_press() {
    let mut s = RhythmControlState::new();
    assert_eq!(s.state(RhythmControlInput::Tap3), RhythmControlInputState::Unpressed);
    assert!(s.update(RhythmControlInput::Tap3, ElementState::Pressed));
    assert!(!s.update(RhythmControlInput::Tap3, ElementState::Pressed));
    assert_eq!(s.state(RhythmControlInput::Tap3), RhythmControlInputState::Pressed);
    assert_eq!(s.state(RhythmControlInput::Tap1), RhythmControlInputState::Unpressed);
    assert!(!s.update(RhythmControlInput::Tap3, ElementState::Released));
    assert!(s.update(RhythmControlInput::Tap3, ElementState::Pressed));
}

#[test]
fn key_and_mouse_bindings() {
    assert_eq!(key_binding(KeyCode::Q), Some(RhythmControlInput::Tap1));
    assert_eq!(key_binding(KeyCode::W), Some(RhythmControlInput::Tap2));
    assert_eq!(key_binding(KeyCode::E), Some(RhythmControlInput::Tap3));
    assert_eq!(key_binding(KeyCode::R), Some(RhythmControlInput::Tap4));
    assert_eq!(key_binding(KeyCode::Space), Some(RhythmControlInput::TapWide));
    assert_eq!(key_binding(KeyCode::A), None);
    assert_eq!(mouse_binding(MouseButton::Left), Some(RhythmControlInput::TapMove1));
    assert_eq!(mouse_binding(MouseButton::Right), Some(RhythmControlInput::TapMove2));
    assert_eq!(mouse_binding(MouseButton::Other), None);
}

#[test]
fn chart_tokens() {
    assert_eq!(NoteInputType::try_from_token("T1"), Ok(NoteInputType::Tap1));
    assert_eq!(NoteInputType::try_from_token("T4"), Ok(NoteInputType::Tap4));
    assert_eq!(NoteInputType::try_from_token("TM2"), Ok(NoteInputType::TapMove2));
    assert_eq!(NoteInputType::try_from_token("TW"), Ok(NoteInputType::TapWidth));
    assert_eq!(NoteInputType::try_from_token("T5"), Err(ChartParseError::UnrecognizedNoteInputType));
    assert_eq!(PlatformType::try_from_token("DQ"), Ok(PlatformType::DynamicQuad));
    assert_eq!(PlatformType::try_from_token("DSPB"), Ok(PlatformType::DoubleSidedParallelBezier));
    assert_eq!(PlatformType::try_from_token("SSB"), Ok(PlatformType::SingleSidedBezier));
    assert_eq!(PlatformType::try_from_token("STATIC"), Err(ChartParseError::UnrecognizedPlatformType));
    assert_eq!(Tag::try_from_token("NOTES"), Ok(Tag::Notes));
    assert_eq!(Tag::try_from_token("MUSIC_STARTING_OFFSET"), Ok(Tag::MusicStartingOffset));
    assert_eq!(Tag::try_from_token("notes"), Err(ChartParseError::UnrecognizedTag));
}

#[test]
fn draw_range_slides_with_the_runner() {
    let counts: [u32; 4] = [6, 6, 12, 6];
    let mut d = DrawRange::new();
    d.update(&counts, &[true, true, false, true], &[true, false, false, false]);
    assert_eq!((d.index_offset, d.index_count, d.first_platform_index, d.last_platform_index), (6, 6, 1, 2));
    d.update(&counts, &[true, true, true, true], &[true, true, false, false]);
    assert_eq!((d.index_offset, d.index_count, d.first_platform_index, d.last_platform_index), (12, 18, 2, 4));
}

#[test]
fn draw_range_only_drops_platforms_it_holds() {
    let counts: [u32; 3] = [3, 3, 3];
    let mut d = DrawRange::new();
    d.update(&counts, &[false, true, true], &[true, true, true]);
    assert_eq!((d.index_offset, d.index_count, d.first_platform_index, d.last_platform_index), (0, 0, 0, 0));
}
