use std::sync::Arc;

use cabat_assets::common::{Size, WindowHandle, WindowRaw};
use cabat_assets::glyph::CacheGlyphError;
use cabat_assets::input::Input;
use cabat_assets::lighting::LightData;
use cabat_assets::stages::{Stages, SubStages};

struct FakeWindow;

impl WindowHandle for FakeWindow {}

#[test]
fn size_new_and_from_tuple() {
    let a = Size::new(800u32, 600u32);
    assert_eq!((a.width, a.height), (800, 600));
    let b: Size<i32> = Size::from((3, -4));
    assert_eq!((b.width, b.height), (3, -4));
}

#[test]
fn window_raw_keeps_window_and_size() {
    let w: Arc<dyn WindowHandle> = Arc::new(FakeWindow);
    let raw: WindowRaw = WindowRaw::new(w.clone(), Size::new(1280, 720));
    assert_eq!(raw.size().width, 1280);
    assert_eq!(raw.size().height, 720);
    assert!(Arc::ptr_eq(raw.arc(), &w));
}

#[test]
fn input_tracks_press_and_release() {
    let mut input: Input<u32> = Input::new();
    assert!(!input.pressed(1));
    input.add_pressed(1);
    assert!(input.pressed(1));
    assert!(input.just_pressed(1));
    assert!(!input._released(1));
    input.reset();
    assert!(input.pressed(1));
    assert!(!input.just_pressed(1));
    input.remove_pressed(1);
    assert!(!input.pressed(1));
    assert!(input._released(1));
    input.reset();
    assert!(!input._released(1));
}

#[test]
fn sub_stages_advance_until_last() {
    let mut s = SubStages::First;
    assert_eq!(s.next(), Some(SubStages::Pre));
    assert_eq!(s, SubStages::Pre);
    assert_eq!(s.next(), Some(SubStages::Main));
    assert_eq!(s.next(), Some(SubStages::Post));
    assert_eq!(s.next(), Some(SubStages::Last));
    assert_eq!(s.next(), None);
    assert_eq!(s, SubStages::Last);
    assert_ne!(Stages::Setup, Stages::Last);
}

#[test]
fn glyph_error_messages() {
    assert_eq!(CacheGlyphError::NoGlyphImage.message(), "Unable to get image from proved glyph.");
    assert_eq!(
        CacheGlyphError::OutOfSpace.message(),
        "Atlas texture is not big enough to store new glyphs"
    );
}

#[test]
fn light_data_defaults_to_no_lights() {
    assert_eq!(LightData::default().light_count, 0);
}
