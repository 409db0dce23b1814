use pathtracer::settings::{ImageSettings, RenderSettings, SettingsError};

#[test]
fn image_settings_accept_ordinary_size() {
    let s = ImageSettings::new(1200, 800).unwrap();
    assert_eq!(s.width, 1200);
    assert_eq!(s.height, 800);
    assert_eq!(s.pixel_count(), 960_000);
}

#[test]
fn image_settings_reject_single_column_or_row() {
    assert!(matches!(ImageSettings::new(1, 800), Err(SettingsError::ImageTooSmall)));
    assert!(matches!(ImageSettings::new(1200, 1), Err(SettingsError::ImageTooSmall)));
    assert!(matches!(ImageSettings::new(0, 0), Err(SettingsError::ImageTooSmall)));
    assert!(ImageSettings::new(2, 2).is_ok());
}

#[test]
fn image_settings_reject_picture_too_large_for_memory() {
    assert!(matches!(
        ImageSettings::new(u32::MAX, u32::MAX),
        Err(SettingsError::ImageTooLarge)
    ));
}

#[test]
fn frame_index_is_column_major() {
    let s = ImageSettings::new(4, 3).unwrap();
    assert_eq!(s.index_of(0, 0), 0);
    assert_eq!(s.index_of(0, 2), 2);
    assert_eq!(s.index_of(1, 0), 3);
    assert_eq!(s.index_of(3, 2), 11);
    assert_eq!(s.pixel_at(7), (2, 1));
}

#[test]
fn frame_index_round_trips() {
    let s = ImageSettings::new(5, 7).unwrap();
    for k in 0..s.pixel_count() {
        let (i, j) = s.pixel_at(k);
        assert_eq!(s.index_of(i, j), k);
    }
    for i in 0..5 {
        for j in 0..7 {
            assert_eq!(s.pixel_at(s.index_of(i, j)), (i, j));
        }
    }
}

#[test]
fn image_rows_flip_vertically() {
    let s = ImageSettings::new(4, 3).unwrap();
    assert_eq!(s.image_row(0), 2);
    assert_eq!(s.image_row(1), 1);
    assert_eq!(s.image_row(2), 0);
}

#[test]
fn render_settings_need_frames_and_samples() {
    assert!(matches!(RenderSettings::new(0, 10, 50), Err(SettingsError::NoFrames)));
    assert!(matches!(RenderSettings::new(0, 0, 50), Err(SettingsError::NoFrames)));
    assert!(matches!(RenderSettings::new(8, 0, 50), Err(SettingsError::NoSamples)));
    let r = RenderSettings::new(8, 125, 50).unwrap();
    assert_eq!((r.frame_count, r.samples_per_frame, r.max_depth), (8, 125, 50));
}

#[test]
fn sample_budget_is_split_over_frames() {
    let r = RenderSettings::from_budget(1000, 8, 50).unwrap();
    assert_eq!(r.samples_per_frame, 125);
    assert_eq!(r.samples_per_pixel(), 1000);
    let r = RenderSettings::from_budget(1000, 3, 50).unwrap();
    assert_eq!(r.samples_per_frame, 333);
    assert_eq!(r.samples_per_pixel(), 999);
    assert!(matches!(RenderSettings::from_budget(5, 8, 50), Err(SettingsError::NoSamples)));
    assert!(matches!(RenderSettings::from_budget(1000, 0, 50), Err(SettingsError::NoFrames)));
}

#[test]
fn frames_trade_for_samples() {
    let split = RenderSettings::new(8, 125, 50).unwrap();
    let single = RenderSettings::new(1, 1000, 50).unwrap();
    assert_eq!(split.samples_per_pixel(), single.samples_per_pixel());
}

#[test]
fn samples_per_pixel_does_not_overflow() {
    let r = RenderSettings::new(u32::MAX, u32::MAX, 1).unwrap();
    assert_eq!(r.samples_per_pixel(), u32::MAX as u64 * u32::MAX as u64);
}
