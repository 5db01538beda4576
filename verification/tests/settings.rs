use omni_pane::video_display::video_channel::VideoChannelSettings;

#[test]
fn default_settings_run_at_fifty_frames_a_second() {
    let settings = VideoChannelSettings::default();
    assert_eq!(settings.get_frame_duration(), 20);
    assert_eq!(settings.get_motion_check_interval(), 100);
    assert_eq!(settings.get_background_lag(), 200);
}

#[test]
fn new_settings_keep_what_they_are_given() {
    let settings = VideoChannelSettings::new(33, 165, 533);
    assert_eq!(settings.get_frame_duration(), 33);
    assert_eq!(settings.get_motion_check_interval(), 165);
    assert_eq!(settings.get_background_lag(), 533);
    assert_eq!(settings, VideoChannelSettings::new(33, 165, 533));
    assert_ne!(settings, VideoChannelSettings::default());
}
