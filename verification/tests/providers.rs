use omni_pane::overlay_text_providers::file_polling::FilePoller;
use omni_pane::overlay_text_providers::temperature_provider::{
    TemperatureOverlayTextProvider, SENSOR_POLL_INTERVAL,
};
use omni_pane::overlay_text_providers::time_provider::{clock_line, TimeOverlayTextProvider};
use omni_pane::overlay_text_providers::OverlayTextProvider;

#[test]
fn new_poller_has_read_nothing() {
    let poller = FilePoller::new("/tmp/sensor".to_string(), 5_000);
    assert_eq!(poller.filepath(), "/tmp/sensor");
    assert_eq!(poller.poll_interval(), 5_000);
    assert_eq!(poller.get_current_file_content(), "");
    assert_eq!(poller.last_update(), None);
}

#[test]
fn read_that_succeeds_replaces_the_cache() {
    let mut poller = FilePoller::new("/tmp/sensor".to_string(), 5_000);
    poller.record_poll(Some("first".to_string()), 100);
    assert_eq!(poller.get_current_file_content(), "first");
    assert_eq!(poller.last_update(), Some(100));
    poller.record_poll(Some(String::new()), 5_100);
    assert_eq!(poller.get_current_file_content(), "");
    assert_eq!(poller.last_update(), Some(5_100));
}

#[test]
fn read_that_fails_leaves_the_cache() {
    let mut poller = FilePoller::new("/tmp/sensor".to_string(), 5_000);
    poller.record_poll(None, 50);
    assert_eq!(poller.get_current_file_content(), "");
    assert_eq!(poller.last_update(), None);
    poller.record_poll(Some("t=1000".to_string()), 100);
    poller.record_poll(None, 5_100);
    assert_eq!(poller.get_current_file_content(), "t=1000");
    assert_eq!(poller.last_update(), Some(100));
}

#[test]
fn sensor_provider_reads_the_one_wire_file_every_five_seconds() {
    let provider = TemperatureOverlayTextProvider::new("28-0000075a3f2b");
    assert_eq!(provider.filepath(), "/sys/bus/w1/devices/28-0000075a3f2b/w1_slave");
    assert_eq!(provider.poll_interval(), 5_000);
    assert_eq!(SENSOR_POLL_INTERVAL, 5_000);
}

#[test]
fn sensor_provider_without_a_reading_says_so() {
    let provider = TemperatureOverlayTextProvider::new("28-01");
    assert_eq!(provider.get_temperature_text(), "No temperature found");
    assert_eq!(provider.get_text(), "No temperature found");
}

#[test]
fn sensor_provider_shows_the_latest_reading() {
    let mut provider = TemperatureOverlayTextProvider::new("28-01");
    provider.record_poll(Some("aa : crc=57 YES\naa t=23625\n".to_string()), 10);
    assert_eq!(provider.get_temperature_text(), "Temp.: 23.6 \u{b0}C");
    provider.record_poll(None, 5_010);
    assert_eq!(provider.get_text(), "Temp.: 23.6 \u{b0}C");
    provider.record_poll(Some("aa : crc=57 YES\naa t=-4500\n".to_string()), 10_010);
    assert_eq!(provider.get_text(), "Temp.: -4.5 \u{b0}C");
    provider.record_poll(Some("garbage t=?? ".to_string()), 15_010);
    assert_eq!(provider.get_text(), "Error parsing temperature ??");
}

#[test]
fn providers_are_used_through_the_trait() {
    let mut sensor = TemperatureOverlayTextProvider::new("28-01");
    sensor.record_poll(Some("t=1500".to_string()), 0);
    let providers: Vec<Box<dyn OverlayTextProvider>> =
        vec![Box::new(TimeOverlayTextProvider::new()), Box::new(sensor)];
    let lines: Vec<String> = providers.iter().map(|provider| provider.get_text()).collect();
    assert_eq!(lines.len(), 2);
    assert_eq!(lines[1], "Temp.: 1.5 \u{b0}C");
}

#[test]
fn clock_line_writes_day_month_year_and_time() {
    assert_eq!(clock_line(0), "01/01/1970 00:00:00");
    assert_eq!(clock_line(1_431_648_000), "15/05/2015 00:00:00");
    assert_eq!(clock_line(1_491_137_432), "02/04/2017 12:50:32");
    assert_eq!(clock_line(-1), "31/12/1969 23:59:59");
}

#[test]
fn clock_line_is_empty_beyond_the_calendar() {
    assert_eq!(clock_line(i64::MAX), "");
    assert_eq!(clock_line(i64::MIN), "");
}

#[test]
fn current_time_has_the_shape_of_a_date_and_a_time() {
    let provider = TimeOverlayTextProvider::new();
    for text in [provider.get_current_time(), provider.get_text()] {
        let bytes = text.as_bytes();
        assert_eq!(bytes.len(), 19);
        for (position, byte) in bytes.iter().enumerate() {
            match position {
                2 | 5 => assert_eq!(*byte, b'/'),
                10 => assert_eq!(*byte, b' '),
                13 | 16 => assert_eq!(*byte, b':'),
                _ => assert!(byte.is_ascii_digit()),
            }
        }
    }
}
