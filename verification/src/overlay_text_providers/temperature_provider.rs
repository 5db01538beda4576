//! The overlay line that shows the temperature of a one-wire sensor.

use crate::overlay_text_providers::file_polling::{FilePoller, PollerView};
use crate::overlay_text_providers::sensor_text::{temperature_line, temperature_text};
use crate::overlay_text_providers::OverlayTextProvider;
use vstd::prelude::*;
use vstd::string::StringExecFns;

verus! {

/// The time between two reads of the sensor, in milliseconds.
pub const SENSOR_POLL_INTERVAL: u64 = 5_000;

/// The path of the file through which the sensor `sensor_id` reports.
pub open spec fn sensor_file_path(sensor_id: Seq<char>) -> Seq<char> {
    "/sys/bus/w1/devices/"@ + sensor_id + "/w1_slave"@
}

/// Shows the latest reading of one sensor.
pub struct TemperatureOverlayTextProvider {
    file_poller: FilePoller,
}

impl TemperatureOverlayTextProvider {
    /// The poller of the sensor's file.
    pub closed spec fn poller(&self) -> PollerView {
        self.file_poller@
    }

    /// A provider for the sensor `sensor_id` that has read nothing yet.
    pub fn new(sensor_id: &str) -> (provider: Self)
        ensures
            provider.poller() == (PollerView {
                filepath: sensor_file_path(sensor_id@),
                poll_interval: SENSOR_POLL_INTERVAL as int,
                content: Seq::empty(),
                last_update: None,
            }),
    {
        let mut sensor_file_path = String::from_str("/sys/bus/w1/devices/");
        sensor_file_path.append(sensor_id);
        sensor_file_path.append("/w1_slave");
        Self { file_poller: FilePoller::new(sensor_file_path, SENSOR_POLL_INTERVAL) }
    }

    /// The overlay line for the sensor text that was read last.
    pub fn get_temperature_text(&self) -> (text: String)
        ensures
            text@ == temperature_text(self.poller().content),
    {
        let content = self.file_poller.get_current_file_content();
        temperature_line(content.as_str())
    }

    /// Takes in the outcome of one read of the sensor's file at `now`.
    pub fn record_poll(&mut self, outcome: Option<String>, now: u64)
        ensures
            final(self).poller() == old(self).poller().record_poll(
                match outcome {
                    Some(text) => Some(text@),
                    None => None,
                },
                now as int,
            ),
    {
        self.file_poller.record_poll(outcome, now);
    }

    /// A copy of the path of the sensor's file.
    pub fn filepath(&self) -> (filepath: String)
        ensures
            filepath@ == self.poller().filepath,
    {
        self.file_poller.filepath()
    }

    /// The time between two reads of the sensor, in milliseconds.
    pub fn poll_interval(&self) -> (interval: u64)
        ensures
            interval == self.poller().poll_interval,
    {
        self.file_poller.poll_interval()
    }
}

impl OverlayTextProvider for TemperatureOverlayTextProvider {
    fn get_text(&self) -> (text: String)
        ensures
            text@ == temperature_text(self.poller().content),
    {
        self.get_temperature_text()
    }
}

} // verus!
