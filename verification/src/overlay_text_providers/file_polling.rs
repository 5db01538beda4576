//! The cache behind a provider that reads its text from a file.
//!
//! The poller itself reads nothing. A background task of the caller reads the file on the
//! poller's interval and reports each outcome; the provider reads the cached text.

use vstd::prelude::*;

verus! {

/// What a poller holds, as plain values.
pub struct PollerView {
    pub filepath: Seq<char>,
    /// The time between two reads, in milliseconds.
    pub poll_interval: int,
    /// The text of the last read that succeeded, empty before the first.
    pub content: Seq<char>,
    /// The instant of the last read that succeeded.
    pub last_update: Option<int>,
}

impl PollerView {
    /// The poller after a read at `now`: a read that succeeded replaces the text and
    /// stamps it, a read that failed leaves both as they were.
    pub open spec fn record_poll(self, outcome: Option<Seq<char>>, now: int) -> PollerView {
        match outcome {
            Some(text) => PollerView { content: text, last_update: Some(now), ..self },
            None => self,
        }
    }
}

/// The cached text of one file and the interval on which it is to be read again.
pub struct FilePoller {
    filepath: String,
    poll_interval: u64,
    current_file_content: String,
    last_update: Option<u64>,
}

impl View for FilePoller {
    type V = PollerView;

    closed spec fn view(&self) -> PollerView {
        PollerView {
            filepath: self.filepath@,
            poll_interval: self.poll_interval as int,
            content: self.current_file_content@,
            last_update: match self.last_update {
                Some(instant) => Some(instant as int),
                None => None,
            },
        }
    }
}

impl FilePoller {
    /// A poller for the file at `filepath` that has read nothing yet.
    pub fn new(filepath: String, poll_interval: u64) -> (poller: Self)
        ensures
            poller@ == (PollerView {
                filepath: filepath@,
                poll_interval: poll_interval as int,
                content: Seq::empty(),
                last_update: None,
            }),
    {
        Self { filepath, poll_interval, current_file_content: String::new(), last_update: None }
    }

    /// Takes in the outcome of one read at `now`: the text of the file, or nothing where
    /// the read failed.
    pub fn record_poll(&mut self, outcome: Option<String>, now: u64)
        ensures
            final(self)@ == old(self)@.record_poll(
                match outcome {
                    Some(text) => Some(text@),
                    None => None,
                },
                now as int,
            ),
    {
        match outcome {
            Some(text) => {
                self.current_file_content = text;
                self.last_update = Some(now);
            },
            None => {},
        }
    }

    /// A copy of the cached text.
    pub fn get_current_file_content(&self) -> (content: String)
        ensures
            content@ == self@.content,
    {
        self.current_file_content.clone()
    }

    /// A copy of the path of the file.
    pub fn filepath(&self) -> (filepath: String)
        ensures
            filepath@ == self@.filepath,
    {
        self.filepath.clone()
    }

    /// The time between two reads, in milliseconds.
    pub fn poll_interval(&self) -> (interval: u64)
        ensures
            interval == self@.poll_interval,
    {
        self.poll_interval
    }

    /// The instant of the last read that succeeded.
    pub fn last_update(&self) -> (instant: Option<u64>)
        ensures
            match instant {
                Some(at) => self@.last_update == Some(at as int),
                None => self@.last_update is None,
            },
    {
        self.last_update
    }
}

} // verus!
