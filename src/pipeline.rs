//! The capture pipeline's decisions: which clipboard events to drop, and how
//! often to try opening a busy clipboard. Whoever runs the pipeline performs
//! the waits and the clipboard calls and reports back.

use crate::convert::{dib_error, dib_to_image, decodes_to, ConversionError};
use crate::heuristics::{clipboard_owned_by_snip_and_sketch, is_expected_process};
use crate::image_buffer::DecodedImage;
use std::collections::HashMap;
use vstd::prelude::*;

verus! {

broadcast use vstd::std_specs::hash::group_hash_axioms;

/// The window message that announces a clipboard update: the kind of event
/// the pipeline debounces.
pub const WM_CLIPBOARDUPDATE: u32 = 0x031d;

/// How long, in milliseconds, further events of one kind are dropped after
/// the last one.
pub const DEBOUNCE_TIME_MS: u64 = 1000;

/// How long, in milliseconds, to let the screenshot tool finish its clipboard
/// write before opening the clipboard.
pub const SETTLE_DELAY_MS: u64 = 100;

/// How many times opening the clipboard is retried after the first attempt.
pub const OPEN_RETRIES: u32 = 5;

/// How long, in milliseconds, to wait before each retry.
pub const OPEN_RETRY_INTERVAL_MS: u64 = 50;

/// Milliseconds from `earlier` to `later`; zero when `later` is the earlier.
pub open spec fn elapsed(earlier: u64, later: u64) -> int {
    if later >= earlier {
        later - earlier
    } else {
        0
    }
}

/// Whether an event of kind `message` at `now` falls within `window`
/// milliseconds of the last one recorded in `times`.
pub open spec fn is_debounced(times: Map<u32, u64>, message: u32, now: u64, window: u64) -> bool {
    times.contains_key(message) && elapsed(times[message], now) <= window
}

/// Right after an event of kind `message` at `first`, a later one at `second`
/// is dropped exactly when it comes within the window.
pub proof fn lemma_debounce_window(
    times: Map<u32, u64>,
    message: u32,
    first: u64,
    second: u64,
    window: u64,
)
    requires
        first <= second,
    ensures
        is_debounced(times.insert(message, first), message, second, window) <==> second - first
            <= window,
{
}

/// The time each kind of event was last seen, in milliseconds on a monotonic
/// clock.
pub struct Debouncer {
    message_times: HashMap<u32, u64>,
    window: u64,
}

impl View for Debouncer {
    type V = Map<u32, u64>;

    closed spec fn view(&self) -> Map<u32, u64> {
        self.message_times@
    }
}

impl Debouncer {
    /// The length of the window, in milliseconds.
    pub closed spec fn window_spec(&self) -> u64 {
        self.window
    }

    /// A debouncer that has seen no event yet, dropping events within
    /// `window` milliseconds of the previous one of their kind.
    pub fn new(window: u64) -> (r: Debouncer)
        ensures
            r@ == Map::<u32, u64>::empty(),
            r.window_spec() == window,
    {
        Debouncer { message_times: HashMap::new(), window }
    }

    /// The length of the window, in milliseconds.
    pub fn window(&self) -> (r: u64)
        ensures
            r == self.window_spec(),
    {
        self.window
    }

    /// Records an event of kind `message` at `now`, returning `true` if it
    /// came within the window of the previous one of its kind and is to be
    /// dropped. The time is recorded either way, so a burst of events keeps
    /// pushing the window forward.
    pub fn debounce_message(&mut self, message: u32, now: u64) -> (r: bool)
        ensures
            r == is_debounced(old(self)@, message, now, old(self).window_spec()),
            final(self)@ == old(self)@.insert(message, now),
            final(self).window_spec() == old(self).window_spec(),
    {
        let result = match self.message_times.get(&message) {
            Some(message_time) => {
                let since = if now >= *message_time {
                    now - *message_time
                } else {
                    0
                };
                since <= self.window
            },
            None => false,
        };
        self.message_times.insert(message, now);
        result
    }
}

/// What to do after an attempt to open the clipboard.
#[derive(Debug, PartialEq, Eq, Structural)]
pub enum OpenStep {
    /// The clipboard is open: read it and close it.
    Opened,
    /// Wait this many milliseconds, then try again.
    RetryAfter(u64),
    /// Give up on this event.
    GiveUp,
}

/// The decision after attempt number `attempt` (the first is 0) to open the
/// clipboard, which `opened` tells whether it succeeded: retry up to
/// [`OPEN_RETRIES`] times, [`OPEN_RETRY_INTERVAL_MS`] apart.
pub fn open_clipboard_step(attempt: u32, opened: bool) -> (r: OpenStep)
    ensures
        opened ==> r == OpenStep::Opened,
        !opened && attempt < OPEN_RETRIES ==> r == OpenStep::RetryAfter(OPEN_RETRY_INTERVAL_MS),
        !opened && attempt >= OPEN_RETRIES ==> r == OpenStep::GiveUp,
{
    if opened {
        OpenStep::Opened
    } else if attempt < OPEN_RETRIES {
        OpenStep::RetryAfter(OPEN_RETRY_INTERVAL_MS)
    } else {
        OpenStep::GiveUp
    }
}


/// Where a capture run stands.
#[derive(Debug, PartialEq, Eq, Structural)]
pub enum Stage {
    /// No event is being handled.
    Idle,
    /// Waiting to learn who owns the clipboard.
    CheckingOwner,
    /// Waiting for the screenshot tool to finish with the clipboard.
    Settling,
    /// Waiting for attempt number `n` (the first is 0) to open the clipboard.
    Opening(u32),
    /// The clipboard is open: waiting for its bitmap.
    Reading,
}

/// What the host reports to the pipeline.
pub enum CaptureEvent {
    /// The clipboard changed, at this time in milliseconds on a monotonic clock.
    ClipboardUpdated(u64),
    /// The executable path of the clipboard's owner (`None` when it could not
    /// be found), and the first format of the preference list (a bitmap only)
    /// that the clipboard offers.
    OwnerIdentified(Option<String>, Option<u32>),
    /// The settle delay is over.
    Settled,
    /// An attempt to open the clipboard succeeded or failed.
    OpenAttempted(bool),
    /// The clipboard's bitmap, copied out; `None` when there was none.
    BitmapRead(Option<Vec<u8>>),
}

/// Why an event ends without a capture.
#[derive(Debug, PartialEq, Eq, Structural)]
pub enum IgnoreReason {
    /// It came within the debounce window.
    Debounced,
    /// The clipboard does not look like the screenshot tool's.
    NotTrusted,
    /// The clipboard stayed busy through every retry.
    ClipboardBusy,
    /// The event does not fit the stage the pipeline is in.
    Unexpected,
}

/// What the host is to do next.
pub enum CaptureAction {
    /// Nothing: the run is over (and the clipboard, if open, is to be closed).
    Ignore(IgnoreReason),
    /// Find the clipboard's owner and offered format, and report them.
    QueryOwner,
    /// Wait this many milliseconds, then report [`CaptureEvent::Settled`].
    Settle(u64),
    /// Try to open the clipboard, waiting this many milliseconds first.
    OpenClipboard(u64),
    /// Copy the clipboard's bitmap out, close the clipboard, and report it.
    ReadBitmap,
    /// The bitmap could not be decoded; the run is over.
    Reject(ConversionError),
    /// Check this image against the latest screenshot and save it unless it
    /// repeats it, away from the event path; the run is over.
    Persist(DecodedImage),
}

/// The capture pipeline's state across clipboard events: when events were
/// last seen, and where the current run stands.
pub struct CapturePipeline {
    debouncer: Debouncer,
    stage: Stage,
    require_format: bool,
}

impl CapturePipeline {
    /// When each kind of event was last seen.
    pub closed spec fn times(&self) -> Map<u32, u64> {
        self.debouncer@
    }

    /// The debounce window, in milliseconds.
    pub closed spec fn window_spec(&self) -> u64 {
        self.debouncer.window_spec()
    }

    /// Where the current run stands.
    pub closed spec fn stage_spec(&self) -> Stage {
        self.stage
    }

    /// Whether a capture needs the clipboard to offer a bitmap too.
    pub closed spec fn requires_format(&self) -> bool {
        self.require_format
    }

    /// An idle pipeline that has seen no event, debouncing over `window`
    /// milliseconds; with `require_format`, a capture needs the clipboard to
    /// offer a bitmap as well as the right owner.
    pub fn new(window: u64, require_format: bool) -> (r: CapturePipeline)
        ensures
            r.times() == Map::<u32, u64>::empty(),
            r.window_spec() == window,
            r.stage_spec() == Stage::Idle,
            r.requires_format() == require_format,
    {
        CapturePipeline { debouncer: Debouncer::new(window), stage: Stage::Idle, require_format }
    }

    /// Where the current run stands.
    pub fn stage(&self) -> (r: &Stage)
        ensures
            *r == self.stage_spec(),
    {
        &self.stage
    }

    /// Takes the host's report of `event` and returns what to do next.
    ///
    /// A clipboard update starts a new run, unless it is debounced; its time
    /// is recorded either way. A trusted owner leads to the settle delay,
    /// then to opening the clipboard, retried while it is busy, then to
    /// reading and decoding its bitmap. Every other outcome ends the run.
    pub fn step(&mut self, event: CaptureEvent) -> (r: CaptureAction)
        ensures
            final(self).window_spec() == old(self).window_spec(),
            final(self).requires_format() == old(self).requires_format(),
            event matches CaptureEvent::ClipboardUpdated(now) ==> final(self).times() == old(self).times().insert(WM_CLIPBOARDUPDATE, now),
            !(event is ClipboardUpdated) ==> final(self).times() == old(self).times(),
            match event {
                CaptureEvent::ClipboardUpdated(now) => if is_debounced(
                    old(self).times(),
                    WM_CLIPBOARDUPDATE,
                    now,
                    old(self).window_spec(),
                ) {
                    r == CaptureAction::Ignore(IgnoreReason::Debounced) && final(self).stage_spec()
                        == Stage::Idle
                } else {
                    r == CaptureAction::QueryOwner && final(self).stage_spec()
                        == Stage::CheckingOwner
                },
                CaptureEvent::OwnerIdentified(path, format) => if old(self).stage_spec()
                    != Stage::CheckingOwner {
                    r == CaptureAction::Ignore(IgnoreReason::Unexpected) && final(self).stage_spec()
                        == Stage::Idle
                } else if path is Some && is_expected_process(path.unwrap()@) && (!old(self).requires_format() || format is Some) {
                    r == CaptureAction::Settle(SETTLE_DELAY_MS) && final(self).stage_spec()
                        == Stage::Settling
                } else {
                    r == CaptureAction::Ignore(IgnoreReason::NotTrusted) && final(self).stage_spec()
                        == Stage::Idle
                },
                CaptureEvent::Settled => if old(self).stage_spec() == Stage::Settling {
                    r == CaptureAction::OpenClipboard(0) && final(self).stage_spec()
                        == Stage::Opening(0)
                } else {
                    r == CaptureAction::Ignore(IgnoreReason::Unexpected) && final(self).stage_spec()
                        == Stage::Idle
                },
                CaptureEvent::OpenAttempted(opened) => match old(self).stage_spec() {
                    Stage::Opening(n) => if opened {
                        r == CaptureAction::ReadBitmap && final(self).stage_spec() == Stage::Reading
                    } else if n < OPEN_RETRIES {
                        r == CaptureAction::OpenClipboard(OPEN_RETRY_INTERVAL_MS) && final(self).stage_spec() == Stage::Opening((n + 1) as u32)
                    } else {
                        r == CaptureAction::Ignore(IgnoreReason::ClipboardBusy) && final(self).stage_spec() == Stage::Idle
                    },
                    _ => r == CaptureAction::Ignore(IgnoreReason::Unexpected) && final(self).stage_spec() == Stage::Idle,
                },
                CaptureEvent::BitmapRead(bytes) => final(self).stage_spec() == Stage::Idle && if old(self).stage_spec() != Stage::Reading {
                    r == CaptureAction::Ignore(IgnoreReason::Unexpected)
                } else {
                    match bytes {
                        None => r == CaptureAction::Reject(ConversionError::NullPointer),
                        Some(b) => match dib_error(b@) {
                            Some(e) => r == CaptureAction::Reject(e),
                            None => r is Persist && decodes_to(b@, r->Persist_0),
                        },
                    }
                },
            },
    {
        match event {
            CaptureEvent::ClipboardUpdated(now) => {
                if self.debouncer.debounce_message(WM_CLIPBOARDUPDATE, now) {
                    self.stage = Stage::Idle;
                    CaptureAction::Ignore(IgnoreReason::Debounced)
                } else {
                    self.stage = Stage::CheckingOwner;
                    CaptureAction::QueryOwner
                }
            },
            CaptureEvent::OwnerIdentified(path, format) => {
                let expected = match self.stage {
                    Stage::CheckingOwner => true,
                    _ => false,
                };
                if !expected {
                    self.stage = Stage::Idle;
                    return CaptureAction::Ignore(IgnoreReason::Unexpected);
                }
                let trusted = match path {
                    Some(path) => clipboard_owned_by_snip_and_sketch(
                        path.as_str(),
                        format,
                        self.require_format,
                    ),
                    None => false,
                };
                if trusted {
                    self.stage = Stage::Settling;
                    CaptureAction::Settle(SETTLE_DELAY_MS)
                } else {
                    self.stage = Stage::Idle;
                    CaptureAction::Ignore(IgnoreReason::NotTrusted)
                }
            },
            CaptureEvent::Settled => {
                let expected = match self.stage {
                    Stage::Settling => true,
                    _ => false,
                };
                if expected {
                    self.stage = Stage::Opening(0);
                    CaptureAction::OpenClipboard(0)
                } else {
                    self.stage = Stage::Idle;
                    CaptureAction::Ignore(IgnoreReason::Unexpected)
                }
            },
            CaptureEvent::OpenAttempted(opened) => {
                let attempt = match self.stage {
                    Stage::Opening(n) => n,
                    _ => {
                        self.stage = Stage::Idle;
                        return CaptureAction::Ignore(IgnoreReason::Unexpected);
                    },
                };
                match open_clipboard_step(attempt, opened) {
                    OpenStep::Opened => {
                        self.stage = Stage::Reading;
                        CaptureAction::ReadBitmap
                    },
                    OpenStep::RetryAfter(ms) => {
                        self.stage = Stage::Opening(attempt + 1);
                        CaptureAction::OpenClipboard(ms)
                    },
                    OpenStep::GiveUp => {
                        self.stage = Stage::Idle;
                        CaptureAction::Ignore(IgnoreReason::ClipboardBusy)
                    },
                }
            },
            CaptureEvent::BitmapRead(bytes) => {
                let expected = match self.stage {
                    Stage::Reading => true,
                    _ => false,
                };
                self.stage = Stage::Idle;
                if !expected {
                    return CaptureAction::Ignore(IgnoreReason::Unexpected);
                }
                let decoded = match &bytes {
                    Some(b) => dib_to_image(Some(b.as_slice())),
                    None => dib_to_image(None),
                };
                match decoded {
                    Ok(image) => CaptureAction::Persist(image),
                    Err(e) => CaptureAction::Reject(e),
                }
            },
        }
    }
}

} // verus!
