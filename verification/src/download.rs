//! The decisions of a download: what its responses' headers say, what to do
//! when a request fails, and when to report progress.
//!
//! The program around the library performs the requests and file writes and
//! hands the outcomes to these functions.

use vstd::prelude::*;

use crate::error::Error;
use crate::numbers::{parse_u64, parsed_u64};
use vstd::string::StringExecFns;

verus! {

/// A header of a response, as `HeaderValue::to_str` sees it.
pub enum HeaderText<'a> {
    /// The response has no such header.
    Missing,
    /// The header's value is not visible ASCII text.
    NotText,
    /// The header's value as text.
    Text(&'a str),
}

/// The number of segments of a sequenced download, from its `Segment-Count` header.
pub fn segment_count(header: HeaderText<'_>) -> (r: Result<u64, Error>)
    ensures
        match header {
            HeaderText::Missing => r matches Err(Error::UnexpectedResponse(m)) && m@
                == "sequence download request did not contain a Segment-Count"@,
            HeaderText::NotText => r matches Err(Error::UnexpectedResponse(m)) && m@
                == "Segment-Count is not valid utf-8"@,
            HeaderText::Text(t) => match parsed_u64(t@) {
                Some(n) => r == Ok::<u64, Error>(n),
                None => r matches Err(Error::UnexpectedResponse(m)) && m@
                    == "Segment-Count could not be parsed into an integer"@,
            },
        },
{
    match header {
        HeaderText::Missing => Err(
            Error::UnexpectedResponse(
                String::from_str("sequence download request did not contain a Segment-Count"),
            ),
        ),
        HeaderText::NotText => Err(
            Error::UnexpectedResponse(String::from_str("Segment-Count is not valid utf-8")),
        ),
        HeaderText::Text(t) => match parse_u64(t) {
            Some(n) => Ok(n),
            None => Err(
                Error::UnexpectedResponse(
                    String::from_str("Segment-Count could not be parsed into an integer"),
                ),
            ),
        },
    }
}

/// The content length from the `Content-Length` header of a `HEAD` response.
pub fn content_length_from_header(header: HeaderText<'_>) -> (r: Result<u64, Error>)
    ensures
        match header {
            HeaderText::Text(t) => match parsed_u64(t@) {
                Some(n) => r == Ok::<u64, Error>(n),
                None => r is Err,
            },
            _ => r is Err,
        },
        r matches Err(e) ==> e matches Error::UnexpectedResponse(m) && m@
            == "the response did not contain a valid content-length field"@,
{
    let parsed = match header {
        HeaderText::Text(t) => parse_u64(t),
        _ => None,
    };
    match parsed {
        Some(n) => Ok(n),
        None => Err(
            Error::UnexpectedResponse(
                String::from_str("the response did not contain a valid content-length field"),
            ),
        ),
    }
}

/// How a download request ended.
pub enum RequestOutcome {
    /// The whole resource was written.
    Done,
    /// The request failed with HTTP status 404.
    NotFound,
    /// The request failed otherwise.
    Failed,
}

/// What to do after a download request.
#[derive(PartialEq, Eq, Structural)]
pub enum AfterRequest {
    /// The download succeeded.
    Succeed,
    /// Some adaptive streams need to be requested with sequence numbers: try that.
    DownloadSequenced,
    /// Remove the partly written file and report the error.
    RemoveFileAndFail,
}

/// What to do after a download request: a 404 asks for the sequenced
/// download, any other failure removes the file.
pub fn after_request(outcome: RequestOutcome) -> (a: AfterRequest)
    ensures
        a == match outcome {
            RequestOutcome::Done => AfterRequest::Succeed,
            RequestOutcome::NotFound => AfterRequest::DownloadSequenced,
            RequestOutcome::Failed => AfterRequest::RemoveFileAndFail,
        },
{
    match outcome {
        RequestOutcome::Done => AfterRequest::Succeed,
        RequestOutcome::NotFound => AfterRequest::DownloadSequenced,
        RequestOutcome::Failed => AfterRequest::RemoveFileAndFail,
    }
}

/// What the completion callback receives: the path when the download succeeded.
pub fn completed_path(succeeded: bool, path: String) -> (r: Option<String>)
    ensures
        r == (if succeeded {
            Some(path)
        } else {
            None::<String>
        }),
{
    if succeeded {
        Some(path)
    } else {
        None
    }
}

// ---------------------------------------------------------------------------
// Progress
// ---------------------------------------------------------------------------

/// Arguments given either to an on_progress callback or on_progress receiver.
#[derive(Clone, Copy, Debug, PartialEq, Eq, Structural)]
pub struct CallbackArguments {
    /// The number of bytes written so far.
    pub current_chunk: usize,
    /// The content length of the stream, when known.
    pub content_length: Option<u64>,
}

/// What the download reports to the progress task.
#[derive(Clone, Copy, Debug, PartialEq, Eq, Structural)]
pub enum InternalSignal {
    /// So many bytes have been written.
    Value(usize),
    /// The download is over.
    Finished,
}

/// How progress is reported: to a closure, an async closure or a channel,
/// for every report or only once per downloaded megabyte ("slow").
#[derive(Clone, Copy, Debug, PartialEq, Eq, Structural)]
pub enum ProgressKind {
    Closure,
    AsyncClosure,
    /// `cancel_on_close`: stop reporting when the receiving end is closed.
    Channel(bool),
    SlowClosure,
    SlowAsyncClosure,
    /// `cancel_on_close`: stop reporting when the receiving end is closed.
    SlowChannel(bool),
    /// No progress reporting.
    NoCallback,
}

/// What the progress task does next.
#[derive(Clone, Copy, Debug, PartialEq, Eq, Structural)]
pub enum ProgressAction {
    /// Hand these arguments to the callback or channel.
    Deliver(CallbackArguments),
    /// Nothing for this report.
    Skip,
    /// Close the internal receiver: the outer channel is gone.
    CloseReceiver,
    /// Stop the progress task.
    Stop,
}

/// An event of the progress task.
#[derive(Clone, Copy, Debug, PartialEq, Eq, Structural)]
pub enum ProgressEvent {
    /// A report from the download arrived.
    Signal(InternalSignal),
    /// Sending the last delivered arguments to the outer channel failed.
    SendFailed,
}

/// The state of the progress task.
#[derive(Clone, Copy, Debug, PartialEq, Eq, Structural)]
pub struct ProgressState {
    pub kind: ProgressKind,
    /// The number of whole megabytes at the last slow report.
    pub last_trigger: usize,
    pub content_length: Option<u64>,
}

/// Whether the kind reports only once per megabyte.
pub open spec fn is_slow(k: ProgressKind) -> bool {
    k is SlowClosure || k is SlowAsyncClosure || k is SlowChannel
}

/// The next state and action of the progress task.
pub open spec fn progress_step(s: ProgressState, e: ProgressEvent) -> (ProgressState, ProgressAction) {
    match s.kind {
        ProgressKind::NoCallback => (s, ProgressAction::Stop),
        _ => match e {
            ProgressEvent::SendFailed => match s.kind {
                ProgressKind::Channel(true) | ProgressKind::SlowChannel(true) => (
                    s,
                    ProgressAction::CloseReceiver,
                ),
                _ => (s, ProgressAction::Skip),
            },
            ProgressEvent::Signal(InternalSignal::Finished) => (s, ProgressAction::Stop),
            ProgressEvent::Signal(InternalSignal::Value(data)) => {
                let args = CallbackArguments { current_chunk: data, content_length: s.content_length };
                if is_slow(s.kind) {
                    let million = data / 1_000_000;
                    if s.last_trigger < million {
                        (ProgressState { last_trigger: million, ..s }, ProgressAction::Deliver(args))
                    } else {
                        (s, ProgressAction::Skip)
                    }
                } else {
                    (s, ProgressAction::Deliver(args))
                }
            },
        },
    }
}

impl ProgressState {
    /// The state of a new progress task.
    pub fn new(kind: ProgressKind, content_length: Option<u64>) -> (s: Self)
        ensures
            s == (ProgressState { kind, last_trigger: 0, content_length }),
    {
        ProgressState { kind, last_trigger: 0, content_length }
    }

    /// Handles one event: reports are delivered with the content length (the
    /// slow kinds only when a new whole megabyte has been reached), `Finished`
    /// stops the task, and a failed send closes the receiver when asked to.
    pub fn step(&mut self, event: ProgressEvent) -> (a: ProgressAction)
        ensures
            (*final(self), a) == progress_step(*old(self), event),
    {
        match self.kind {
            ProgressKind::NoCallback => {
                return ProgressAction::Stop;
            },
            _ => {},
        }
        match event {
            ProgressEvent::SendFailed => match self.kind {
                ProgressKind::Channel(true) | ProgressKind::SlowChannel(true) => {
                    ProgressAction::CloseReceiver
                },
                _ => ProgressAction::Skip,
            },
            ProgressEvent::Signal(InternalSignal::Finished) => ProgressAction::Stop,
            ProgressEvent::Signal(InternalSignal::Value(data)) => {
                let args = CallbackArguments {
                    current_chunk: data,
                    content_length: self.content_length,
                };
                let slow = match self.kind {
                    ProgressKind::SlowClosure | ProgressKind::SlowAsyncClosure
                    | ProgressKind::SlowChannel(_) => true,
                    _ => false,
                };
                if slow {
                    let million = data / 1_000_000;
                    if self.last_trigger < million {
                        self.last_trigger = million;
                        ProgressAction::Deliver(args)
                    } else {
                        ProgressAction::Skip
                    }
                } else {
                    ProgressAction::Deliver(args)
                }
            },
        }
    }
}

/// The slow kinds report at most once per megabyte: the recorded megabyte
/// count never decreases, and every slow delivery is of a megabyte count
/// greater than any delivered before.
pub proof fn lemma_slow_reports_increase(s: ProgressState, e: ProgressEvent)
    ensures
        progress_step(s, e).0.last_trigger >= s.last_trigger,
        progress_step(s, e).0.kind == s.kind,
        progress_step(s, e).0.content_length == s.content_length,
        is_slow(s.kind) ==> (progress_step(s, e).1 matches ProgressAction::Deliver(a) ==> (a.current_chunk
            / 1_000_000 == progress_step(s, e).0.last_trigger && progress_step(s, e).0.last_trigger
            > s.last_trigger)),
{
}

/// Every delivery carries the content length the task was started with.
pub proof fn lemma_deliveries_carry_content_length(s: ProgressState, e: ProgressEvent)
    ensures
        progress_step(s, e).1 matches ProgressAction::Deliver(a) ==> a.content_length
            == s.content_length,
{
}

/// What each kind of progress reporting does with a report of `data` bytes:
/// without a callback the task stops; the closures and channels that report
/// every chunk deliver every report; the slow closures and channels (around
/// once per megabyte) deliver a report only when it reaches a whole megabyte
/// count above the last one delivered, recording that count, and skip it
/// otherwise. Every delivery carries the byte count and the content length.
pub proof fn lemma_progress_reports(s: ProgressState, data: usize)
    ensures
        ({
            let (next, action) = progress_step(s, ProgressEvent::Signal(InternalSignal::Value(data)));
            let args = CallbackArguments { current_chunk: data, content_length: s.content_length };
            &&& s.kind is NoCallback ==> action is Stop && next == s
            &&& (s.kind is Closure || s.kind is AsyncClosure || s.kind is Channel) ==> action
                == ProgressAction::Deliver(args) && next == s
            &&& (s.kind is SlowClosure || s.kind is SlowAsyncClosure || s.kind is SlowChannel) ==> (if s.last_trigger
                < data / 1_000_000 {
                action == ProgressAction::Deliver(args) && next == (ProgressState {
                    last_trigger: data / 1_000_000,
                    ..s
                })
            } else {
                action is Skip && next == s
            })
        }),
{
}

/// The end of a download stops the task; a failed send to a channel that
/// was asked to cancel on close closes the receiver, and is skipped otherwise.
pub proof fn lemma_progress_ends_and_failed_sends(s: ProgressState)
    ensures
        progress_step(s, ProgressEvent::Signal(InternalSignal::Finished)).1 is Stop,
        progress_step(s, ProgressEvent::SendFailed).1 == (if s.kind == ProgressKind::Channel(true)
            || s.kind == ProgressKind::SlowChannel(true) {
            ProgressAction::CloseReceiver
        } else if s.kind is NoCallback {
            ProgressAction::Stop
        } else {
            ProgressAction::Skip
        }),
        progress_step(s, ProgressEvent::SendFailed).0 == s,
{
}

/// The byte counter of a download that reports its progress.
pub struct ProgressCounter {
    pub written: usize,
}

/// What sending a progress report to the internal channel gave.
pub enum SendOutcome {
    Sent,
    /// The channel was full; the report is dropped and the download goes on.
    Full,
    /// The channel was closed; the download fails.
    Closed,
}

impl ProgressCounter {
    /// A counter at zero.
    pub fn new() -> (c: Self)
        ensures
            c.written == 0,
    {
        ProgressCounter { written: 0 }
    }

    /// Counts a written chunk and gives the number of bytes written so far.
    pub fn record_chunk(&mut self, chunk_len: usize) -> (total: usize)
        requires
            old(self).written + chunk_len <= usize::MAX,
        ensures
            final(self).written == old(self).written + chunk_len,
            total == final(self).written,
    {
        self.written = self.written + chunk_len;
        self.written
    }

    /// Whether the download goes on after sending a report: only a closed
    /// channel stops it.
    pub fn after_send(outcome: SendOutcome) -> (r: Result<(), Error>)
        ensures
            match outcome {
                SendOutcome::Closed => r matches Err(Error::ChannelClosed),
                _ => r is Ok,
            },
    {
        match outcome {
            SendOutcome::Closed => Err(Error::ChannelClosed),
            _ => Ok(()),
        }
    }
}

} // verus!
