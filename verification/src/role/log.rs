//! Capturing the log of a redeployment, to attach it to the issue opened
//! when the redeployment fails.

use vstd::prelude::*;
use vstd::utf8::{valid_utf8, decode_utf8};
use vstd::string::StringExecFns;
use crate::text::string_from_utf8;

verus! {

/// Where log lines go: into the capture while one is going on, to standard
/// output otherwise.
pub struct LogWriter {
    captured: Option<String>,
}

/// The capture after `buf` was written to a writer whose capture was `c`.
pub open spec fn after_write(c: Option<Seq<char>>, buf: Seq<u8>) -> Option<Seq<char>> {
    match c {
        Some(text) => Some(text + decode_utf8(buf)),
        None => None,
    }
}

/// The capture after each chunk of `bufs` was written, in order.
pub open spec fn after_writes(c: Option<Seq<char>>, bufs: Seq<Seq<u8>>) -> Option<Seq<char>>
    decreases bufs.len(),
{
    if bufs.len() == 0 {
        c
    } else {
        after_writes(after_write(c, bufs[0]), bufs.drop_first())
    }
}

/// The text of the chunks, one after the other.
pub open spec fn texts_of(bufs: Seq<Seq<u8>>) -> Seq<char>
    decreases bufs.len(),
{
    if bufs.len() == 0 {
        Seq::empty()
    } else {
        decode_utf8(bufs[0]) + texts_of(bufs.drop_first())
    }
}

/// A capture keeps everything written during it, in order: stopping it
/// right after starting it and writing `bufs` gives the text of `bufs`.
pub proof fn law_capture_keeps_what_was_written(start: Seq<char>, bufs: Seq<Seq<u8>>)
    ensures
        after_writes(Some(start), bufs) == Some(start + texts_of(bufs)),
    decreases bufs.len(),
{
    if bufs.len() == 0 {
        assert(start + texts_of(bufs) =~= start);
    } else {
        law_capture_keeps_what_was_written(start + decode_utf8(bufs[0]), bufs.drop_first());
        assert(start + decode_utf8(bufs[0]) + texts_of(bufs.drop_first()) =~= start + texts_of(bufs));
    }
}

/// Outside a capture nothing written is kept.
pub proof fn law_nothing_kept_outside_capture(bufs: Seq<Seq<u8>>)
    ensures
        after_writes(None, bufs) is None,
    decreases bufs.len(),
{
    if bufs.len() > 0 {
        law_nothing_kept_outside_capture(bufs.drop_first());
    }
}

impl LogWriter {
    /// The text captured so far, when a capture is going on.
    pub closed spec fn capture(&self) -> Option<Seq<char>> {
        match self.captured {
            Some(s) => Some(s@),
            None => None,
        }
    }

    /// A writer that captures nothing.
    pub fn new() -> (res: LogWriter)
        ensures
            res.capture() is None,
    {
        LogWriter { captured: None }
    }

    /// Whether a capture is going on.
    pub fn is_capturing(&self) -> (res: bool)
        ensures
            res == self.capture() is Some,
    {
        self.captured.is_some()
    }

    /// Writes a log chunk: while capturing, appends it to the capture and
    /// answers `true`; otherwise leaves the writer as it is and answers
    /// `false`, the chunk then going to standard output.
    pub fn write(&mut self, buf: &[u8]) -> (kept: bool)
        requires
            old(self).capture() is Some ==> valid_utf8(buf@),
        ensures
            kept == old(self).capture() is Some,
            final(self).capture() == after_write(old(self).capture(), buf@),
    {
        match self.captured.take() {
            Some(mut text) => {
                let v = vstd::slice::slice_to_vec(buf);
                let chunk = match string_from_utf8(v) {
                    Some(s) => s,
                    None => String::new(),
                };
                text.append(chunk.as_str());
                self.captured = Some(text);
                true
            },
            None => false,
        }
    }
}

/// Starts capturing the log, dropping whatever was captured before.
pub fn start_capture(writer: &mut LogWriter)
    ensures
        final(writer).capture() == Some(Seq::<char>::empty()),
{
    writer.captured = Some(String::new());
}

/// Stops capturing and gives the captured text (empty when no capture was
/// going on).
pub fn stop_capture(writer: &mut LogWriter) -> (res: String)
    ensures
        final(writer).capture() is None,
        res@ == match old(writer).capture() {
            Some(text) => text,
            None => Seq::<char>::empty(),
        },
{
    match writer.captured.take() {
        Some(text) => text,
        None => String::new(),
    }
}

} // verus!
