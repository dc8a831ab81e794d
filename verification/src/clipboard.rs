//! Clipboard and output-sink abstractions, with in-memory implementations.
//!
//! The pipeline never touches a real clipboard or stdout directly: both sit
//! behind these traits, and tests use the capturing implementations below.
use vstd::prelude::*;

use crate::error::YankError;
use crate::text::{join_sep, join_strings, strings_view};

verus! {

/// System clipboard.
pub trait Clipboard {
    /// Replace the clipboard contents with `text`.
    fn set_text(&mut self, text: &str) -> Result<(), YankError>;

    /// Whether a working clipboard backs this value; when not, the pipeline
    /// writes to the output sink instead.
    fn is_available(&self) -> bool;
}

/// Output sink for `--print` and the headless fallback.
pub trait OutputSink {
    /// Write `text` followed by a line break.
    fn write_line(&mut self, text: &str) -> Result<(), YankError>;

    /// Flush buffered output.
    fn flush(&mut self) -> Result<(), YankError>;
}

/// In-memory clipboard that records what was copied.
#[derive(Debug, Default)]
pub struct FakeClipboard {
    /// The last text copied, if any.
    pub last: Option<String>,
    /// Whether the clipboard acts as available.
    pub available: bool,
}

impl FakeClipboard {
    /// An available, empty clipboard.
    pub fn new_available() -> (r: Self)
        ensures
            r.last is None,
            r.available,
    {
        FakeClipboard { last: None, available: true }
    }

    /// An unavailable (headless) clipboard.
    pub fn new_unavailable() -> (r: Self)
        ensures
            r.last is None,
            !r.available,
    {
        FakeClipboard { last: None, available: false }
    }

    /// The last text copied, if any.
    pub fn contents(&self) -> (r: Option<String>)
        ensures
            match r {
                Some(s) => self.last matches Some(l) && l@ == s@,
                None => self.last is None,
            },
    {
        match &self.last {
            Some(s) => Some(s.clone()),
            None => None,
        }
    }
}

impl Clipboard for FakeClipboard {
    /// Records `text` when available; `ClipboardUnavailable` otherwise,
    /// with nothing recorded.
    fn set_text(&mut self, text: &str) -> (r: Result<(), YankError>)
        ensures
            old(self).available ==> r is Ok,
            old(self).available ==> (final(self).last matches Some(l) && l@ == text@),
            !old(self).available ==> (r matches Err(YankError::ClipboardUnavailable(_))),
            !old(self).available ==> final(self).last == old(self).last,
            final(self).available == old(self).available,
    {
        if !self.available {
            return Err(
                YankError::ClipboardUnavailable(String::from_str("fake clipboard marked unavailable")),
            );
        }
        self.last = Some(text.to_owned());
        Ok(())
    }

    fn is_available(&self) -> (r: bool)
        ensures
            r == self.available,
    {
        self.available
    }
}

/// Lines joined with a line break between consecutive ones.
pub open spec fn join_lines(ls: Seq<Seq<char>>) -> Seq<char> {
    join_sep(ls, "\n"@)
}

/// `lines` joined with `\n`.
pub fn join_with_newlines(lines: &Vec<String>) -> (r: String)
    ensures
        r@ == join_lines(strings_view(lines@)),
{
    join_strings(lines, "\n")
}

/// In-memory sink that keeps every line written.
#[derive(Debug, Default)]
pub struct BufferSink {
    /// The lines written, in order.
    pub lines: Vec<String>,
}

impl BufferSink {
    /// An empty sink.
    pub fn new() -> (r: Self)
        ensures
            r.lines@.len() == 0,
    {
        BufferSink { lines: Vec::new() }
    }

    /// Everything written, lines joined with `\n`.
    pub fn joined(&self) -> (r: String)
        ensures
            r@ == join_lines(strings_view(self.lines@)),
    {
        join_with_newlines(&self.lines)
    }
}

impl OutputSink for BufferSink {
    /// Keeps `text` as the next line.
    fn write_line(&mut self, text: &str) -> (r: Result<(), YankError>)
        ensures
            r is Ok,
            strings_view(final(self).lines@) == strings_view(old(self).lines@).push(text@),
    {
        let ghost before = self.lines@;
        self.lines.push(text.to_owned());
        assert(strings_view(self.lines@) =~= strings_view(before).push(text@));
        Ok(())
    }

    fn flush(&mut self) -> (r: Result<(), YankError>)
        ensures
            r is Ok,
            final(self).lines == old(self).lines,
    {
        Ok(())
    }
}

} // verus!
