//! Event streams: lines of text that make events.
//!
//! An event is a run of lines with an empty line behind it. `data:` lines hold its text, joined by
//! line breaks; an `event:` line names it; a line that begins with a colon is a comment. An event
//! without data is none, and neither is one that the end of the stream cuts off.
use vstd::prelude::*;

use crate::text::{begins, concat3, starts_with};

verus! {

/// An event of a stream.
#[derive(Debug)]
pub struct SseEvent {
    pub event: String,
    pub data: String,
}

#[verifier::ext_equal]
pub struct SseView {
    pub event: Seq<char>,
    pub data: Seq<char>,
}

impl DeepView for SseEvent {
    type V = SseView;

    open spec fn deep_view(&self) -> SseView {
        SseView { event: self.event@, data: self.data@ }
    }
}

/// The lines of an event that is not complete yet.
#[derive(Debug)]
pub struct SseReader {
    pub event: String,
    pub data: Option<String>,
}

#[verifier::ext_equal]
pub struct ReaderView {
    pub event: Seq<char>,
    pub data: Option<Seq<char>>,
}

impl DeepView for SseReader {
    type V = ReaderView;

    open spec fn deep_view(&self) -> ReaderView {
        ReaderView { event: self.event@, data: self.data.deep_view() }
    }
}

/// The value behind a field's name; one space before it does not count.
pub open spec fn field_value(line: Seq<char>, name: Seq<char>) -> Seq<char> {
    let rest = line.skip(name.len() as int);
    if begins(rest, " "@) {
        rest.drop_first()
    } else {
        rest
    }
}

/// A line without the carriage return at its end.
pub open spec fn bare(line: Seq<char>) -> Seq<char> {
    if line.len() > 0 && line.last() == '\r' {
        line.drop_last()
    } else {
        line
    }
}

/// What a line makes of the reader, and the event that it completes.
pub open spec fn after_line(r: ReaderView, given: Seq<char>) -> (ReaderView, Option<SseView>) {
    let line = bare(given);
    if line.len() == 0 {
        (
            ReaderView { event: ""@, data: None },
            match r.data {
                Some(data) => Some(SseView { event: r.event, data }),
                None => None,
            },
        )
    } else if begins(line, "data:"@) {
        let value = field_value(line, "data:"@);
        (
            ReaderView {
                data: Some(
                    match r.data {
                        Some(data) => data + "\n"@ + value,
                        None => value,
                    },
                ),
                ..r
            },
            None,
        )
    } else if begins(line, "event:"@) {
        (ReaderView { event: field_value(line, "event:"@), ..r }, None)
    } else {
        (r, None)
    }
}

fn value_behind<'a>(line: &'a str, name: &str) -> (r: &'a str)
    requires
        begins(line@, name@),
    ensures
        r@ == field_value(line@, name@),
{
    let n: usize = name.unicode_len();
    let len: usize = line.unicode_len();
    let rest = line.substring_char(n, len);
    assert(rest@ =~= line@.skip(n as int));
    proof {
        reveal_strlit(" ");
    }
    if starts_with(rest, " ") {
        let r = line.substring_char(n + 1, len);
        assert(r@ =~= rest@.drop_first());
        r
    } else {
        rest
    }
}

impl SseReader {
    pub fn new() -> (r: SseReader)
        ensures
            r.deep_view() == (ReaderView { event: ""@, data: None }),
    {
        SseReader { event: "".to_owned(), data: None }
    }

    /// Takes in a line, without the line break at its end.
    pub fn push_line(&mut self, given: &str) -> (event: Option<SseEvent>)
        ensures
            (final(self).deep_view(), event.deep_view()) == after_line(
                old(self).deep_view(),
                given@,
            ),
    {
        let len: usize = given.unicode_len();
        let line = if len > 0 && given.get_char(len - 1) == '\r' {
            let cut = given.substring_char(0, len - 1);
            assert(cut@ =~= given@.drop_last());
            cut
        } else {
            given
        };
        if line.unicode_len() == 0 {
            let mut event = "".to_owned();
            let mut data: Option<String> = None;
            std::mem::swap(&mut event, &mut self.event);
            std::mem::swap(&mut data, &mut self.data);
            return match data {
                Some(data) => Some(SseEvent { event, data }),
                None => None,
            };
        }
        if starts_with(line, "data:") {
            let value = value_behind(line, "data:");
            let data = match &self.data {
                Some(data) => concat3(data.as_str(), "\n", value),
                None => value.to_owned(),
            };
            self.data = Some(data);
        } else if starts_with(line, "event:") {
            self.event = value_behind(line, "event:").to_owned();
        }
        None
    }
}

/// The reader after some lines.
pub open spec fn after_lines(r: ReaderView, lines: Seq<Seq<char>>) -> ReaderView
    decreases lines.len(),
{
    if lines.len() == 0 {
        r
    } else {
        after_line(after_lines(r, lines.drop_last()), lines.last()).0
    }
}

/// After an empty line nothing of what came before is left.
pub proof fn law_events_are_independent(r: ReaderView, lines: Seq<Seq<char>>)
    requires
        lines.len() > 0,
        bare(lines.last()).len() == 0,
    ensures
        after_lines(r, lines) == (ReaderView { event: ""@, data: None }),
{
}

} // verus!
