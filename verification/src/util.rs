//! Small text rules that several parts share: cleaning, cutting, summaries.
use vstd::prelude::*;

use crate::json::{printed_json, Json};
use crate::text::{chars_of, dec, decimal};

verus! {

/// Where a cleaning pass stands inside terminal control text.
#[derive(Clone, Copy, PartialEq, Eq, Structural)]
pub enum Escape {
    /// Ordinary text.
    Plain,
    /// Behind an escape character.
    Begun,
    /// Inside a control sequence, which a letter or another final character ends.
    Sequence,
    /// Inside an operating system command, which a bell or an escape ends.
    Command,
}

/// A control character that is neither a line break nor a tab.
pub open spec fn is_noise(c: char) -> bool {
    (c < ' ' && c != '\n' && c != '\t') || ('\x7f' <= c && c <= '\u{9f}')
}

/// Where the pass stands behind `c`.
pub open spec fn escape_after(at: Escape, c: char) -> Escape {
    match at {
        Escape::Plain => if c == '\x1b' {
            Escape::Begun
        } else {
            Escape::Plain
        },
        Escape::Begun => if c == '[' {
            Escape::Sequence
        } else if c == ']' {
            Escape::Command
        } else {
            Escape::Plain
        },
        Escape::Sequence => if '@' <= c && c <= '~' {
            Escape::Plain
        } else {
            Escape::Sequence
        },
        Escape::Command => if c == '\x07' {
            Escape::Plain
        } else if c == '\x1b' {
            Escape::Begun
        } else {
            Escape::Command
        },
    }
}

pub open spec fn escape_state(text: Seq<char>) -> Escape
    decreases text.len(),
{
    if text.len() == 0 {
        Escape::Plain
    } else {
        escape_after(escape_state(text.drop_last()), text.last())
    }
}

/// The text without terminal escapes and other control characters.
pub open spec fn cleaned(text: Seq<char>) -> Seq<char>
    decreases text.len(),
{
    if text.len() == 0 {
        seq![]
    } else {
        let before = cleaned(text.drop_last());
        if escape_state(text.drop_last()) == Escape::Plain && !is_noise(text.last()) {
            before.push(text.last())
        } else {
            before
        }
    }
}

pub fn sanitize(text: &str) -> (out: String)
    ensures
        out@ == cleaned(text@),
{
    let chars = chars_of(text);
    let mut out = String::new();
    let mut at = Escape::Plain;
    let mut i: usize = 0;
    while i < chars.len()
        invariant
            i <= chars@.len(),
            at == escape_state(chars@.take(i as int)),
            out@ == cleaned(chars@.take(i as int)),
        decreases chars@.len() - i,
    {
        proof {
            crate::list::take_next(chars@, i as int);
        }
        let c = chars[i];
        let noise = (c < ' ' && c != '\n' && c != '\t') || ('\x7f' <= c && c <= '\u{9f}');
        if at == Escape::Plain && !noise {
            out.push(c);
        }
        at = match at {
            Escape::Plain => if c == '\x1b' {
                Escape::Begun
            } else {
                Escape::Plain
            },
            Escape::Begun => if c == '[' {
                Escape::Sequence
            } else if c == ']' {
                Escape::Command
            } else {
                Escape::Plain
            },
            Escape::Sequence => if '@' <= c && c <= '~' {
                Escape::Plain
            } else {
                Escape::Sequence
            },
            Escape::Command => if c == '\x07' {
                Escape::Plain
            } else if c == '\x1b' {
                Escape::Begun
            } else {
                Escape::Command
            },
        };
        i = i + 1;
    }
    proof {
        crate::list::take_all(chars@);
    }
    out
}

/// Cleaned text holds no escape and no other control character but line breaks and tabs.
pub proof fn law_sanitize_leaves_no_control_characters(text: Seq<char>)
    ensures
        forall|i: int| 0 <= i < cleaned(text).len() ==> !is_noise(#[trigger] cleaned(text)[i]),
    decreases text.len(),
{
    if text.len() > 0 {
        let before = cleaned(text.drop_last());
        law_sanitize_leaves_no_control_characters(text.drop_last());
        assert forall|i: int| 0 <= i < cleaned(text).len() implies !is_noise(
            #[trigger] cleaned(text)[i],
        ) by {
            if i < before.len() {
                assert(cleaned(text)[i] == before[i]);
            }
        }
    }
}

/// The text without its middle, where it is longer than `max` characters.
pub open spec fn middle_cut(text: Seq<char>, max: nat) -> Seq<char> {
    if text.len() <= max {
        text
    } else {
        let head = max / 2;
        let tail = (max - head) as nat;
        text.take(head as int) + "\n……[中间省略 "@ + dec((text.len() - max) as nat) + " 字符]……\n"@
            + text.skip(text.len() - tail)
    }
}

pub fn truncate_middle(text: &str, max: usize) -> (out: String)
    ensures
        out@ == middle_cut(text@, max as nat),
{
    let len: usize = text.unicode_len();
    if len <= max {
        return text.to_owned();
    }
    let head: usize = max / 2;
    let tail: usize = max - head;
    let mut out = text.substring_char(0, head).to_owned();
    assert(out@ =~= text@.take(head as int));
    out.push_str("\n……[中间省略 ");
    out.push_str(decimal((len - max) as u64).as_str());
    out.push_str(" 字符]……\n");
    let end = text.substring_char(len - tail, len);
    assert(end@ =~= text@.skip(text@.len() - tail));
    out.push_str(end);
    out
}

/// The text, or its beginning and a mark, in at most `max` characters.
pub open spec fn end_cut(text: Seq<char>, max: nat) -> Seq<char> {
    if text.len() <= max {
        text
    } else if max == 0 {
        seq![]
    } else {
        text.take(max - 1).push('…')
    }
}

pub fn ellipsis(text: &str, max: usize) -> (out: String)
    ensures
        out@ == end_cut(text@, max as nat),
        out@.len() <= max,
{
    if text.unicode_len() <= max {
        return text.to_owned();
    }
    if max == 0 {
        return String::new();
    }
    let mut out = text.substring_char(0, max - 1).to_owned();
    assert(out@ =~= text@.take(max - 1));
    out.push('…');
    out
}

/// The characters of an argument summary.
pub const ARGS_SUMMARY_CHARS: usize = 200;

/// One line on the arguments of a tool call.
pub open spec fn summary_of(args: crate::json::JsonView) -> Seq<char> {
    end_cut(cleaned(printed_json(args)), ARGS_SUMMARY_CHARS as nat)
}

pub fn args_summary(args: &Json) -> (out: String)
    ensures
        out@ == summary_of(args@),
{
    ellipsis(sanitize(args.print().as_str()).as_str(), ARGS_SUMMARY_CHARS)
}

/// A token count, in thousands with one decimal from one thousand on.
pub open spec fn token_text(n: nat) -> Seq<char> {
    if n < 1000 {
        dec(n)
    } else {
        dec(n / 1000) + "."@ + dec(n / 100 % 10) + "k"@
    }
}

pub fn fmt_tokens(n: u64) -> (out: String)
    ensures
        out@ == token_text(n as nat),
{
    if n < 1000 {
        return decimal(n);
    }
    let mut out = decimal(n / 1000);
    out.push_str(".");
    out.push_str(decimal(n / 100 % 10).as_str());
    out.push_str("k");
    out
}

} // verus!
