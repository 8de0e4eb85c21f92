//! SMTP reply model and the line-oriented reply reader.
//!
//! A reply is one or more lines `DDD-text` (continuation) ending with
//! `DDD text` or a bare `DDD` (final). The reader takes one line at a time,
//! already stripped of its CRLF, and reports explicitly whether the reply is
//! complete, still being continued, or malformed.

use vstd::prelude::*;
use crate::bytes::copy_tail;

verus! {

/// A parsed SMTP reply: a 3-digit code and its text lines, in order, with
/// code and separator stripped.
pub struct Response {
    pub code: u16,
    pub message: Vec<Vec<u8>>,
}

impl Response {
    pub open spec fn wf(self) -> bool {
        200 <= self.code < 600
    }

    /// A reply is positive when its leading digit is 2 (completion) or 3
    /// (intermediate, as the 334 AUTH challenges are).
    pub open spec fn spec_positive(self) -> bool {
        200 <= self.code < 400
    }

    pub open spec fn spec_texts(self) -> Seq<Seq<u8>> {
        self.message@.map_values(|v: Vec<u8>| v@)
    }

    pub fn is_positive(&self) -> (r: bool)
        ensures
            r == self.spec_positive(),
    {
        200 <= self.code && self.code < 400
    }

    pub fn has_code(&self, code: u16) -> (r: bool)
        ensures
            r == (self.code == code),
    {
        self.code == code
    }
}

pub open spec fn is_ascii_digit(b: u8) -> bool {
    48 <= b <= 57
}

/// A reply line carries a code when it starts with three digits, the first
/// of them 2 through 5.
pub open spec fn line_has_code(l: Seq<u8>) -> bool {
    l.len() >= 3 && is_ascii_digit(l[0]) && is_ascii_digit(l[1]) && is_ascii_digit(l[2]) && 50 <= l[0]
        <= 53
}

pub open spec fn line_code(l: Seq<u8>) -> int {
    (l[0] - 48) * 100 + (l[1] - 48) * 10 + (l[2] - 48)
}

/// A well-formed reply line: a code, either alone or followed by a space
/// (final line) or a hyphen (continuation line) and then the text.
pub open spec fn line_wf(l: Seq<u8>) -> bool {
    line_has_code(l) && (l.len() == 3 || l[3] == 32 || l[3] == 45)
}

pub open spec fn line_is_final(l: Seq<u8>) -> bool {
    l.len() == 3 || l[3] == 32
}

pub open spec fn line_text(l: Seq<u8>) -> Seq<u8> {
    if l.len() <= 4 {
        Seq::empty()
    } else {
        l.skip(4)
    }
}

/// What one reply line parses to.
pub enum ParsedLine {
    /// The final line of a reply.
    Complete { code: u16, text: Vec<u8> },
    /// A continuation line: more lines of the same reply follow.
    Partial { code: u16, text: Vec<u8> },
    /// Not a reply line.
    Malformed,
}

/// Parses one reply line (CRLF already stripped).
pub fn parse_reply_line(line: &[u8]) -> (r: ParsedLine)
    ensures
        !line_wf(line@) ==> (r matches ParsedLine::Malformed),
        line_wf(line@) && line_is_final(line@) ==> (r matches ParsedLine::Complete { code, text }
            && code == line_code(line@) && text@ == line_text(line@)),
        line_wf(line@) && !line_is_final(line@) ==> (r matches ParsedLine::Partial { code, text }
            && code == line_code(line@) && text@ == line_text(line@)),
{
    if line.len() < 3 {
        return ParsedLine::Malformed;
    }
    let d0 = line[0];
    let d1 = line[1];
    let d2 = line[2];
    if !(50 <= d0 && d0 <= 53 && 48 <= d1 && d1 <= 57 && 48 <= d2 && d2 <= 57) {
        return ParsedLine::Malformed;
    }
    let code: u16 = (d0 - 48) as u16 * 100 + (d1 - 48) as u16 * 10 + (d2 - 48) as u16;
    if line.len() == 3 {
        return ParsedLine::Complete { code, text: Vec::new() };
    }
    let sep = line[3];
    if sep == 32 {
        ParsedLine::Complete { code, text: copy_tail(line, 4) }
    } else if sep == 45 {
        ParsedLine::Partial { code, text: copy_tail(line, 4) }
    } else {
        ParsedLine::Malformed
    }
}

/// What feeding one line to the reader yields.
pub enum FeedOutcome {
    /// The reply is complete.
    Complete(Response),
    /// The line was a continuation; the caller should read another line.
    Incomplete,
    /// The line was not a reply line; the reply stream is broken.
    Failed,
}

/// Accumulates the lines of one possibly multi-line reply.
pub struct ResponseReader {
    lines: Vec<Vec<u8>>,
}

impl ResponseReader {
    /// The text lines collected so far for the reply in progress.
    pub closed spec fn pending(self) -> Seq<Seq<u8>> {
        self.lines@.map_values(|v: Vec<u8>| v@)
    }

    pub fn new() -> (r: ResponseReader)
        ensures
            r.pending() == Seq::<Seq<u8>>::empty(),
    {
        let r = ResponseReader { lines: Vec::new() };
        proof {
            assert(r.pending() =~= Seq::<Seq<u8>>::empty());
        }
        r
    }

    /// Feeds one line (CRLF stripped). A continuation line is collected and
    /// the caller is told to read on; a final line completes the reply, whose
    /// code is the final line's code, and resets the reader; a malformed line
    /// leaves the reader unchanged and reports failure.
    pub fn feed_line(&mut self, line: &[u8]) -> (r: FeedOutcome)
        ensures
            !line_wf(line@) ==> (r matches FeedOutcome::Failed) && final(self).pending()
                == old(self).pending(),
            line_wf(line@) && !line_is_final(line@) ==> (r matches FeedOutcome::Incomplete)
                && final(self).pending() == old(self).pending().push(line_text(line@)),
            line_wf(line@) && line_is_final(line@) ==> (r matches FeedOutcome::Complete(resp)
                && resp.code == line_code(line@) && resp.wf() && resp.spec_texts()
                == old(self).pending().push(line_text(line@))) && final(self).pending()
                == Seq::<Seq<u8>>::empty(),
    {
        match parse_reply_line(line) {
            ParsedLine::Malformed => FeedOutcome::Failed,
            ParsedLine::Partial { code: _, text } => {
                let ghost p0 = self.pending();
                self.lines.push(text);
                proof {
                    assert(self.pending() =~= p0.push(line_text(line@)));
                }
                FeedOutcome::Incomplete
            },
            ParsedLine::Complete { code, text } => {
                let ghost p0 = self.pending();
                self.lines.push(text);
                let mut taken: Vec<Vec<u8>> = Vec::new();
                core::mem::swap(&mut taken, &mut self.lines);
                let resp = Response { code, message: taken };
                proof {
                    assert(resp.spec_texts() =~= p0.push(line_text(line@)));
                    assert(self.pending() =~= Seq::<Seq<u8>>::empty());
                }
                FeedOutcome::Complete(resp)
            },
        }
    }
}

} // verus!
