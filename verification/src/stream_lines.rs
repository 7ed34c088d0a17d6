//! Line framing for the plain-HTTP streaming encodings: NDJSON and
//! server-sent events.
//!
//! Network chunks arrive in arbitrary pieces; each reader buffers them
//! and hands out one framed item per step. The caller feeds chunks in and
//! asks for steps until the reader wants more input.

use vstd::prelude::*;

use crate::codec::spec_strip;
use crate::codec::strip_lit;
use crate::text::chars_of;
use crate::text::string_of;

verus! {

/// Whether `c` is ASCII whitespace as the framing understands it.
pub open spec fn is_framing_space(c: char) -> bool {
    c == ' ' || c == '\t' || c == '\r' || c == '\n'
}

/// `s` with leading and trailing ASCII whitespace removed.
pub open spec fn spec_trim(s: Seq<char>) -> Seq<char>
    decreases s.len(),
{
    if s.len() == 0 {
        s
    } else if is_framing_space(s[0]) {
        spec_trim(s.drop_first())
    } else if is_framing_space(s.last()) {
        spec_trim(s.drop_last())
    } else {
        s
    }
}

/// Remove leading and trailing ASCII whitespace.
fn trim_chars(s: Vec<char>) -> (r: Vec<char>)
    ensures
        r@ == spec_trim(s@),
    decreases s@.len(),
{
    let mut s = s;
    if s.len() == 0 {
        return s;
    }
    let first = s[0];
    if first == ' ' || first == '\t' || first == '\r' || first == '\n' {
        let ghost pre = s@;
        s.remove(0);
        proof {
            assert(s@ =~= pre.drop_first());
        }
        return trim_chars(s);
    }
    let last = s[s.len() - 1];
    if last == ' ' || last == '\t' || last == '\r' || last == '\n' {
        let ghost pre = s@;
        s.pop();
        proof {
            assert(s@ =~= pre.drop_last());
        }
        return trim_chars(s);
    }
    s
}

/// The first newline split of `s`: the text before the first `\n` and
/// the text after it.
pub open spec fn spec_split_newline(s: Seq<char>) -> Option<(Seq<char>, Seq<char>)> {
    if exists|i: int| 0 <= i < s.len() && s[i] == '\n' {
        let i = choose|i: int| 0 <= i < s.len() && s[i] == '\n' && (forall|j: int|
            0 <= j < i ==> s[j] != '\n');
        Some((s.take(i), s.skip(i + 1)))
    } else {
        None
    }
}

fn split_newline(buffer: &mut Vec<char>) -> (r: Option<Vec<char>>)
    ensures
        match r {
            Some(line) => {
                &&& spec_split_newline(old(buffer)@) matches Some(p)
                &&& spec_split_newline(old(buffer)@) == Some((line@, final(buffer)@))
            },
            None => final(buffer)@ == old(buffer)@ && spec_split_newline(old(buffer)@) is None,
        },
{
    let n = buffer.len();
    let mut i: usize = 0;
    while i < n
        invariant
            *buffer == *old(buffer),
            n == buffer@.len(),
            i <= n,
            forall|j: int| 0 <= j < i ==> buffer@[j] != '\n',
        decreases n - i,
    {
        if buffer[i] == '\n' {
            let mut line: Vec<char> = Vec::new();
            let mut k: usize = 0;
            while k < i
                invariant
                    *buffer == *old(buffer),
                    k <= i < buffer@.len(),
                    line@ == buffer@.take(i as int).take(k as int),
                decreases i - k,
            {
                line.push(buffer[k]);
                proof {
                    assert(buffer@.take(i as int).take(k + 1) =~= buffer@.take(i as int).take(
                        k as int,
                    ).push(buffer@[k as int]));
                }
                k = k + 1;
            }
            proof {
                assert(buffer@.take(i as int).take(i as int) =~= buffer@.take(i as int));
            }
            let mut rest: Vec<char> = Vec::new();
            let mut m: usize = i + 1;
            while m < n
                invariant
                    *buffer == *old(buffer),
                    i < buffer@.len(),
                    i + 1 <= m <= n,
                    n == buffer@.len(),
                    rest@ == buffer@.subrange(i + 1, m as int),
                decreases n - m,
            {
                rest.push(buffer[m]);
                proof {
                    assert(buffer@.subrange(i + 1, m + 1) =~= buffer@.subrange(i + 1, m as int)
                        .push(buffer@[m as int]));
                }
                m = m + 1;
            }
            proof {
                assert(rest@ =~= buffer@.skip(i + 1));
                let wit = i as int;
                assert(0 <= wit < buffer@.len() && buffer@[wit] == '\n');
                let ch = choose|c: int|
                    0 <= c < buffer@.len() && buffer@[c] == '\n' && (forall|j: int|
                        0 <= j < c ==> buffer@[j] != '\n');
                assert(ch == wit);
            }
            *buffer = rest;
            return Some(line);
        }
        i = i + 1;
    }
    None
}

/// One step of a framed reader.
#[derive(Debug, PartialEq, Eq)]
pub enum FramingStep {
    /// One framed item, ready for decoding.
    Item(String),
    /// A line was consumed but carried nothing; ask again.
    Skip,
    /// No full line is buffered; feed more input (or finish).
    NeedMore,
}

/// The NDJSON reader: buffers chunks and yields one trimmed, non-empty
/// line per item.
pub struct NdjsonReader {
    pub buffer: Vec<char>,
}

impl NdjsonReader {
    /// A reader with an empty buffer.
    pub fn new() -> (r: Self)
        ensures
            r.buffer@.len() == 0,
    {
        NdjsonReader { buffer: Vec::new() }
    }

    /// Feed one network chunk into the buffer.
    pub fn push_chunk(&mut self, chunk: &str)
        ensures
            final(self).buffer@ == old(self).buffer@ + chunk@,
    {
        let c = chars_of(chunk);
        crate::text::push_chars(&mut self.buffer, &c);
    }

    /// Take one step: split off the first buffered line; a line whose
    /// trimmed text is empty is skipped, any other yields its trimmed
    /// text; without a full line, more input is needed.
    pub fn next_step(&mut self) -> (r: FramingStep)
        ensures
            match r {
                FramingStep::Item(line) => {
                    &&& spec_split_newline(old(self).buffer@) matches Some(p)
                    &&& (spec_split_newline(old(self).buffer@) matches Some(p) ==> {
                        &&& final(self).buffer@ == p.1
                        &&& line@ == spec_trim(p.0)
                        &&& line@.len() > 0
                    })
                },
                FramingStep::Skip => {
                    &&& spec_split_newline(old(self).buffer@) matches Some(p)
                    &&& (spec_split_newline(old(self).buffer@) matches Some(p) ==> {
                        &&& final(self).buffer@ == p.1
                        &&& spec_trim(p.0).len() == 0
                    })
                },
                FramingStep::NeedMore => final(self).buffer@ == old(self).buffer@
                    && spec_split_newline(old(self).buffer@) is None,
            },
    {
        match split_newline(&mut self.buffer) {
            Some(line) => {
                let trimmed = trim_chars(line);
                if trimmed.len() == 0 {
                    FramingStep::Skip
                } else {
                    FramingStep::Item(string_of(&trimmed))
                }
            },
            None => FramingStep::NeedMore,
        }
    }

    /// The stream ended: a final non-empty trimmed remainder is one last
    /// item; otherwise there is nothing more.
    pub fn finish(&mut self) -> (r: Option<String>)
        ensures
            final(self).buffer@.len() == 0,
            match r {
                Some(line) => line@ == spec_trim(old(self).buffer@) && line@.len() > 0,
                None => spec_trim(old(self).buffer@).len() == 0,
            },
    {
        let mut taken: Vec<char> = Vec::new();
        core::mem::swap(&mut taken, &mut self.buffer);
        let trimmed = trim_chars(taken);
        if trimmed.len() == 0 {
            None
        } else {
            Some(string_of(&trimmed))
        }
    }
}

/// The server-sent-events reader: buffers chunks and yields the payload
/// of each `data: ` line.
pub struct SseReader {
    pub buffer: Vec<char>,
}

/// `line` without one trailing carriage return, if it has one.
pub open spec fn spec_strip_cr(line: Seq<char>) -> Seq<char> {
    if line.len() > 0 && line.last() == '\r' {
        line.drop_last()
    } else {
        line
    }
}

impl SseReader {
    /// A reader with an empty buffer.
    pub fn new() -> (r: Self)
        ensures
            r.buffer@.len() == 0,
    {
        SseReader { buffer: Vec::new() }
    }

    /// Feed one network chunk into the buffer.
    pub fn push_chunk(&mut self, chunk: &str)
        ensures
            final(self).buffer@ == old(self).buffer@ + chunk@,
    {
        let c = chars_of(chunk);
        crate::text::push_chars(&mut self.buffer, &c);
    }

    /// Take one step: split off the first buffered line, drop a trailing
    /// carriage return, and yield the payload of a `data: ` line; any
    /// other line is skipped.
    pub fn next_step(&mut self) -> (r: FramingStep)
        ensures
            match r {
                FramingStep::Item(payload) => {
                    &&& spec_split_newline(old(self).buffer@) matches Some(p)
                    &&& (spec_split_newline(old(self).buffer@) matches Some(p) ==> {
                        &&& final(self).buffer@ == p.1
                        &&& spec_strip(spec_strip_cr(p.0), "data: "@) == Some(payload@)
                    })
                },
                FramingStep::Skip => {
                    &&& spec_split_newline(old(self).buffer@) matches Some(p)
                    &&& (spec_split_newline(old(self).buffer@) matches Some(p) ==> {
                        &&& final(self).buffer@ == p.1
                        &&& spec_strip(spec_strip_cr(p.0), "data: "@) is None
                    })
                },
                FramingStep::NeedMore => final(self).buffer@ == old(self).buffer@
                    && spec_split_newline(old(self).buffer@) is None,
            },
    {
        match split_newline(&mut self.buffer) {
            Some(line) => {
                let mut line = line;
                let stripped = if line.len() > 0 && line[line.len() - 1] == '\r' {
                    line.pop();
                    line
                } else {
                    line
                };
                proof {
                    assert(stripped@.skip(0) =~= stripped@);
                }
                match strip_lit(&stripped, 0, "data: ") {
                    Some(j) => {
                        let mut payload: Vec<char> = Vec::new();
                        let mut k: usize = j;
                        while k < stripped.len()
                            invariant
                                j <= k <= stripped@.len(),
                                payload@ == stripped@.subrange(j as int, k as int),
                            decreases stripped@.len() - k,
                        {
                            payload.push(stripped[k]);
                            proof {
                                assert(stripped@.subrange(j as int, k + 1) =~= stripped@.subrange(
                                    j as int,
                                    k as int,
                                ).push(stripped@[k as int]));
                            }
                            k = k + 1;
                        }
                        proof {
                            assert(payload@ =~= stripped@.skip(j as int));
                        }
                        FramingStep::Item(string_of(&payload))
                    },
                    None => FramingStep::Skip,
                }
            },
            None => FramingStep::NeedMore,
        }
    }
}

} // verus!
