//! Single-line prompt abstraction for interactive commands.
//!
//! [`LinePrompter`] decouples "show a prompt and read one line" from where
//! that line comes from. A terminal front end supplies line editing;
//! [`BufReadPrompter`] drives the same helpers from a byte buffer.

use vstd::prelude::*;
use vstd::utf8::{decode_utf8, encode_utf8, valid_utf8};

verus! {

#[verifier::external_type_specification]
#[verifier::external_body]
pub struct ExIoError(std::io::Error);

/// What [`LinePrompter::read_line`] returned: a line, end of input (the
/// caller may fall back to a default), or an interrupt (the caller must
/// abort).
#[derive(Debug)]
pub enum LineOutcome {
    /// User typed a line. String has no trailing newline.
    Line(String),
    /// End of input.
    Eof,
    /// User pressed Ctrl-C.
    Interrupted,
}

/// What a read heard: a line, end of input, an interrupt, or a failed read.
pub enum Heard {
    Line(Seq<char>),
    Eof,
    Interrupted,
    Failed,
}

/// What [`LinePrompter::read_line`] heard, by its result.
pub open spec fn heard_of(r: Result<LineOutcome, std::io::Error>) -> Heard {
    match r {
        Ok(LineOutcome::Line(s)) => Heard::Line(s@),
        Ok(LineOutcome::Eof) => Heard::Eof,
        Ok(LineOutcome::Interrupted) => Heard::Interrupted,
        Err(_) => Heard::Failed,
    }
}

/// One step of a conversation with a prompter: a prompt and what was heard
/// in answer, or a status line and whether writing it failed.
pub enum Exchange {
    Asked { prompt: Seq<char>, heard: Heard },
    Said { text: Seq<char>, failed: bool },
}

/// What the read at position `i` of a transcript heard.
pub open spec fn heard_at(t: Seq<Exchange>, i: int) -> Heard {
    match t[i] {
        Exchange::Asked { heard, .. } => heard,
        Exchange::Said { .. } => Heard::Failed,
    }
}

/// Whether writing the status line at position `i` of a transcript failed.
pub open spec fn failed_at(t: Seq<Exchange>, i: int) -> bool {
    match t[i] {
        Exchange::Asked { .. } => false,
        Exchange::Said { failed, .. } => failed,
    }
}

/// `after` is `before` with one more read, of `prompt`.
pub open spec fn asked_once(before: Seq<Exchange>, after: Seq<Exchange>, prompt: Seq<char>) -> bool {
    after == before.push(Exchange::Asked { prompt, heard: heard_at(after, before.len() as int) })
}

/// `after` is `before` with one more read, of `prompt`, and then the
/// status line `text`.
pub open spec fn asked_then_said(
    before: Seq<Exchange>,
    after: Seq<Exchange>,
    prompt: Seq<char>,
    text: Seq<char>,
) -> bool {
    after == before.push(Exchange::Asked { prompt, heard: heard_at(after, before.len() as int) }).push(
        Exchange::Said { text, failed: failed_at(after, before.len() + 1int) },
    )
}

/// Show a prompt, read one line, optionally print a status line.
///
/// A prompter may keep a transcript of the conversation: where
/// `obeys_transcript` holds, every read adds the prompt and what was heard
/// to `transcript`, and every status line adds itself.
pub trait LinePrompter {
    /// Whether this prompter keeps [`LinePrompter::transcript`].
    open spec fn obeys_transcript(&self) -> bool {
        false
    }

    /// The conversation so far, oldest first.
    open spec fn transcript(&self) -> Seq<Exchange> {
        Seq::empty()
    }

    /// Display `prompt` and read one line, stripped of any trailing `\n`
    /// or `\r\n`.
    fn read_line(&mut self, prompt: &str) -> (r: Result<LineOutcome, std::io::Error>)
        ensures
            old(self).obeys_transcript() ==> final(self).obeys_transcript(),
            old(self).obeys_transcript() ==> final(self).transcript() == old(self).transcript().push(
                Exchange::Asked { prompt: prompt@, heard: heard_of(r) },
            ),
    ;

    /// Emit a status / re-prompt line such as "Please answer y or n.".
    fn writeln(&mut self, msg: &str) -> (r: Result<(), std::io::Error>)
        ensures
            old(self).obeys_transcript() ==> final(self).obeys_transcript(),
            old(self).obeys_transcript() ==> final(self).transcript() == old(self).transcript().push(
                Exchange::Said { text: msg@, failed: r is Err },
            ),
    ;
}

/// `std::str::from_utf8`, owned: the text the bytes encode, when they are
/// valid UTF-8.
#[verifier::external_body]
fn utf8_to_string(bytes: &[u8]) -> (r: Option<String>)
    ensures
        r is Some <==> valid_utf8(bytes@),
        r matches Some(s) ==> s@ == decode_utf8(bytes@),
{
    std::str::from_utf8(bytes).ok().map(|s| s.to_string())
}

/// `std::io::Error::new` with kind `InvalidData`: the error a reader
/// reports for bytes that are not UTF-8.
#[verifier::external_body]
fn invalid_utf8_error() -> std::io::Error {
    std::io::Error::new(std::io::ErrorKind::InvalidData, "stream did not contain valid UTF-8")
}

/// Append `b` to `v`.
fn push_bytes(v: &mut Vec<u8>, b: &[u8])
    ensures
        final(v)@ == old(v)@ + b@,
{
    let mut i: usize = 0;
    while i < b.len()
        invariant
            i <= b@.len(),
            v@ == old(v)@ + b@.take(i as int),
        decreases b@.len() - i,
    {
        v.push(b[i]);
        i = i + 1;
        assert(v@ =~= old(v)@ + b@.take(i as int));
    }
    assert(b@.take(b@.len() as int) =~= b@);
}

/// Position of the first `x` in `t`, or `t.len()` when there is none.
pub open spec fn first_byte(t: Seq<u8>, x: u8) -> int
    decreases t.len(),
{
    if t.len() == 0 {
        0
    } else if t[0] == x {
        0
    } else {
        1 + first_byte(t.drop_first(), x)
    }
}

proof fn lemma_first_byte_at(t: Seq<u8>, x: u8, r: int)
    requires
        0 <= r <= t.len(),
        forall|k: int| 0 <= k < r ==> t[k] != x,
        r == t.len() || t[r] == x,
    ensures
        first_byte(t, x) == r,
    decreases r,
{
    if r > 0 {
        lemma_first_byte_at(t.drop_first(), x, r - 1);
    }
}

/// Where the line that starts at `pos` ends: just after its newline, or
/// at the end of the input.
pub open spec fn line_chunk_end(input: Seq<u8>, pos: int) -> int {
    let rest = input.skip(pos);
    let k = first_byte(rest, 10u8);
    if k < rest.len() {
        pos + k + 1
    } else {
        input.len() as int
    }
}

/// The bytes of the line that starts at `pos`, its newline included.
pub open spec fn read_chunk(input: Seq<u8>, pos: int) -> Seq<u8> {
    input.subrange(pos, line_chunk_end(input, pos))
}

/// `cs` without a trailing `\n`, and then without a `\r` before it.
pub open spec fn strip_line_end(cs: Seq<char>) -> Seq<char> {
    if cs.len() > 0 && cs.last() == '\n' {
        let d = cs.drop_last();
        if d.len() > 0 && d.last() == '\r' {
            d.drop_last()
        } else {
            d
        }
    } else {
        cs
    }
}

/// A prompter that reads its lines from a byte buffer and writes prompts
/// and messages to a byte vector.
pub struct BufReadPrompter {
    input: Vec<u8>,
    pos: usize,
    writer: Vec<u8>,
    said: Ghost<Seq<Exchange>>,
}

impl BufReadPrompter {
    /// The whole input.
    pub closed spec fn input(&self) -> Seq<u8> {
        self.input@
    }

    /// How much of the input has been read.
    pub closed spec fn pos(&self) -> int {
        if self.pos <= self.input@.len() {
            self.pos as int
        } else {
            self.input@.len() as int
        }
    }

    /// Everything written so far.
    pub closed spec fn written(&self) -> Seq<u8> {
        self.writer@
    }

    /// The conversation so far.
    pub closed spec fn exchanges(&self) -> Seq<Exchange> {
        self.said@
    }

    /// Wrap a reader/writer pair.
    pub fn new(reader: &[u8], writer: Vec<u8>) -> (r: Self)
        ensures
            r.input() == reader@,
            r.pos() == 0,
            r.written() == writer@,
            r.exchanges() == Seq::<Exchange>::empty(),
            r.obeys_transcript(),
    {
        let mut input: Vec<u8> = Vec::new();
        push_bytes(&mut input, reader);
        assert(input@ =~= reader@);
        BufReadPrompter { input, pos: 0, writer, said: Ghost(Seq::empty()) }
    }

    /// What has been written so far.
    pub fn writer(&self) -> (r: &Vec<u8>)
        ensures
            r@ == self.written(),
    {
        &self.writer
    }

    /// The writer, giving up the prompter.
    pub fn into_writer(self) -> (r: Vec<u8>)
        ensures
            r@ == self.written(),
    {
        self.writer
    }
}

impl LinePrompter for BufReadPrompter {
    open spec fn obeys_transcript(&self) -> bool {
        true
    }

    open spec fn transcript(&self) -> Seq<Exchange> {
        self.exchanges()
    }

    fn read_line(&mut self, prompt: &str) -> (r: Result<LineOutcome, std::io::Error>)
        ensures
            final(self).written() == old(self).written() + encode_utf8(prompt@),
            final(self).input() == old(self).input(),
            final(self).pos() == line_chunk_end(old(self).input(), old(self).pos()),
            read_chunk(old(self).input(), old(self).pos()).len() == 0 ==> (r matches Ok(
                LineOutcome::Eof,
            )),
            (read_chunk(old(self).input(), old(self).pos()).len() > 0 && valid_utf8(
                read_chunk(old(self).input(), old(self).pos()),
            )) ==> (r matches Ok(LineOutcome::Line(s)) && s@ == strip_line_end(
                decode_utf8(read_chunk(old(self).input(), old(self).pos())),
            )),
            (read_chunk(old(self).input(), old(self).pos()).len() > 0 && !valid_utf8(
                read_chunk(old(self).input(), old(self).pos()),
            )) ==> r is Err,
    {
        push_bytes(&mut self.writer, prompt.as_bytes());
        let len = self.input.len();
        let start = if self.pos <= len { self.pos } else { len };
        let mut k = start;
        while k < len && self.input[k] != 10u8
            invariant
                start <= k <= len,
                len == self.input@.len(),
                forall|m: int| start <= m < k ==> self.input@[m] != 10u8,
            decreases len - k,
        {
            k = k + 1;
        }
        proof {
            lemma_first_byte_at(self.input@.skip(start as int), 10u8, k - start);
        }
        let end = if k < len { k + 1 } else { len };
        let mut chunk: Vec<u8> = Vec::new();
        let mut i = start;
        while i < end
            invariant
                start <= i <= end <= len,
                len == self.input@.len(),
                chunk@ == self.input@.subrange(start as int, i as int),
            decreases end - i,
        {
            chunk.push(self.input[i]);
            i = i + 1;
            assert(chunk@ =~= self.input@.subrange(start as int, i as int));
        }
        self.pos = end;
        let r = self.decode_chunk(chunk);
        self.said = Ghost(self.said@.push(Exchange::Asked { prompt: prompt@, heard: heard_of(r) }));
        r
    }

    fn writeln(&mut self, msg: &str) -> (r: Result<(), std::io::Error>)
        ensures
            final(self).written() == old(self).written() + encode_utf8(msg@) + seq![10u8],
            final(self).input() == old(self).input(),
            final(self).pos() == old(self).pos(),
            r is Ok,
    {
        push_bytes(&mut self.writer, msg.as_bytes());
        self.writer.push(10u8);
        self.said = Ghost(self.said@.push(Exchange::Said { text: msg@, failed: false }));
        Ok(())
    }
}

impl BufReadPrompter {
    /// The outcome of reading `chunk`, one line with its newline.
    fn decode_chunk(&self, chunk: Vec<u8>) -> (r: Result<LineOutcome, std::io::Error>)
        ensures
            chunk@.len() == 0 ==> (r matches Ok(LineOutcome::Eof)),
            (chunk@.len() > 0 && valid_utf8(chunk@)) ==> (r matches Ok(LineOutcome::Line(s)) && s@
                == strip_line_end(decode_utf8(chunk@))),
            (chunk@.len() > 0 && !valid_utf8(chunk@)) ==> r is Err,
    {
        if chunk.len() == 0 {
            return Ok(LineOutcome::Eof);
        }
        match utf8_to_string(chunk.as_slice()) {
            None => Err(invalid_utf8_error()),
            Some(text) => {
                let cs = crate::text::str_chars(text.as_str());
                let n = cs.len();
                let mut hi = n;
                if n > 0 && cs[n - 1] == '\n' {
                    hi = n - 1;
                    if hi > 0 && cs[hi - 1] == '\r' {
                        hi = hi - 1;
                    }
                }
                let line = crate::text::string_from_range(cs.as_slice(), 0, hi);
                proof {
                    let d = cs@.drop_last();
                    if n > 0 && cs@.last() == '\n' {
                        assert(d =~= cs@.subrange(0, n - 1));
                        if d.len() > 0 && d.last() == '\r' {
                            assert(d.drop_last() =~= cs@.subrange(0, n - 2));
                        }
                    } else {
                        assert(cs@ =~= cs@.subrange(0, n as int));
                    }
                }
                Ok(LineOutcome::Line(line))
            },
        }
    }
}

} // verus!
