//! Requests and replies on a byte stream that marks no message boundaries.
//!
//! A request is a line. A reply is whatever arrives until a read finds
//! nothing: the first read waits for the agent, the following ones do not.

use crate::text::{strip, trim, CharClass};
use vstd::prelude::*;

verus! {

/// The text that `String::from_utf8_lossy` makes of a sequence of bytes.
pub uninterp spec fn utf8_lossy(bytes: Seq<u8>) -> Seq<char>;

/// Calls `String::from_utf8_lossy`, which reads bytes as UTF-8 and puts
/// U+FFFD in the place of what is no UTF-8. Its contract is taken from the
/// documentation of std and is not proved here: the result is a function of
/// the bytes, named by `utf8_lossy`, and for bytes that are UTF-8 throughout
/// it is the text that they encode.
#[verifier::external_body]
fn decode_lossy(bytes: &[u8]) -> (text: String)
    ensures
        text@ == utf8_lossy(bytes@),
        vstd::utf8::valid_utf8(bytes@) ==> text@ == vstd::utf8::decode_utf8(bytes@),
{
    String::from_utf8_lossy(bytes).into_owned()
}

/// The text of a reply that arrived as `bytes`: the bytes read as UTF-8,
/// without the NUL characters at the two ends.
pub open spec fn reply_text(bytes: Seq<u8>) -> Seq<char> {
    strip(utf8_lossy(bytes), CharClass::Nul)
}

/// What a receiver holds after the reads `chunks`: the bytes of every read
/// before the first one that found nothing.
pub open spec fn drained(chunks: Seq<Seq<u8>>) -> Seq<u8>
    decreases chunks.len(),
{
    if chunks.len() == 0 || chunks[0].len() == 0 {
        Seq::empty()
    } else {
        chunks[0] + drained(chunks.drop_first())
    }
}

/// A request as it goes on the wire: the line and a newline.
pub fn frame(line: &str) -> (r: String)
    ensures
        r@ == line@.push('\n'),
{
    let mut r = line.to_owned();
    r.append("\n");
    proof {
        reveal_strlit("\n");
    }
    assert(r@ =~= line@.push('\n'));
    r
}

/// How the next read is made.
#[derive(Clone, Copy, Debug, PartialEq, Eq, Structural)]
pub enum ReadMode {
    /// Wait until the agent has sent something.
    Blocking,
    /// Take what is there, and nothing where nothing is.
    NonBlocking,
}

/// What a read of the stream gave.
#[derive(Debug, PartialEq, Eq)]
pub enum ReadOutcome<'a> {
    /// These bytes; none of them at the end of the stream.
    Bytes(&'a [u8]),
    /// Nothing: the stream has nothing to give now.
    NothingThere,
    /// The read failed.
    Failed,
}

/// What a receiver does after a read.
#[derive(Clone, Copy, Debug, PartialEq, Eq, Structural)]
pub enum NextRead {
    /// Read again, in this way.
    Again(ReadMode),
    /// Stop: the reply is whole.
    Finished,
    /// Stop: the request is given up, and the failure goes to the caller.
    Aborted,
}

/// The bytes that a read brought; none where nothing was there.
pub open spec fn brought(outcome: ReadOutcome) -> Seq<u8> {
    match outcome {
        ReadOutcome::Bytes(chunk) => chunk@,
        _ => Seq::empty(),
    }
}

/// The bytes of one reply as they come in, read by read.
#[derive(Debug, PartialEq, Eq)]
pub struct ReplyAssembler {
    /// What has arrived.
    pub bytes: Vec<u8>,
    /// Whether a read has been made.
    pub started: bool,
    /// Whether a read has found nothing, which ends the reply.
    pub complete: bool,
}

impl ReplyAssembler {
    /// A receiver before its first read.
    pub fn new() -> (r: ReplyAssembler)
        ensures
            r.bytes@ == Seq::<u8>::empty(),
            !r.started,
            !r.complete,
    {
        ReplyAssembler { bytes: Vec::new(), started: false, complete: false }
    }

    /// How to make the next read: the first one waits, the others do not.
    pub fn mode(&self) -> (m: ReadMode)
        ensures
            m == (if self.started {
                ReadMode::NonBlocking
            } else {
                ReadMode::Blocking
            }),
    {
        if self.started {
            ReadMode::NonBlocking
        } else {
            ReadMode::Blocking
        }
    }

    /// Takes what a read has found and says whether to read again. A read
    /// that found nothing ends the reply; what comes after the end is
    /// dropped.
    pub fn accept(&mut self, chunk: &[u8]) -> (more: bool)
        ensures
            final(self).started,
            final(self).complete == (old(self).complete || chunk@.len() == 0),
            more == !final(self).complete,
            final(self).bytes@ == (if old(self).complete {
                old(self).bytes@
            } else {
                old(self).bytes@ + chunk@
            }),
    {
        self.started = true;
        if self.complete {
            return false;
        }
        if chunk.len() == 0 {
            self.complete = true;
            assert(self.bytes@ =~= old(self).bytes@ + chunk@);
            return false;
        }
        self.bytes.extend_from_slice(chunk);
        assert(self.bytes@ =~= old(self).bytes@ + chunk@);
        true
    }

    /// Takes the outcome of a read and decides what follows. Bytes are kept
    /// and the next read does not wait; no bytes, or nothing there, end the
    /// reply; a failed read gives the request up and leaves the receiver as
    /// it was.
    pub fn after_read(&mut self, outcome: &ReadOutcome) -> (next: NextRead)
        ensures
            outcome is Failed ==> {
                &&& next == NextRead::Aborted
                &&& final(self).bytes@ == old(self).bytes@
                &&& final(self).started == old(self).started
                &&& final(self).complete == old(self).complete
            },
            !(outcome is Failed) ==> {
                &&& final(self).started
                &&& final(self).complete == (old(self).complete || brought(*outcome).len() == 0)
                &&& final(self).bytes@ == (if old(self).complete {
                    old(self).bytes@
                } else {
                    old(self).bytes@ + brought(*outcome)
                })
                &&& next == (if final(self).complete {
                    NextRead::Finished
                } else {
                    NextRead::Again(ReadMode::NonBlocking)
                })
            },
    {
        let more = match outcome {
            ReadOutcome::Failed => {
                return NextRead::Aborted;
            },
            ReadOutcome::Bytes(chunk) => self.accept(chunk),
            ReadOutcome::NothingThere => {
                let none: Vec<u8> = Vec::new();
                self.accept(none.as_slice())
            },
        };
        if more {
            NextRead::Again(ReadMode::NonBlocking)
        } else {
            NextRead::Finished
        }
    }

    /// The reply as text. Where the bytes are UTF-8 throughout, that is the
    /// text that they encode, without the NUL characters around it.
    pub fn finish(&self) -> (text: String)
        ensures
            text@ == reply_text(self.bytes@),
            vstd::utf8::valid_utf8(self.bytes@) ==> text@ == strip(
                vstd::utf8::decode_utf8(self.bytes@),
                CharClass::Nul,
            ),
    {
        let whole: String = decode_lossy(self.bytes.as_slice());
        trim(whole.as_str(), CharClass::Nul).to_owned()
    }
}

/// The reply that the reads `chunks` make, taken in turn until one of them
/// found nothing. Where the bytes are UTF-8 throughout, that is the text
/// that they encode, without the NUL characters around it.
pub fn assemble(chunks: &Vec<Vec<u8>>) -> (text: String)
    ensures
        text@ == reply_text(drained(chunks@.map_values(|c: Vec<u8>| c@))),
        vstd::utf8::valid_utf8(drained(chunks@.map_values(|c: Vec<u8>| c@))) ==> text@ == strip(
            vstd::utf8::decode_utf8(drained(chunks@.map_values(|c: Vec<u8>| c@))),
            CharClass::Nul,
        ),
{
    let ghost reads = chunks@.map_values(|c: Vec<u8>| c@);
    let mut receiver = ReplyAssembler::new();
    let mut i: usize = 0;
    let mut more: bool = true;
    assert(reads.skip(0) =~= reads);
    while more && i < chunks.len()
        invariant
            reads.len() == chunks@.len(),
            forall|j: int| 0 <= j < reads.len() ==> reads[j] == (#[trigger] chunks@[j])@,
            i <= chunks@.len(),
            more == !receiver.complete,
            drained(reads) =~= receiver.bytes@ + (if more {
                drained(reads.skip(i as int))
            } else {
                Seq::empty()
            }),
        decreases chunks@.len() - i,
    {
        let ghost tail = reads.skip(i as int);
        assert(tail[0] == chunks@[i as int]@);
        assert(tail.drop_first() =~= reads.skip(i + 1));
        more = receiver.accept(chunks[i].as_slice());
        i += 1;
    }
    assert(reads.skip(reads.len() as int) =~= Seq::<Seq<u8>>::empty());
    assert(drained(reads) =~= receiver.bytes@);
    receiver.finish()
}

/// However the agent's bytes are split over two reads that follow one
/// another, the receiver holds the same: framing does not depend on where
/// the stream was cut.
pub proof fn law_chunking(before: Seq<Seq<u8>>, a: Seq<u8>, b: Seq<u8>, after: Seq<Seq<u8>>)
    requires
        a.len() > 0,
        b.len() > 0,
    ensures
        drained(before + seq![a, b] + after) == drained(before + seq![a + b] + after),
    decreases before.len(),
{
    let split = before + seq![a, b] + after;
    let joined = before + seq![a + b] + after;
    if before.len() == 0 {
        assert(split.drop_first() =~= seq![b] + after);
        assert((seq![b] + after).drop_first() =~= after);
        assert(joined.drop_first() =~= after);
        assert(split[0] == a);
        assert((seq![b] + after)[0] == b);
        assert(joined[0] == a + b);
        assert(drained(seq![b] + after) == b + drained(after));
        assert(drained(split) == a + drained(seq![b] + after));
        assert(drained(joined) == (a + b) + drained(after));
        assert(a + (b + drained(after)) =~= (a + b) + drained(after));
    } else {
        assert(split[0] == before[0]);
        assert(joined[0] == before[0]);
        assert(split.drop_first() =~= before.drop_first() + seq![a, b] + after);
        assert(joined.drop_first() =~= before.drop_first() + seq![a + b] + after);
        law_chunking(before.drop_first(), a, b, after);
    }
}

} // verus!
