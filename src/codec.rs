use vstd::prelude::*;
use vstd::bytes::{
    lemma_auto_spec_u64_to_from_le_bytes, spec_u64_from_le_bytes, spec_u64_to_le_bytes,
    u64_from_le_bytes, u64_to_le_bytes,
};
use vstd::slice::slice_subrange;

use crate::errors::Error;

verus! {

/// Tag byte of an election frame.
pub const TAG_ELECTION: u8 = 69;

/// Tag byte of an acknowledgment frame.
pub const TAG_ACK: u8 = 65;

/// Tag byte of a coordinator frame.
pub const TAG_COORDINATOR: u8 = 67;

/// Width in bytes of the count and of every id on the wire.
pub const WORD: usize = 8;

/// Width of the frame header: the tag and the count.
pub const HEADER: usize = 9;

/// A message of the ring election protocol.
#[derive(Debug, Clone, PartialEq, Eq)]
pub enum ElectionMessage {
    /// An election round, with the ids visited so far in traversal order.
    Election { path: Vec<u64> },
    /// Acknowledgment of a received frame by `sender`.
    Ack { sender: u64 },
    /// The announcement of `winner`, with the nodes that forwarded it so far.
    Coordinator { winner: u64, path: Vec<u64> },
}

/// Mathematical model of an [`ElectionMessage`].
pub enum MessageView {
    Election { path: Seq<u64> },
    Ack { sender: u64 },
    Coordinator { winner: u64, path: Seq<u64> },
}

impl View for ElectionMessage {
    type V = MessageView;

    open spec fn view(&self) -> MessageView {
        match self {
            ElectionMessage::Election { path } => MessageView::Election { path: path@ },
            ElectionMessage::Ack { sender } => MessageView::Ack { sender: *sender },
            ElectionMessage::Coordinator { winner, path } => MessageView::Coordinator {
                winner: *winner,
                path: path@,
            },
        }
    }
}

/// The tag byte that a message is framed with.
pub open spec fn tag_of(m: MessageView) -> u8 {
    match m {
        MessageView::Election { .. } => TAG_ELECTION,
        MessageView::Ack { .. } => TAG_ACK,
        MessageView::Coordinator { .. } => TAG_COORDINATOR,
    }
}

/// The ids that a message carries on the wire, in order.
pub open spec fn ids_of(m: MessageView) -> Seq<u64> {
    match m {
        MessageView::Election { path } => path,
        MessageView::Ack { sender } => seq![sender],
        MessageView::Coordinator { winner, path } => seq![winner] + path,
    }
}

/// A message whose id count fits in a wire word.
pub open spec fn encodable(m: MessageView) -> bool {
    ids_of(m).len() <= u64::MAX
}

/// The little-endian words of `ids`, one after the other.
pub open spec fn ids_bytes(ids: Seq<u64>) -> Seq<u8>
    decreases ids.len(),
{
    if ids.len() == 0 {
        Seq::empty()
    } else {
        ids_bytes(ids.drop_last()) + spec_u64_to_le_bytes(ids.last())
    }
}

/// The frame of a tag and its ids: the tag, the count, then each id.
pub open spec fn frame(tag: u8, ids: Seq<u64>) -> Seq<u8> {
    seq![tag] + spec_u64_to_le_bytes(ids.len() as u64) + ids_bytes(ids)
}

/// The bytes that a message is sent as.
pub open spec fn encoding(m: MessageView) -> Seq<u8> {
    frame(tag_of(m), ids_of(m))
}

/// The little-endian word that starts at `pos`.
pub open spec fn word_at(s: Seq<u8>, pos: int) -> u64 {
    spec_u64_from_le_bytes(s.subrange(pos, pos + 8))
}

/// The id count that a buffer declares.
pub open spec fn declared_count(s: Seq<u8>) -> u64 {
    word_at(s, 1)
}

/// A buffer long enough for its header and all the ids that it declares.
pub open spec fn well_framed(s: Seq<u8>) -> bool {
    s.len() >= HEADER && HEADER + WORD * declared_count(s) <= s.len()
}

/// The ids that a well-framed buffer holds.
pub open spec fn framed_ids(s: Seq<u8>) -> Seq<u64> {
    Seq::new(declared_count(s) as nat, |i: int| word_at(s, HEADER + WORD * i))
}

/// The message that a tag and its ids stand for, if any.
pub open spec fn message_of(tag: u8, ids: Seq<u64>) -> Option<MessageView> {
    if tag == TAG_ELECTION {
        Some(MessageView::Election { path: ids })
    } else if tag == TAG_ACK && ids.len() == 1 {
        Some(MessageView::Ack { sender: ids[0] })
    } else if tag == TAG_COORDINATOR && ids.len() >= 1 {
        Some(MessageView::Coordinator { winner: ids[0], path: ids.drop_first() })
    } else {
        None
    }
}

/// The message that a received buffer holds; bytes after the frame are ignored.
pub open spec fn decoding(s: Seq<u8>) -> Option<MessageView> {
    if well_framed(s) {
        message_of(s[0], framed_ids(s))
    } else {
        None
    }
}

proof fn lemma_ids_bytes(ids: Seq<u64>)
    ensures
        ids_bytes(ids).len() == WORD * ids.len(),
        forall|i: int|
            0 <= i < ids.len() ==> #[trigger] ids_bytes(ids).subrange(WORD * i, WORD * i + 8)
                == spec_u64_to_le_bytes(ids[i]),
    decreases ids.len(),
{
    lemma_auto_spec_u64_to_from_le_bytes();
    if ids.len() > 0 {
        let prev = ids.drop_last();
        lemma_ids_bytes(prev);
        let b = ids_bytes(ids);
        assert forall|i: int| 0 <= i < ids.len() implies #[trigger] b.subrange(
            WORD * i,
            WORD * i + 8,
        ) == spec_u64_to_le_bytes(ids[i]) by {
            if i < prev.len() {
                assert(WORD * i + 8 <= WORD * prev.len()) by (nonlinear_arith)
                    requires
                        i < prev.len(),
                ;
                assert(b.subrange(WORD * i, WORD * i + 8) =~= ids_bytes(prev).subrange(
                    WORD * i,
                    WORD * i + 8,
                ));
            } else {
                assert(b.subrange(WORD * i, WORD * i + 8) =~= spec_u64_to_le_bytes(ids.last()));
            }
        }
    }
}

/// Decoding a frame gives back the message, whatever bytes follow it; a
/// frame cut short anywhere decodes to nothing.
pub proof fn lemma_round_trip(m: MessageView, extra: Seq<u8>, cut: int)
    requires
        encodable(m),
        0 <= cut < encoding(m).len(),
    ensures
        decoding(encoding(m) + extra) == Some(m),
        decoding(encoding(m).take(cut)) is None,
{
    lemma_auto_spec_u64_to_from_le_bytes();
    let ids = ids_of(m);
    let e = encoding(m);
    let s = e + extra;
    lemma_ids_bytes(ids);
    assert(e.len() == HEADER + WORD * ids.len());
    assert(s.subrange(1, 9) =~= spec_u64_to_le_bytes(ids.len() as u64));
    assert(declared_count(s) == ids.len());
    assert(well_framed(s));
    assert forall|i: int| 0 <= i < ids.len() implies #[trigger] framed_ids(s)[i] == ids[i] by {
        assert(WORD * i + 8 <= WORD * ids.len()) by (nonlinear_arith)
            requires
                i < ids.len(),
        ;
        let b = ids_bytes(ids);
        assert(s.subrange(HEADER + WORD * i, HEADER + WORD * i + 8) =~= b.subrange(
            WORD * i,
            WORD * i + 8,
        ));
    }
    assert(framed_ids(s) =~= ids);
    match m {
        MessageView::Coordinator { winner, path } => {
            assert(ids.drop_first() =~= path);
        },
        _ => {},
    }
    let t = e.take(cut);
    if t.len() >= HEADER {
        assert(t.subrange(1, 9) =~= s.subrange(1, 9));
        assert(declared_count(t) == ids.len());
    }
}

/// Appends the little-endian bytes of `x`.
fn push_word(out: &mut Vec<u8>, x: u64)
    ensures
        final(out)@ == old(out)@ + spec_u64_to_le_bytes(x),
{
    let mut bytes = u64_to_le_bytes(x);
    out.append(&mut bytes);
}

/// Frames a message for the wire.
pub fn encode(m: &ElectionMessage) -> (r: Vec<u8>)
    requires
        encodable(m@),
    ensures
        r@ == encoding(m@),
{
    let mut out: Vec<u8> = Vec::new();
    match m {
        ElectionMessage::Election { path } => {
            out.push(TAG_ELECTION);
            push_word(&mut out, path.len() as u64);
            push_ids(&mut out, path);
        },
        ElectionMessage::Ack { sender } => {
            out.push(TAG_ACK);
            push_word(&mut out, 1);
            let one = vec![*sender];
            push_ids(&mut out, &one);
            assert(one@ =~= seq![*sender]);
        },
        ElectionMessage::Coordinator { winner, path } => {
            let mut ids = vec![*winner];
            let mut rest = path.clone();
            ids.append(&mut rest);
            assert(ids@ =~= seq![*winner] + path@);
            out.push(TAG_COORDINATOR);
            push_word(&mut out, ids.len() as u64);
            push_ids(&mut out, &ids);
        },
    }
    assert(out@ =~= encoding(m@));
    out
}

/// Appends the words of all of `ids`.
fn push_ids(out: &mut Vec<u8>, ids: &Vec<u64>)
    ensures
        final(out)@ == old(out)@ + ids_bytes(ids@),
{
    let ghost start = out@;
    let mut i: usize = 0;
    while i < ids.len()
        invariant
            i <= ids.len(),
            out@ == start + ids_bytes(ids@.take(i as int)),
        decreases ids.len() - i,
    {
        push_word(out, ids[i]);
        proof {
            let next = ids@.take(i + 1);
            assert(next.drop_last() =~= ids@.take(i as int));
        }
        i = i + 1;
    }
    assert(ids@.take(i as int) =~= ids@);
}

/// Reads a received buffer back into a message.
pub fn decode(buf: &[u8]) -> (r: Result<ElectionMessage, Error>)
    ensures
        match r {
            Ok(m) => decoding(buf@) == Some(m@),
            Err(e) => decoding(buf@) is None && e == Error::MalformedMessage,
        },
{
    if buf.len() < HEADER {
        return Err(Error::MalformedMessage);
    }
    let count = u64_from_le_bytes(slice_subrange(buf, 1, HEADER));
    let len = buf.len();
    let room = (len - HEADER) / WORD;
    if count > room as u64 {
        return Err(Error::MalformedMessage);
    }
    let n = count as usize;
    assert(well_framed(buf@));
    let mut ids: Vec<u64> = Vec::new();
    let mut i: usize = 0;
    let mut pos: usize = HEADER;
    while i < n
        invariant
            pos == HEADER + WORD * i,
            len == buf@.len(),
            n == declared_count(buf@),
            HEADER + WORD * n <= buf@.len(),
            i <= n,
            ids@ == framed_ids(buf@).take(i as int),
        decreases n - i,
    {
        assert(WORD * i + 8 <= WORD * n) by (nonlinear_arith)
            requires
                i < n,
                WORD == 8,
        ;
        let id = u64_from_le_bytes(slice_subrange(buf, pos, pos + WORD));
        ids.push(id);
        i = i + 1;
        pos = pos + WORD;
        assert(ids@ =~= framed_ids(buf@).take(i as int));
    }
    assert(ids@ =~= framed_ids(buf@));
    let tag = buf[0];
    if tag == TAG_ELECTION {
        Ok(ElectionMessage::Election { path: ids })
    } else if tag == TAG_ACK && ids.len() == 1 {
        Ok(ElectionMessage::Ack { sender: ids[0] })
    } else if tag == TAG_COORDINATOR && ids.len() >= 1 {
        let winner = ids.remove(0);
        assert(ids@ =~= framed_ids(buf@).drop_first());
        Ok(ElectionMessage::Coordinator { winner, path: ids })
    } else {
        Err(Error::MalformedMessage)
    }
}

} // verus!
