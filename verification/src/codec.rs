use vstd::prelude::*;
use crate::record::RecordView;
use crate::record::RichDiff;

verus! {

/// Tag byte that opens the encoding of a full new value: ASCII `+`.
pub const TAG_ADDITION: u8 = 43;
/// Tag byte that opens the encoding of a binary patch: ASCII `~`.
pub const TAG_PATCH: u8 = 126;
/// Tag byte that stands alone as the encoding of a deletion: ASCII `-`.
pub const TAG_DELETION: u8 = 45;

/// Why a byte string is not the encoding of any record.
#[derive(Debug, Clone, Copy, PartialEq, Eq, Structural)]
pub enum DecodeError {
    /// The input was empty: every encoding starts with a tag byte.
    Empty,
    /// The first byte is not one of the three tags.
    UnknownTag(u8),
    /// A deletion tag was followed by payload bytes; a deletion carries none.
    DeletionPayload,
}

/// The bytes that encode a record: one tag byte, then the payload
/// (no payload for a deletion).
pub open spec fn encoded(r: RecordView) -> Seq<u8> {
    match r {
        RecordView::Addition(v) => seq![TAG_ADDITION] + v,
        RecordView::Patch(p) => seq![TAG_PATCH] + p,
        RecordView::Deletion => seq![TAG_DELETION],
    }
}

/// The record a byte string decodes to, or the exact reason it decodes to
/// none: empty input, an unrecognized tag, or payload after a deletion tag.
pub open spec fn decoded(b: Seq<u8>) -> Result<RecordView, DecodeError> {
    if b.len() == 0 {
        Err(DecodeError::Empty)
    } else if b[0] == TAG_ADDITION {
        Ok(RecordView::Addition(b.subrange(1, b.len() as int)))
    } else if b[0] == TAG_PATCH {
        Ok(RecordView::Patch(b.subrange(1, b.len() as int)))
    } else if b[0] == TAG_DELETION {
        if b.len() == 1 {
            Ok(RecordView::Deletion)
        } else {
            Err(DecodeError::DeletionPayload)
        }
    } else {
        Err(DecodeError::UnknownTag(b[0]))
    }
}

/// Law: decoding an encoded record yields the record back, for every record.
pub proof fn lemma_round_trip(r: RecordView)
    ensures
        decoded(encoded(r)) == Ok::<RecordView, DecodeError>(r),
{
    match r {
        RecordView::Addition(v) => {
            assert(encoded(r).subrange(1, encoded(r).len() as int) =~= v);
        }
        RecordView::Patch(p) => {
            assert(encoded(r).subrange(1, encoded(r).len() as int) =~= p);
        }
        RecordView::Deletion => {
            assert(encoded(r).len() == 1);
        }
    }
}

/// Law: a byte string that decodes at all is exactly the encoding of its
/// record; the tagged form is canonical.
pub proof fn lemma_decode_complete(b: Seq<u8>, r: RecordView)
    requires
        decoded(b) == Ok::<RecordView, DecodeError>(r),
    ensures
        encoded(r) == b,
{
    assert(encoded(r) =~= b);
}

/// Encoder/decoder between change records and their tagged byte form.
pub struct RichCodec;

/// Copy of a byte slice from its second byte on.
fn tail_to_vec(bytes: &[u8]) -> (v: Vec<u8>)
    requires
        bytes@.len() >= 1,
    ensures
        v@ == bytes@.subrange(1, bytes@.len() as int),
{
    let mut v: Vec<u8> = Vec::new();
    let mut i: usize = 1;
    while i < bytes.len()
        invariant
            1 <= i <= bytes@.len(),
            v@ == bytes@.subrange(1, i as int),
        decreases bytes@.len() - i,
    {
        v.push(bytes[i]);
        i = i + 1;
        assert(v@ =~= bytes@.subrange(1, i as int));
    }
    assert(v@ =~= bytes@.subrange(1, bytes@.len() as int));
    v
}

impl RichCodec {
    /// Encode a record as its tag byte followed by the payload.
    pub fn bytes_encode(item: &RichDiff) -> (out: Vec<u8>)
        ensures
            out@ == encoded(item@),
    {
        let mut out: Vec<u8> = Vec::new();
        match item {
            RichDiff::Addition(bytes) => {
                out.push(TAG_ADDITION);
                push_all(&mut out, bytes.as_slice());
                assert(out@ =~= encoded(item@));
            }
            RichDiff::Patch(bytes) => {
                out.push(TAG_PATCH);
                push_all(&mut out, bytes.as_slice());
                assert(out@ =~= encoded(item@));
            }
            RichDiff::Deletion => {
                out.push(TAG_DELETION);
                assert(out@ =~= encoded(item@));
            }
        }
        out
    }

    /// Decode a tagged byte string back into a record, reporting exactly why
    /// a malformed input is rejected.
    pub fn bytes_decode(bytes: &[u8]) -> (r: Result<RichDiff, DecodeError>)
        ensures
            match r {
                Ok(rec) => decoded(bytes@) == Ok::<RecordView, DecodeError>(rec@),
                Err(e) => decoded(bytes@) == Err::<RecordView, DecodeError>(e),
            },
    {
        if bytes.len() == 0 {
            return Err(DecodeError::Empty);
        }
        let tag = bytes[0];
        if tag == TAG_ADDITION {
            Ok(RichDiff::Addition(tail_to_vec(bytes)))
        } else if tag == TAG_PATCH {
            Ok(RichDiff::Patch(tail_to_vec(bytes)))
        } else if tag == TAG_DELETION {
            if bytes.len() == 1 {
                Ok(RichDiff::Deletion)
            } else {
                Err(DecodeError::DeletionPayload)
            }
        } else {
            Err(DecodeError::UnknownTag(tag))
        }
    }
}

/// Append every byte of a slice to a vector.
pub(crate) fn push_all(out: &mut Vec<u8>, bytes: &[u8])
    ensures
        final(out)@ == old(out)@ + bytes@,
{
    let mut i: usize = 0;
    while i < bytes.len()
        invariant
            0 <= i <= bytes@.len(),
            out@ == old(out)@ + bytes@.subrange(0, i as int),
        decreases bytes@.len() - i,
    {
        out.push(bytes[i]);
        i = i + 1;
        assert(out@ =~= old(out)@ + bytes@.subrange(0, i as int));
    }
    assert(out@ =~= old(out)@ + bytes@);
}

} // verus!
