use vstd::prelude::*;

verus! {

/// One recorded change for a key: the full new value (the key was new), a
/// binary patch against the key's prior value (the key already existed), or
/// a tombstone (the key was deleted).
#[derive(Debug, Clone, PartialEq, Eq)]
pub enum RichDiff {
    Addition(Vec<u8>),
    Patch(Vec<u8>),
    Deletion,
}

/// The mathematical shape of a change record: each payload as a byte sequence.
pub enum RecordView {
    Addition(Seq<u8>),
    Patch(Seq<u8>),
    Deletion,
}

impl View for RichDiff {
    type V = RecordView;

    open spec fn view(&self) -> RecordView {
        match self {
            RichDiff::Addition(v) => RecordView::Addition(v@),
            RichDiff::Patch(p) => RecordView::Patch(p@),
            RichDiff::Deletion => RecordView::Deletion,
        }
    }
}

} // verus!
