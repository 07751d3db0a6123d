use vstd::prelude::*;
use heed::types::ByteSlice;
use crate::codec::decoded;
use crate::codec::encoded;
use crate::codec::lemma_round_trip;
use crate::codec::DecodeError;
use crate::codec::RichCodec;
use crate::engine::bsdiff_of;
use crate::engine::bspatch;
use crate::engine::bspatch_res;
use crate::engine::check_patch;
use crate::engine::patch_wf;
use crate::store::lex_lt;
use crate::errors::ReplayError;
use crate::record::RecordView;
use crate::record::RichDiff;
use crate::store::entry_views;
use crate::store::env_create_database;
use crate::store::env_open_database;
use crate::store::env_read_txn;
use crate::store::env_write_txn;
use crate::store::ro_entries;
use crate::store::rw_delete;
use crate::store::rw_get;
use crate::store::rw_put;
use crate::store::rw_view;
use crate::store::txn_commit;

verus! {

/// Why one bundle entry cannot be applied: the record is malformed, the
/// target lacks a patch's baseline, or the patch does not fit the baseline.
#[derive(Debug, Clone, Copy, PartialEq, Eq, Structural)]
pub enum ReplayFault {
    Decode(DecodeError),
    MissingBaseline,
    PatchApply,
}

/// The replay error that reports a fault.
pub open spec fn fault_error(f: ReplayFault) -> ReplayError {
    match f {
        ReplayFault::Decode(e) => ReplayError::Decode(e),
        ReplayFault::MissingBaseline => ReplayError::MissingBaseline,
        ReplayFault::PatchApply => ReplayError::PatchApply,
    }
}

/// What applying one encoded record to a target store's contents yields: an
/// addition stores the full value, a deletion removes the key whether or not
/// it is present, and a patch rebuilds the value from the key's current one,
/// which must be present; a patch without a well-formed header, or one the
/// engine cannot apply, is the patch-application fault.
pub open spec fn replay_one(m: Map<Seq<u8>, Seq<u8>>, key: Seq<u8>, bytes: Seq<u8>) -> Result<
    Map<Seq<u8>, Seq<u8>>,
    ReplayFault,
> {
    match decoded(bytes) {
        Err(e) => Err(ReplayFault::Decode(e)),
        Ok(RecordView::Addition(v)) => Ok(m.insert(key, v)),
        Ok(RecordView::Deletion) => Ok(m.remove(key)),
        Ok(RecordView::Patch(p)) => if !m.contains_key(key) {
            Err(ReplayFault::MissingBaseline)
        } else if !patch_wf(p) {
            Err(ReplayFault::PatchApply)
        } else {
            match bspatch_res(m[key], p) {
                Some(v) => Ok(m.insert(key, v)),
                None => Err(ReplayFault::PatchApply),
            }
        },
    }
}

/// What applying a whole sequence of encoded records yields: the entries in
/// order, stopping at the first fault.
pub open spec fn replay_seq(m: Map<Seq<u8>, Seq<u8>>, es: Seq<(Seq<u8>, Seq<u8>)>) -> Result<
    Map<Seq<u8>, Seq<u8>>,
    ReplayFault,
>
    decreases es.len(),
{
    if es.len() == 0 {
        Ok(m)
    } else {
        match replay_one(m, es[0].0, es[0].1) {
            Err(f) => Err(f),
            Ok(m2) => replay_seq(m2, es.skip(1)),
        }
    }
}

/// Law: replaying an addition record stores the full value, overwriting any
/// present one.
pub proof fn lemma_replay_addition(m: Map<Seq<u8>, Seq<u8>>, key: Seq<u8>, value: Seq<u8>)
    ensures
        replay_one(m, key, encoded(RecordView::Addition(value))) == Ok::<_, ReplayFault>(
            m.insert(key, value),
        ),
{
    lemma_round_trip(RecordView::Addition(value));
}

/// Law: replaying a deletion record removes the key, and succeeds whether or
/// not the target holds it.
pub proof fn lemma_replay_deletion(m: Map<Seq<u8>, Seq<u8>>, key: Seq<u8>)
    ensures
        replay_one(m, key, encoded(RecordView::Deletion)) == Ok::<_, ReplayFault>(m.remove(key)),
{
    lemma_round_trip(RecordView::Deletion);
}

/// Law: a patch record computed from baseline to value replays exactly on a
/// target that holds the baseline, reconstructing the value; on a target that
/// lacks the key it reports the missing baseline. The premise is what the
/// compressor guarantees of its own patch, and what `put` ensures of the
/// record it stores. On a target that holds some other value for the key the
/// patch is applied to that value, and what it reconstructs then — a wrong
/// value, or a reported failure — the engine's contract leaves open.
pub proof fn lemma_replay_patch(
    m: Map<Seq<u8>, Seq<u8>>,
    key: Seq<u8>,
    baseline: Seq<u8>,
    value: Seq<u8>,
)
    requires
        patch_wf(bsdiff_of(baseline, value)),
        bspatch_res(baseline, bsdiff_of(baseline, value)) == Some(value),
    ensures
        m.contains_key(key) && m[key] == baseline ==> replay_one(
            m,
            key,
            encoded(RecordView::Patch(bsdiff_of(baseline, value))),
        ) == Ok::<_, ReplayFault>(m.insert(key, value)),
        !m.contains_key(key) ==> replay_one(
            m,
            key,
            encoded(RecordView::Patch(bsdiff_of(baseline, value))),
        ) == Err::<Map<Seq<u8>, Seq<u8>>, _>(ReplayFault::MissingBaseline),
{
    lemma_round_trip(RecordView::Patch(bsdiff_of(baseline, value)));
}

/// Replaying one more entry continues from the replay of the entries before
/// it.
proof fn lemma_replay_seq_snoc(m: Map<Seq<u8>, Seq<u8>>, es: Seq<(Seq<u8>, Seq<u8>)>, i: int)
    requires
        0 <= i < es.len(),
    ensures
        replay_seq(m, es.take(i + 1)) == (match replay_seq(m, es.take(i)) {
            Ok(mm) => replay_one(mm, es[i].0, es[i].1),
            Err(f) => Err(f),
        }),
    decreases i,
{
    if i == 0 {
        let s1 = es.take(1);
        assert(es.take(0) =~= Seq::<(Seq<u8>, Seq<u8>)>::empty());
        assert(s1 =~= seq![es[0]]);
        assert(s1.skip(1) =~= Seq::<(Seq<u8>, Seq<u8>)>::empty());
        assert(replay_seq(m, es.take(0)) == Ok::<_, ReplayFault>(m));
        match replay_one(m, es[0].0, es[0].1) {
            Ok(m2) => {
                assert(replay_seq(m2, s1.skip(1)) == Ok::<_, ReplayFault>(m2));
                assert(replay_seq(m, s1) == Ok::<_, ReplayFault>(m2));
            },
            Err(f) => {
                assert(replay_seq(m, s1) == Err::<Map<Seq<u8>, Seq<u8>>, _>(f));
            },
        }
    } else {
        let tail = es.skip(1);
        assert(es.take(i + 1)[0] == es[0]);
        assert(es.take(i)[0] == es[0]);
        assert(es.take(i + 1).skip(1) =~= tail.take(i));
        assert(es.take(i).skip(1) =~= tail.take(i - 1));
        match replay_one(m, es[0].0, es[0].1) {
            Ok(m2) => {
                lemma_replay_seq_snoc(m2, tail, i - 1);
                assert(tail[i - 1] == es[i]);
            },
            Err(_) => {},
        }
    }
}

/// A replay that faults on a prefix faults the same way on the whole
/// sequence.
proof fn lemma_replay_seq_prefix_err(m: Map<Seq<u8>, Seq<u8>>, es: Seq<(Seq<u8>, Seq<u8>)>, j: int)
    requires
        0 <= j <= es.len(),
        replay_seq(m, es.take(j)) is Err,
    ensures
        replay_seq(m, es) == replay_seq(m, es.take(j)),
    decreases j,
{
    if j == 0 {
        assert(es.take(0) =~= Seq::<(Seq<u8>, Seq<u8>)>::empty());
    } else {
        let tail = es.skip(1);
        assert(es.take(j)[0] == es[0]);
        assert(es.take(j).skip(1) =~= tail.take(j - 1));
        match replay_one(m, es[0].0, es[0].1) {
            Ok(m2) => {
                lemma_replay_seq_prefix_err(m2, tail, j - 1);
            },
            Err(_) => {},
        }
    }
}

/// Apply a sequence of bundle entries to the target store through its write
/// transaction. On success the target's view is exactly the spec-level
/// replay of the entries; the first malformed record, missing baseline or
/// misfitting patch aborts with that fault, and the store engine's own
/// failures surface as storage errors.
pub fn replay_into(
    db: &heed::Database<ByteSlice, ByteSlice>,
    txn: &mut heed::RwTxn<'_>,
    entries: &Vec<(Vec<u8>, Vec<u8>)>,
) -> (r: Result<(), ReplayError>)
    ensures
        match r {
            Ok(_) => replay_seq(rw_view(*db, *old(txn)), entry_views(entries@)) == Ok::<
                _,
                ReplayFault,
            >(rw_view(*db, *final(txn))),
            Err(ReplayError::Storage(_)) => true,
            Err(e) => replay_seq(rw_view(*db, *old(txn)), entry_views(entries@)) matches Err(f)
                && fault_error(f) == e,
        },
        entries@.len() == 0 ==> r is Ok,
{
    let ghost m0 = rw_view(*db, *txn);
    let ghost views = entry_views(entries@);
    let mut i: usize = 0;
    while i < entries.len()
        invariant
            0 <= i <= entries@.len(),
            m0 == rw_view(*db, *old(txn)),
            views == entry_views(entries@),
            replay_seq(m0, views.take(i as int)) == Ok::<_, ReplayFault>(rw_view(*db, *txn)),
        decreases entries@.len() - i,
    {
        let ghost m_here = rw_view(*db, *txn);
        proof {
            lemma_replay_seq_snoc(m0, views, i as int);
            assert(views[i as int] == (entries@[i as int].0@, entries@[i as int].1@));
        }
        let kv = &entries[i];
        let rec = match RichCodec::bytes_decode(kv.1.as_slice()) {
            Ok(rec) => rec,
            Err(e) => {
                proof {
                    lemma_replay_seq_prefix_err(m0, views, i + 1);
                }
                return Err(ReplayError::Decode(e));
            },
        };
        match rec {
            RichDiff::Addition(value) => {
                match rw_put(db, txn, kv.0.as_slice(), value.as_slice()) {
                    Ok(()) => (),
                    Err(e) => return Err(ReplayError::Storage(e)),
                }
            },
            RichDiff::Deletion => {
                match rw_delete(db, txn, kv.0.as_slice()) {
                    Ok(_) => (),
                    Err(e) => return Err(ReplayError::Storage(e)),
                }
            },
            RichDiff::Patch(patch) => {
                let prev = match rw_get(db, txn, kv.0.as_slice()) {
                    Ok(p) => p,
                    Err(e) => return Err(ReplayError::Storage(e)),
                };
                let prev_bytes = match prev {
                    Some(p) => p,
                    None => {
                        proof {
                            lemma_replay_seq_prefix_err(m0, views, i + 1);
                        }
                        return Err(ReplayError::MissingBaseline);
                    },
                };
                if !check_patch(patch.as_slice()) {
                    proof {
                        lemma_replay_seq_prefix_err(m0, views, i + 1);
                    }
                    return Err(ReplayError::PatchApply);
                }
                let rebuilt = match bspatch(prev_bytes.as_slice(), patch.as_slice()) {
                    Some(v) => v,
                    None => {
                        proof {
                            lemma_replay_seq_prefix_err(m0, views, i + 1);
                        }
                        return Err(ReplayError::PatchApply);
                    },
                };
                match rw_put(db, txn, kv.0.as_slice(), rebuilt.as_slice()) {
                    Ok(()) => (),
                    Err(e) => return Err(ReplayError::Storage(e)),
                }
            },
        }
        proof {
            assert(replay_one(m_here, views[i as int].0, views[i as int].1) == Ok::<
                _,
                ReplayFault,
            >(rw_view(*db, *txn)));
        }
        i = i + 1;
    }
    proof {
        assert(views.take(entries@.len() as int) =~= views);
    }
    Ok(())
}

/// Decode every bundle entry into its record, in order, stopping at the
/// first malformed one.
pub fn decode_entries(entries: &Vec<(Vec<u8>, Vec<u8>)>) -> (r: Result<
    Vec<(Vec<u8>, RichDiff)>,
    DecodeError,
>)
    ensures
        match r {
            Ok(out) => {
                &&& out@.len() == entries@.len()
                &&& forall|i: int|
                    0 <= i < out@.len() ==> (#[trigger] out@[i]).0@ == entries@[i].0@ && decoded(
                        entries@[i].1@,
                    ) == Ok::<RecordView, DecodeError>(out@[i].1@)
            },
            Err(e) => exists|i: int|
                0 <= i < entries@.len() && decoded((#[trigger] entries@[i]).1@) == Err::<
                    RecordView,
                    DecodeError,
                >(e),
        },
{
    let mut out: Vec<(Vec<u8>, RichDiff)> = Vec::new();
    let mut i: usize = 0;
    while i < entries.len()
        invariant
            0 <= i <= entries@.len(),
            out@.len() == i,
            forall|j: int|
                0 <= j < i ==> (#[trigger] out@[j]).0@ == entries@[j].0@ && decoded(
                    entries@[j].1@,
                ) == Ok::<RecordView, DecodeError>(out@[j].1@),
        decreases entries@.len() - i,
    {
        let kv = &entries[i];
        let rec = match RichCodec::bytes_decode(kv.1.as_slice()) {
            Ok(rec) => rec,
            Err(e) => {
                return Err(e);
            },
        };
        let mut key: Vec<u8> = Vec::new();
        crate::codec::push_all(&mut key, kv.0.as_slice());
        out.push((key, rec));
        i = i + 1;
    }
    Ok(out)
}

/// Read and decode every record of a bundle's unnamed database. The returned
/// keys come in strictly ascending lexicographic order, each key once. What
/// a fresh read transaction sees is the bundle's durable state, which no
/// contract here can name; the decoding itself is `decode_entries`, whose
/// contract is exact.
pub fn read_bundle(env: &heed::Env) -> (r: Result<Vec<(Vec<u8>, RichDiff)>, ReplayError>)
    ensures
        r matches Ok(out) ==> forall|i: int, j: int|
            0 <= i < j < out@.len() ==> #[trigger] lex_lt(out@[i].0@, out@[j].0@),
{
    let db = match env_open_database(env, None) {
        Ok(Some(db)) => db,
        Ok(None) => return Ok(Vec::new()),
        Err(e) => return Err(ReplayError::Storage(e)),
    };
    let rtxn = match env_read_txn(env) {
        Ok(t) => t,
        Err(e) => return Err(ReplayError::Storage(e)),
    };
    let raw = match ro_entries(&db, &rtxn) {
        Ok(es) => es,
        Err(e) => return Err(ReplayError::Storage(e)),
    };
    match decode_entries(&raw) {
        Ok(out) => {
            proof {
                assert forall|i: int, j: int|
                    0 <= i < j < out@.len() implies #[trigger] lex_lt(out@[i].0@, out@[j].0@) by {
                    assert(entry_views(raw@)[i] == (raw@[i].0@, raw@[i].1@));
                    assert(entry_views(raw@)[j] == (raw@[j].0@, raw@[j].1@));
                    assert(lex_lt(entry_views(raw@)[i].0, entry_views(raw@)[j].0));
                };
            }
            Ok(out)
        },
        Err(e) => Err(ReplayError::Decode(e)),
    }
}

/// Replay a whole bundle onto a target store: open the bundle read-only,
/// read its records in ascending key order, apply each within one write
/// transaction on the target (`replay_into`, whose contract is exact), and
/// commit only when every record applied. Any failure aborts the whole
/// replay and leaves the target untouched. What the fresh transactions see
/// is the stores' durable state, which no contract here can name.
pub fn apply(bundle_env: &heed::Env, target_env: &heed::Env) -> (r: Result<(), ReplayError>) {
    let bundle_db = match env_open_database(bundle_env, None) {
        Ok(Some(db)) => db,
        Ok(None) => return Ok(()),
        Err(e) => return Err(ReplayError::Storage(e)),
    };
    let rtxn = match env_read_txn(bundle_env) {
        Ok(t) => t,
        Err(e) => return Err(ReplayError::Storage(e)),
    };
    let entries = match ro_entries(&bundle_db, &rtxn) {
        Ok(es) => es,
        Err(e) => return Err(ReplayError::Storage(e)),
    };
    let target_db = match env_create_database(target_env, None) {
        Ok(db) => db,
        Err(e) => return Err(ReplayError::Storage(e)),
    };
    let mut wtxn = match env_write_txn(target_env) {
        Ok(t) => t,
        Err(e) => return Err(ReplayError::Storage(e)),
    };
    match replay_into(&target_db, &mut wtxn, &entries) {
        Ok(()) => (),
        Err(e) => return Err(e),
    }
    match txn_commit(wtxn) {
        Ok(()) => Ok(()),
        Err(e) => Err(ReplayError::Storage(e)),
    }
}

} // verus!
