use vstd::prelude::*;
use heed::types::ByteSlice;
use crate::codec::encoded;
use crate::codec::RichCodec;
use crate::engine::bsdiff;
use crate::engine::bsdiff_of;
use crate::engine::bspatch_res;
use crate::engine::patch_wf;
use crate::engine::MAX_SOURCE_LEN;
use crate::errors::CommitError;
use crate::errors::WriteError;
use crate::record::RecordView;
use crate::record::RichDiff;
use crate::store::env_create_database;
use crate::store::env_write_txn;
use crate::store::no_nul;
use crate::store::MAP_SIZE_ALIGN;
use crate::store::open_env;
use crate::store::rw_delete;
use crate::store::rw_get;
use crate::store::rw_put;
use crate::store::rw_view;
use crate::store::txn_commit;

verus! {

/// Map size the environments are opened with.
pub const ONE_GIGA: usize = 1024 * 1024 * 1024;

/// How many named databases an environment may hold.
pub const MAX_DBS: u32 = 3000;

/// The record a put stores for a key: the full new value when the store does
/// not hold the key, else a binary patch from the key's current value to the
/// new one.
pub open spec fn record_for(data: Map<Seq<u8>, Seq<u8>>, key: Seq<u8>, value: Seq<u8>) -> RecordView {
    if data.contains_key(key) {
        RecordView::Patch(bsdiff_of(data[key], value))
    } else {
        RecordView::Addition(value)
    }
}

/// Law: a put on a key the store does not hold records the full new value,
/// and leaves the store holding that value.
pub proof fn lemma_put_new_key(data: Map<Seq<u8>, Seq<u8>>, key: Seq<u8>, value: Seq<u8>)
    requires
        !data.contains_key(key),
    ensures
        record_for(data, key, value) == RecordView::Addition(value),
        data.insert(key, value)[key] == value,
{
}

/// Law: a put on a key the store holds records a patch computed from the
/// key's current value, and leaves the store holding the new value.
pub proof fn lemma_put_existing_key(data: Map<Seq<u8>, Seq<u8>>, key: Seq<u8>, value: Seq<u8>)
    requires
        data.contains_key(key),
    ensures
        record_for(data, key, value) == RecordView::Patch(bsdiff_of(data[key], value)),
        data.insert(key, value)[key] == value,
{
}

/// Law: writing a second record for one key leaves the bundle holding only
/// the second; no intermediate record survives.
pub proof fn lemma_overwrite(
    bundle: Map<Seq<u8>, Seq<u8>>,
    key: Seq<u8>,
    first: Seq<u8>,
    second: Seq<u8>,
)
    ensures
        bundle.insert(key, first).insert(key, second) == bundle.insert(key, second),
{
    assert(bundle.insert(key, first).insert(key, second) =~= bundle.insert(key, second));
}

/// The pair of environments a writer works against: one holds the primary
/// data, the other the change bundle.
pub struct DifferEnv {
    /// Environment of the primary store.
    pub(crate) env: heed::Env,
    /// Environment of the change bundle.
    pub(crate) diff: heed::Env,
}

/// One write session: a write transaction on the primary store paired with
/// one on the bundle, held together for the session's whole lifetime.
pub struct DifferRwTxn<'e> {
    /// Transaction on the bundle.
    pub(crate) diff: heed::RwTxn<'e>,
    /// Transaction on the primary store.
    pub(crate) txn: heed::RwTxn<'e>,
}

/// A database of the primary store paired with the bundle database that
/// records its changes.
pub struct DifferDatabase {
    /// Bundle database: key to encoded change record.
    pub(crate) diff: heed::Database<ByteSlice, ByteSlice>,
    /// Primary database: key to value.
    pub(crate) db: heed::Database<ByteSlice, ByteSlice>,
}

impl DifferEnv {
    /// Pair two already-opened environments.
    pub fn new(env: heed::Env, diff: heed::Env) -> (r: DifferEnv) {
        DifferEnv { env, diff }
    }

    /// Open the primary store under one existing directory and the bundle
    /// store under another. The paths go to the store engine's C interface,
    /// so they must hold no NUL character. The bundle directory must hold a
    /// fresh, empty store: a reused one keeps records of earlier sessions,
    /// and the bundle then no longer equals this session's net effect.
    pub fn open(path: &str, diff_path: &str) -> (r: Result<DifferEnv, heed::Error>)
        requires
            no_nul(path@),
            no_nul(diff_path@),
    {
        proof {
            assert(ONE_GIGA % MAP_SIZE_ALIGN == 0) by (nonlinear_arith);
        }
        DifferEnv::open_with_map_size(path, diff_path, ONE_GIGA)
    }

    /// As `open`, with the environments' map size chosen by the caller; the
    /// engine demands a page-aligned size (`MAP_SIZE_ALIGN`) and aborts on
    /// any other. The engine also caches environments by canonical path, so
    /// opening a directory a second time returns the existing environment
    /// and silently ignores the size given here.
    pub fn open_with_map_size(path: &str, diff_path: &str, map_size: usize) -> (r: Result<
        DifferEnv,
        heed::Error,
    >)
        requires
            no_nul(path@),
            no_nul(diff_path@),
            map_size % MAP_SIZE_ALIGN == 0,
    {
        let env = match open_env(path, map_size, MAX_DBS) {
            Ok(e) => e,
            Err(e) => return Err(e),
        };
        let diff = match open_env(diff_path, map_size, MAX_DBS) {
            Ok(e) => e,
            Err(e) => return Err(e),
        };
        Ok(DifferEnv { env, diff })
    }

    /// Open (creating if need be) the named database in both environments.
    /// The name goes to the store engine's C interface, so it must hold no
    /// NUL character; and the engine briefly takes each environment's writer
    /// lock here, so no session may be open when this is called.
    pub fn create_database(&self, name: Option<&str>) -> (r: Result<DifferDatabase, heed::Error>)
        requires
            name matches Some(n) ==> no_nul(n@),
    {
        let db = match env_create_database(&self.env, name) {
            Ok(d) => d,
            Err(e) => return Err(e),
        };
        let diff = match env_create_database(&self.diff, name) {
            Ok(d) => d,
            Err(e) => return Err(e),
        };
        Ok(DifferDatabase { diff, db })
    }

    /// The environment that holds the primary data.
    pub fn primary_env(&self) -> &heed::Env {
        &self.env
    }

    /// The environment that holds the change bundle.
    pub fn bundle_env(&self) -> &heed::Env {
        &self.diff
    }

    /// Begin a session: one write transaction on each store, logically paired
    /// until `commit` ends them together. The engine allows one writer per
    /// store at a time, so at most one session may be open per `DifferEnv`:
    /// a second one begun in the same thread would block forever.
    pub fn write_txn(&self) -> (r: Result<DifferRwTxn<'_>, heed::Error>) {
        let txn = match env_write_txn(&self.env) {
            Ok(t) => t,
            Err(e) => return Err(e),
        };
        let diff = match env_write_txn(&self.diff) {
            Ok(t) => t,
            Err(e) => return Err(e),
        };
        Ok(DifferRwTxn { diff, txn })
    }
}

impl<'e> DifferRwTxn<'e> {
    /// The primary store's contents as this session sees them: committed
    /// state plus this session's own earlier writes.
    pub closed spec fn data_view(self, db: DifferDatabase) -> Map<Seq<u8>, Seq<u8>> {
        rw_view(db.db, self.txn)
    }

    /// The bundle's contents as this session sees them: each mutated key
    /// bound to its encoded change record.
    pub closed spec fn bundle_view(self, db: DifferDatabase) -> Map<Seq<u8>, Seq<u8>> {
        rw_view(db.diff, self.diff)
    }

    /// End the session: commit the bundle, then the primary store, in that
    /// fixed order. A failure of the first leaves both aborted; a failure of
    /// the second after the first succeeded is the fatal ordering case.
    pub fn commit(self) -> (r: Result<(), CommitError>) {
        let DifferRwTxn { diff, txn } = self;
        match txn_commit(diff) {
            Err(e) => Err(CommitError::Storage(e)),
            Ok(()) => match txn_commit(txn) {
                Ok(()) => Ok(()),
                Err(e) => Err(CommitError::CommitOrdering(e)),
            },
        }
    }
}

impl DifferDatabase {
    /// Read a key through the session's view of the primary store.
    pub fn get(&self, txn: &DifferRwTxn<'_>, key: &[u8]) -> (r: Result<
        Option<Vec<u8>>,
        WriteError,
    >)
        ensures
            match r {
                Ok(Some(v)) => txn.data_view(*self).contains_key(key@) && txn.data_view(*self)[key@]
                    == v@,
                Ok(None) => !txn.data_view(*self).contains_key(key@),
                Err(e) => e is Storage,
            },
    {
        match rw_get(&self.db, &txn.txn, key) {
            Ok(v) => Ok(v),
            Err(e) => Err(WriteError::Storage(e)),
        }
    }

    /// Record and perform one write: store in the bundle the record that
    /// describes the change (full value for a new key, patch from the current
    /// value for an existing one, overwriting any pending record for the
    /// key), and bind the key to the new value in the primary store.
    ///
    /// The patch's baseline is the key's value in this session's own view, so
    /// after repeated puts of one key only the last record survives and its
    /// baseline is the intermediate value, not the session-start one: a
    /// replica holding the session-start value cannot replay it.
    pub fn put(&self, txn: &mut DifferRwTxn<'_>, key: &[u8], data: &[u8]) -> (r: Result<
        (),
        WriteError,
    >)
        ensures
            match r {
                Ok(_) => {
                    &&& final(txn).data_view(*self) == old(txn).data_view(*self).insert(
                        key@,
                        data@,
                    )
                    &&& final(txn).bundle_view(*self) == old(txn).bundle_view(*self).insert(
                        key@,
                        encoded(record_for(old(txn).data_view(*self), key@, data@)),
                    )
                    &&& old(txn).data_view(*self).contains_key(key@) ==> {
                        &&& bspatch_res(
                            old(txn).data_view(*self)[key@],
                            bsdiff_of(old(txn).data_view(*self)[key@], data@),
                        ) == Some(data@)
                        &&& patch_wf(bsdiff_of(old(txn).data_view(*self)[key@], data@))
                    }
                },
                Err(_) => true,
            },
            r matches Err(WriteError::Diff) ==> old(txn).data_view(*self).contains_key(key@),
            old(txn).data_view(*self).contains_key(key@) && old(txn).data_view(*self)[key@].len()
                > MAX_SOURCE_LEN ==> r is Err,
    {
        let prev = match rw_get(&self.db, &txn.txn, key) {
            Ok(p) => p,
            Err(e) => return Err(WriteError::Storage(e)),
        };
        let record = match prev {
            Some(prev_bytes) => {
                if prev_bytes.len() > MAX_SOURCE_LEN {
                    return Err(WriteError::Diff);
                }
                match bsdiff(prev_bytes.as_slice(), data) {
                    Some(patch) => RichDiff::Patch(patch),
                    None => return Err(WriteError::Diff),
                }
            },
            None => {
                let mut value: Vec<u8> = Vec::new();
                crate::codec::push_all(&mut value, data);
                RichDiff::Addition(value)
            },
        };
        let record_bytes = RichCodec::bytes_encode(&record);
        match rw_put(&self.diff, &mut txn.diff, key, record_bytes.as_slice()) {
            Ok(()) => (),
            Err(e) => return Err(WriteError::Storage(e)),
        }
        match rw_put(&self.db, &mut txn.txn, key, data) {
            Ok(()) => (),
            Err(e) => return Err(WriteError::Storage(e)),
        }
        Ok(())
    }

    /// Record and perform one deletion: store a tombstone in the bundle
    /// (whether or not the key was present), remove the key from the primary
    /// store, and report whether it was present.
    pub fn delete(&self, txn: &mut DifferRwTxn<'_>, key: &[u8]) -> (r: Result<bool, WriteError>)
        ensures
            match r {
                Ok(existed) => {
                    &&& existed == old(txn).data_view(*self).contains_key(key@)
                    &&& final(txn).data_view(*self) == old(txn).data_view(*self).remove(key@)
                    &&& final(txn).bundle_view(*self) == old(txn).bundle_view(*self).insert(
                        key@,
                        encoded(RecordView::Deletion),
                    )
                },
                Err(e) => e is Storage,
            },
    {
        let record_bytes = RichCodec::bytes_encode(&RichDiff::Deletion);
        match rw_put(&self.diff, &mut txn.diff, key, record_bytes.as_slice()) {
            Ok(()) => (),
            Err(e) => return Err(WriteError::Storage(e)),
        }
        match rw_delete(&self.db, &mut txn.txn, key) {
            Ok(existed) => Ok(existed),
            Err(e) => Err(WriteError::Storage(e)),
        }
    }
}

} // verus!
