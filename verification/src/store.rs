use vstd::prelude::*;
use heed::types::ByteSlice;

verus! {

// ---------------------------------------------------------------------------
// Declarations of the store engine's types, so that they can stand in
// signatures and fields. Verus sees nothing inside a value of them.
// ---------------------------------------------------------------------------

#[verifier::external_type_specification]
#[verifier::external_body]
pub struct ExEnv(heed::Env);

#[verifier::external_type_specification]
#[verifier::external_body]
#[verifier::reject_recursive_types(T)]
pub struct ExRoTxn<T>(heed::RoTxn<T>);

#[verifier::external_type_specification]
#[verifier::external_body]
#[verifier::reject_recursive_types(T)]
pub struct ExRwTxn<'p, T>(heed::RwTxn<'p, T>);

#[verifier::external_type_specification]
#[verifier::external_body]
#[verifier::reject_recursive_types(KC)]
#[verifier::reject_recursive_types(DC)]
pub struct ExDatabase<KC, DC>(heed::Database<KC, DC>);

#[verifier::external_type_specification]
#[verifier::external_body]
#[verifier::reject_recursive_types(T)]
pub struct ExUnalignedSlice<T>(heed::types::UnalignedSlice<T>);

#[verifier::external_type_specification]
#[verifier::external_body]
pub struct ExError(heed::Error);

// ---------------------------------------------------------------------------
// The contents of a database, named per transaction. Within one transaction
// the engine's reads are snapshot-isolated, so what a transaction sees in a
// database is a function of the transaction value alone; writes go through
// `&mut` and so produce a new value.
// ---------------------------------------------------------------------------

/// The key/value pairs a write transaction sees in a database: the committed
/// state as of the transaction's start, plus this transaction's own writes.
pub uninterp spec fn rw_view(db: heed::Database<ByteSlice, ByteSlice>, txn: heed::RwTxn<'_>) -> Map<Seq<u8>, Seq<u8>>;

/// The key/value pairs a read transaction sees in a database: the committed
/// state as of the transaction's start.
pub uninterp spec fn ro_view(db: heed::Database<ByteSlice, ByteSlice>, txn: heed::RoTxn) -> Map<Seq<u8>, Seq<u8>>;

/// No NUL character anywhere in the string: the engine passes paths and
/// database names to C, which a NUL would cut short — and some of those
/// conversions abort instead of reporting failure.
pub open spec fn no_nul(s: Seq<char>) -> bool {
    forall|i: int| 0 <= i < s.len() ==> s[i] != '\0'
}

/// Strict lexicographic order on byte strings: a proper prefix comes first,
/// otherwise the first differing byte decides.
pub open spec fn lex_lt(a: Seq<u8>, b: Seq<u8>) -> bool
    decreases a.len(),
{
    if b.len() == 0 {
        false
    } else if a.len() == 0 {
        true
    } else if a[0] < b[0] {
        true
    } else if a[0] > b[0] {
        false
    } else {
        lex_lt(a.skip(1), b.skip(1))
    }
}

/// Law: the lexicographic order is strict — no byte string precedes itself —
/// so keys in strictly ascending order are pairwise distinct.
pub proof fn lemma_lex_lt_irreflexive(a: Seq<u8>)
    ensures
        !lex_lt(a, a),
    decreases a.len(),
{
    if a.len() > 0 {
        lemma_lex_lt_irreflexive(a.skip(1));
    }
}

/// The views of a sequence of owned key/value pairs.
pub open spec fn entry_views(es: Seq<(Vec<u8>, Vec<u8>)>) -> Seq<(Seq<u8>, Seq<u8>)> {
    es.map_values(|e: (Vec<u8>, Vec<u8>)| (e.0@, e.1@))
}

/// The pairs are exactly the map's entries: every pair is in the map, and
/// every key of the map appears among the pairs.
pub open spec fn entries_match(es: Seq<(Seq<u8>, Seq<u8>)>, m: Map<Seq<u8>, Seq<u8>>) -> bool {
    &&& forall|i: int|
        0 <= i < es.len() ==> m.contains_key((#[trigger] es[i]).0) && m[es[i].0] == es[i].1
    &&& forall|k: Seq<u8>|
        #[trigger] m.contains_key(k) ==> exists|i: int|
            0 <= i < es.len() && (#[trigger] es[i]).0 == k
}

/// The pairs come in strictly ascending key order.
pub open spec fn entries_sorted(es: Seq<(Seq<u8>, Seq<u8>)>) -> bool {
    forall|i: int, j: int| 0 <= i < j < es.len() ==> #[trigger] lex_lt(es[i].0, es[j].0)
}

// ---------------------------------------------------------------------------
// Trusted wrappers around the store engine's calls.
// ---------------------------------------------------------------------------

/// The granularity demanded of a map size: the engine aborts on a size that
/// is not a multiple of the system page size, and every page size it runs on
/// is a power of two no larger than this.
pub const MAP_SIZE_ALIGN: usize = 1024 * 1024;

/// Relies on heed::EnvOpenOptions::open: an environment under the given
/// directory, which must already exist. Failures are reported, not raised;
/// a path with a NUL byte is excluded, as the engine hands the path to C,
/// and the map size must be page-aligned (`MAP_SIZE_ALIGN`), as the engine
/// aborts on any other. The engine caches environments by canonical path: a
/// second open of the same directory returns the existing environment and
/// ignores the options given here.
#[verifier::external_body]
pub(crate) fn open_env(path: &str, map_size: usize, max_dbs: u32) -> (r: Result<heed::Env, heed::Error>)
    requires
        no_nul(path@),
        map_size % MAP_SIZE_ALIGN == 0,
{
    heed::EnvOpenOptions::new().map_size(map_size).max_dbs(max_dbs).open(path)
}

/// Relies on heed::Env::create_database: opens the named database, creating
/// it when it does not exist yet. A name with a NUL byte is excluded, as the
/// engine turns the name into a C string and aborts on one. The engine opens
/// a short write transaction of its own here, so this must not be called
/// while this thread holds a write transaction on the same environment: the
/// engine's writer lock would block forever.
#[verifier::external_body]
pub(crate) fn env_create_database(env: &heed::Env, name: Option<&str>) -> (r: Result<
    heed::Database<ByteSlice, ByteSlice>,
    heed::Error,
>)
    requires
        name matches Some(n) ==> no_nul(n@),
{
    env.create_database::<ByteSlice, ByteSlice>(name)
}

/// Relies on heed::Env::open_database: opens the named database, or reports
/// that it does not exist. A name with a NUL byte is excluded, as the engine
/// turns the name into a C string and aborts on one.
#[verifier::external_body]
pub(crate) fn env_open_database(env: &heed::Env, name: Option<&str>) -> (r: Result<
    Option<heed::Database<ByteSlice, ByteSlice>>,
    heed::Error,
>)
    requires
        name matches Some(n) ==> no_nul(n@),
{
    env.open_database::<ByteSlice, ByteSlice>(name)
}

/// Relies on heed::Env::write_txn: one fresh write transaction; its view of
/// any database is the committed state, which nothing here can know. The
/// engine allows one writer at a time: beginning a second write transaction
/// in the thread that already holds one blocks forever.
#[verifier::external_body]
pub(crate) fn env_write_txn(env: &heed::Env) -> (r: Result<heed::RwTxn<'_>, heed::Error>) {
    env.write_txn()
}

/// Relies on heed::Env::read_txn: one fresh read transaction.
#[verifier::external_body]
pub(crate) fn env_read_txn(env: &heed::Env) -> (r: Result<heed::RoTxn, heed::Error>) {
    env.read_txn()
}

/// Relies on heed::Database::get: the value the transaction's view binds to
/// the key, or nothing when the key is absent.
#[verifier::external_body]
pub(crate) fn rw_get(
    db: &heed::Database<ByteSlice, ByteSlice>,
    txn: &heed::RwTxn<'_>,
    key: &[u8],
) -> (r: Result<Option<Vec<u8>>, heed::Error>)
    ensures
        match r {
            Ok(Some(v)) => rw_view(*db, *txn).contains_key(key@) && rw_view(*db, *txn)[key@]
                == v@,
            Ok(None) => !rw_view(*db, *txn).contains_key(key@),
            Err(_) => true,
        },
{
    match db.get(txn, key) {
        Ok(opt) => Ok(opt.map(|s| s.to_vec())),
        Err(e) => Err(e),
    }
}

/// Relies on heed::Database::put: binds the key to the value in the
/// transaction's view, overwriting any previous binding.
#[verifier::external_body]
pub(crate) fn rw_put(
    db: &heed::Database<ByteSlice, ByteSlice>,
    txn: &mut heed::RwTxn<'_>,
    key: &[u8],
    data: &[u8],
) -> (r: Result<(), heed::Error>)
    ensures
        r matches Ok(_) ==> rw_view(*db, *final(txn)) == rw_view(*db, *old(txn)).insert(
            key@,
            data@,
        ),
{
    db.put(txn, key, data)
}

/// Relies on heed::Database::delete: removes the key from the transaction's
/// view and reports whether it was present.
#[verifier::external_body]
pub(crate) fn rw_delete(
    db: &heed::Database<ByteSlice, ByteSlice>,
    txn: &mut heed::RwTxn<'_>,
    key: &[u8],
) -> (r: Result<bool, heed::Error>)
    ensures
        match r {
            Ok(existed) => existed == rw_view(*db, *old(txn)).contains_key(key@) && rw_view(
                *db,
                *final(txn),
            ) == rw_view(*db, *old(txn)).remove(key@),
            Err(_) => true,
        },
{
    db.delete(txn, key)
}

/// Relies on heed::Database::iter: every key/value pair the read transaction
/// sees, in ascending lexicographic key order, each key once.
#[verifier::external_body]
pub(crate) fn ro_entries(db: &heed::Database<ByteSlice, ByteSlice>, txn: &heed::RoTxn) -> (r:
    Result<Vec<(Vec<u8>, Vec<u8>)>, heed::Error>)
    ensures
        match r {
            Ok(es) => entries_match(entry_views(es@), ro_view(*db, *txn)) && entries_sorted(
                entry_views(es@),
            ),
            Err(_) => true,
        },
{
    let mut out = Vec::new();
    for result in db.iter(txn)? {
        let (k, v) = result?;
        out.push((k.to_vec(), v.to_vec()));
    }
    Ok(out)
}

/// Relies on heed::RwTxn::commit: makes the transaction's writes durable, or
/// reports failure, in which case the writes are discarded.
#[verifier::external_body]
pub(crate) fn txn_commit(txn: heed::RwTxn<'_>) -> (r: Result<(), heed::Error>) {
    txn.commit()
}

} // verus!
