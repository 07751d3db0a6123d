use heed::types::ByteSlice;
use lmdb_qbsdiff::apply;
use lmdb_qbsdiff::read_bundle;
use lmdb_qbsdiff::DifferEnv;
use lmdb_qbsdiff::ReplayError;
use lmdb_qbsdiff::RichDiff;
use tempfile::TempDir;

const TEST_MAP_SIZE: usize = 16 * 1024 * 1024;

fn open_differ(primary: &TempDir, bundle: &TempDir) -> DifferEnv {
    DifferEnv::open_with_map_size(
        primary.path().to_str().unwrap(),
        bundle.path().to_str().unwrap(),
        TEST_MAP_SIZE,
    )
    .unwrap()
}

fn open_plain(dir: &TempDir) -> heed::Env {
    heed::EnvOpenOptions::new()
        .map_size(TEST_MAP_SIZE)
        .max_dbs(10)
        .open(dir.path())
        .unwrap()
}

fn plain_put(env: &heed::Env, key: &[u8], value: &[u8]) {
    let db = env.create_database::<ByteSlice, ByteSlice>(None).unwrap();
    let mut wtxn = env.write_txn().unwrap();
    db.put(&mut wtxn, key, value).unwrap();
    wtxn.commit().unwrap();
}

fn plain_get(env: &heed::Env, key: &[u8]) -> Option<Vec<u8>> {
    let db = env.create_database::<ByteSlice, ByteSlice>(None).unwrap();
    let rtxn = env.read_txn().unwrap();
    let value = db.get(&rtxn, key).unwrap().map(|v| v.to_vec());
    value
}

#[test]
fn new_key_records_addition_and_get_returns_it() {
    let (p, b) = (TempDir::new().unwrap(), TempDir::new().unwrap());
    let env = open_differ(&p, &b);
    let db = env.create_database(None).unwrap();

    let mut wtxn = env.write_txn().unwrap();
    db.put(&mut wtxn, b"k", b"v").unwrap();
    assert_eq!(db.get(&wtxn, b"k").unwrap(), Some(b"v".to_vec()));
    wtxn.commit().unwrap();

    let records = read_bundle(env.bundle_env()).unwrap();
    assert_eq!(records.len(), 1);
    assert_eq!(records[0].0, b"k".to_vec());
    assert_eq!(records[0].1, RichDiff::Addition(b"v".to_vec()));

    let wtxn = env.write_txn().unwrap();
    assert_eq!(db.get(&wtxn, b"k").unwrap(), Some(b"v".to_vec()));
}

#[test]
fn existing_key_records_patch_that_rebuilds_the_value() {
    let (p, b1) = (TempDir::new().unwrap(), TempDir::new().unwrap());
    let env = open_differ(&p, &b1);
    let db = env.create_database(None).unwrap();
    let mut wtxn = env.write_txn().unwrap();
    db.put(&mut wtxn, b"a", b"1").unwrap();
    wtxn.commit().unwrap();

    // A fresh bundle for the second session, over the same primary store.
    let b2 = TempDir::new().unwrap();
    let env2 = open_differ(&p, &b2);
    let db2 = env2.create_database(None).unwrap();
    let mut wtxn = env2.write_txn().unwrap();
    db2.put(&mut wtxn, b"a", b"12").unwrap();
    wtxn.commit().unwrap();

    let records = read_bundle(env2.bundle_env()).unwrap();
    assert_eq!(records.len(), 1);
    assert_eq!(records[0].0, b"a".to_vec());
    assert!(matches!(records[0].1, RichDiff::Patch(_)));

    // Replaying on a target that holds the baseline rebuilds the value.
    let t = TempDir::new().unwrap();
    let target = open_plain(&t);
    plain_put(&target, b"a", b"1");
    apply(env2.bundle_env(), &target).unwrap();
    assert_eq!(plain_get(&target, b"a"), Some(b"12".to_vec()));

    // Replaying on a target that lacks the key reports the missing baseline.
    let t2 = TempDir::new().unwrap();
    let empty_target = open_plain(&t2);
    let err = apply(env2.bundle_env(), &empty_target).unwrap_err();
    assert!(matches!(err, ReplayError::MissingBaseline));
}

#[test]
fn delete_always_records_a_tombstone() {
    let (p, b) = (TempDir::new().unwrap(), TempDir::new().unwrap());
    let env = open_differ(&p, &b);
    let db = env.create_database(None).unwrap();

    let mut wtxn = env.write_txn().unwrap();
    // Deleting an absent key still records a tombstone and reports absence.
    assert_eq!(db.delete(&mut wtxn, b"ghost").unwrap(), false);
    db.put(&mut wtxn, b"k", b"v").unwrap();
    assert_eq!(db.delete(&mut wtxn, b"k").unwrap(), true);
    assert_eq!(db.get(&wtxn, b"k").unwrap(), None);
    wtxn.commit().unwrap();

    let records = read_bundle(env.bundle_env()).unwrap();
    assert_eq!(records.len(), 2);
    assert_eq!(records[0].0, b"ghost".to_vec());
    assert_eq!(records[0].1, RichDiff::Deletion);
    assert_eq!(records[1].0, b"k".to_vec());
    assert_eq!(records[1].1, RichDiff::Deletion);
}

#[test]
fn second_put_overwrites_the_pending_record() {
    let (p, b) = (TempDir::new().unwrap(), TempDir::new().unwrap());
    let env = open_differ(&p, &b);
    let db = env.create_database(None).unwrap();

    let mut wtxn = env.write_txn().unwrap();
    db.put(&mut wtxn, b"k", b"first").unwrap();
    db.put(&mut wtxn, b"k", b"second").unwrap();
    assert_eq!(db.get(&wtxn, b"k").unwrap(), Some(b"second".to_vec()));
    wtxn.commit().unwrap();

    // Only the second put's record survives; it saw the first value, so it
    // is a patch.
    let records = read_bundle(env.bundle_env()).unwrap();
    assert_eq!(records.len(), 1);
    assert_eq!(records[0].0, b"k".to_vec());
    assert!(matches!(records[0].1, RichDiff::Patch(_)));
}

#[test]
fn scenario_two_additions_replay_on_empty_target() {
    let (p, b) = (TempDir::new().unwrap(), TempDir::new().unwrap());
    let env = open_differ(&p, &b);
    let db = env.create_database(None).unwrap();

    let mut wtxn = env.write_txn().unwrap();
    db.put(&mut wtxn, b"a", b"1").unwrap();
    db.put(&mut wtxn, b"b", b"2").unwrap();
    wtxn.commit().unwrap();

    let records = read_bundle(env.bundle_env()).unwrap();
    assert_eq!(records.len(), 2);
    assert_eq!(records[0].0, b"a".to_vec());
    assert_eq!(records[0].1, RichDiff::Addition(b"1".to_vec()));
    assert_eq!(records[1].0, b"b".to_vec());
    assert_eq!(records[1].1, RichDiff::Addition(b"2".to_vec()));

    let t = TempDir::new().unwrap();
    let target = open_plain(&t);
    apply(env.bundle_env(), &target).unwrap();
    assert_eq!(plain_get(&target, b"a"), Some(b"1".to_vec()));
    assert_eq!(plain_get(&target, b"b"), Some(b"2".to_vec()));
}

#[test]
fn scenario_deletion_replays_on_any_target() {
    let (p, b) = (TempDir::new().unwrap(), TempDir::new().unwrap());
    let env = open_differ(&p, &b);
    let db = env.create_database(None).unwrap();

    let mut wtxn = env.write_txn().unwrap();
    db.delete(&mut wtxn, b"b").unwrap();
    wtxn.commit().unwrap();

    // On a target that holds the key, replay removes it.
    let t = TempDir::new().unwrap();
    let target = open_plain(&t);
    plain_put(&target, b"b", b"old");
    apply(env.bundle_env(), &target).unwrap();
    assert_eq!(plain_get(&target, b"b"), None);

    // On a target without the key, replay succeeds and changes nothing.
    let t2 = TempDir::new().unwrap();
    let bare_target = open_plain(&t2);
    apply(env.bundle_env(), &bare_target).unwrap();
    assert_eq!(plain_get(&bare_target, b"b"), None);
}

#[test]
fn committed_values_survive_a_new_session() {
    let (p, b) = (TempDir::new().unwrap(), TempDir::new().unwrap());
    let env = open_differ(&p, &b);
    let db = env.create_database(None).unwrap();

    let mut wtxn = env.write_txn().unwrap();
    db.put(&mut wtxn, b"k", b"kept").unwrap();
    wtxn.commit().unwrap();

    let wtxn = env.write_txn().unwrap();
    assert_eq!(db.get(&wtxn, b"k").unwrap(), Some(b"kept".to_vec()));
}

#[test]
fn malformed_bundle_entry_is_rejected_on_replay() {
    // A bundle written by hand with a record that decodes to nothing.
    let (b, t) = (TempDir::new().unwrap(), TempDir::new().unwrap());
    let bundle = open_plain(&b);
    plain_put(&bundle, b"k", b"?broken");

    let target = open_plain(&t);
    let err = apply(&bundle, &target).unwrap_err();
    assert!(matches!(err, ReplayError::Decode(_)));
    // Nothing was committed to the target.
    assert_eq!(plain_get(&target, b"k"), None);
}

#[test]
fn misfitting_patch_is_rejected_on_replay() {
    // A bundle whose patch bytes are not a well-formed patch at all.
    let (b, t) = (TempDir::new().unwrap(), TempDir::new().unwrap());
    let bundle = open_plain(&b);
    plain_put(&bundle, b"k", b"~garbage");

    let target = open_plain(&t);
    plain_put(&target, b"k", b"baseline");
    let err = apply(&bundle, &target).unwrap_err();
    assert!(matches!(err, ReplayError::PatchApply));
    assert_eq!(plain_get(&target, b"k"), Some(b"baseline".to_vec()));
}

#[test]
fn oversized_patch_size_field_is_rejected_on_replay() {
    // A patch record whose header carries the right magic but a control-size
    // field with its sign bit set: a size the patch cannot hold. Replay must
    // report it as a patch-application failure, not crash.
    let mut record = b"~BSDIFF40".to_vec();
    record.extend_from_slice(&(16u64 | 1u64 << 63).to_le_bytes());
    record.extend_from_slice(&[0u8; 16]);
    assert_eq!(record.len(), 1 + 32);

    let (b, t) = (TempDir::new().unwrap(), TempDir::new().unwrap());
    let bundle = open_plain(&b);
    plain_put(&bundle, b"k", &record);

    let target = open_plain(&t);
    plain_put(&target, b"k", b"baseline");
    let err = apply(&bundle, &target).unwrap_err();
    assert!(matches!(err, ReplayError::PatchApply));
    assert_eq!(plain_get(&target, b"k"), Some(b"baseline".to_vec()));
}

#[test]
fn large_values_round_trip_through_a_patch() {
    let (p, b1) = (TempDir::new().unwrap(), TempDir::new().unwrap());
    let env = open_differ(&p, &b1);
    let db = env.create_database(None).unwrap();

    let old: Vec<u8> = (0..4096u32).map(|i| (i % 251) as u8).collect();
    let mut new = old.clone();
    new[100] = 7;
    new.extend_from_slice(b"tail");

    let mut wtxn = env.write_txn().unwrap();
    db.put(&mut wtxn, b"blob", &old).unwrap();
    wtxn.commit().unwrap();

    let b2 = TempDir::new().unwrap();
    let env2 = open_differ(&p, &b2);
    let db2 = env2.create_database(None).unwrap();
    let mut wtxn = env2.write_txn().unwrap();
    db2.put(&mut wtxn, b"blob", &new).unwrap();
    wtxn.commit().unwrap();

    let t = TempDir::new().unwrap();
    let target = open_plain(&t);
    plain_put(&target, b"blob", &old);
    apply(env2.bundle_env(), &target).unwrap();
    assert_eq!(plain_get(&target, b"blob"), Some(new));
}
