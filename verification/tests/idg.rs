use surrealdb_core::err::Error;
use surrealdb_core::idg::U32;
use surrealdb_core::kvs::{Transaction, Val};

fn get_ids(txn: &Transaction) -> U32 {
    let key = "foo".as_bytes().to_vec();
    U32::load(txn, key).unwrap()
}

fn finish(txn: &mut Transaction, d: U32) {
    d.store(txn).unwrap();
}

#[test]
fn test_get_remove_ids() {
    let mut ds = Transaction::new(true);

    // Get the first id
    {
        let mut d = get_ids(&ds);
        let id = d.get_next_id();
        finish(&mut ds, d);
        assert_eq!(id, 0);
    }

    // Get the second and the third ids
    {
        let mut d = get_ids(&ds);
        let id1 = d.get_next_id();
        let id2 = d.get_next_id();
        finish(&mut ds, d);
        assert_eq!(id1, 1);
        assert_eq!(id2, 2);
    }

    // It reuses the removed id within a transaction
    {
        let mut d = get_ids(&ds);
        d.remove_id(1);
        let id1 = d.get_next_id();
        let id2 = d.get_next_id();
        finish(&mut ds, d);
        assert_eq!(id1, 1);
        assert_eq!(id2, 3);
    }

    // It reuses the removed id across transactions
    {
        let mut d1 = get_ids(&ds);
        d1.remove_id(2);
        finish(&mut ds, d1);

        let mut d2 = get_ids(&ds);
        let id1 = d2.get_next_id();
        let id2 = d2.get_next_id();
        finish(&mut ds, d2);
        assert_eq!(id1, 2);
        assert_eq!(id2, 4);
    }
}

#[test]
fn a_freed_id_is_handed_out_before_the_counter_moves() {
    let mut d = U32::new(b"k".to_vec(), None).unwrap();
    assert_eq!(d.get_next_id(), 0);
    assert_eq!(d.get_next_id(), 1);
    assert_eq!(d.get_next_id(), 2);
    d.remove_id(1);
    assert_eq!(d.get_next_id(), 1);
    assert_eq!(d.get_next_id(), 3);
}

#[test]
fn the_smallest_freed_id_comes_first() {
    let mut d = U32::new(b"k".to_vec(), None).unwrap();
    for want in 0..10 {
        assert_eq!(d.get_next_id(), want);
    }
    d.remove_id(7);
    d.remove_id(2);
    d.remove_id(5);
    d.remove_id(2);
    assert_eq!(d.get_next_id(), 2);
    assert_eq!(d.get_next_id(), 5);
    assert_eq!(d.get_next_id(), 7);
    assert_eq!(d.get_next_id(), 10);
    // An id that was never handed out can be given to the allocator too.
    d.remove_id(70000);
    assert_eq!(d.get_next_id(), 70000);
    assert_eq!(d.get_next_id(), 11);
}

#[test]
fn finish_writes_only_what_changed() {
    let mut fresh = U32::new(b"k".to_vec(), None).unwrap();
    assert_eq!(fresh.finish(), None);
    let mut d = U32::new(b"k".to_vec(), None).unwrap();
    d.get_next_id();
    d.remove_id(0);
    d.get_next_id();
    d.get_next_id();
    let (key, val) = d.finish().unwrap();
    assert_eq!(key, b"k");
    // No set of freed ids, and the counter at two.
    assert_eq!(val, vec![0, 2, 0, 0, 0]);
    let mut loaded = U32::new(b"k".to_vec(), Some(val)).unwrap();
    assert_eq!(loaded.finish(), None);
    assert_eq!(loaded.get_next_id(), 2);
}

#[test]
fn the_state_keeps_the_freed_ids() {
    let mut d = U32::new(b"k".to_vec(), None).unwrap();
    for _ in 0..5 {
        d.get_next_id();
    }
    d.remove_id(3);
    d.remove_id(1);
    let (_, val) = d.finish().unwrap();
    assert_eq!(val[0], 1);
    assert_eq!(&val[val.len() - 4..], &[5, 0, 0, 0]);
    let mut loaded = U32::new(b"k".to_vec(), Some(val)).unwrap();
    assert_eq!(loaded.get_next_id(), 1);
    assert_eq!(loaded.get_next_id(), 3);
    assert_eq!(loaded.get_next_id(), 5);
}

#[test]
fn a_state_that_cannot_be_read_is_an_error() {
    assert!(matches!(U32::new(b"k".to_vec(), Some(vec![])), Err(Error::Serialization)));
    assert!(matches!(U32::new(b"k".to_vec(), Some(vec![7, 7, 7])), Err(Error::Serialization)));
    assert!(matches!(U32::new(b"k".to_vec(), Some(vec![1, 0, 0])), Err(Error::Serialization)));
}

#[test]
fn the_counter_has_an_end() {
    let mut d = U32::new(b"k".to_vec(), Some(vec![0, 0xfe, 0xff, 0xff, 0xff])).unwrap();
    assert!(d.has_next_id());
    assert_eq!(d.try_next_id(), Some(u32::MAX - 1));
    assert!(!d.has_next_id());
    assert_eq!(d.try_next_id(), None);
    d.remove_id(9);
    assert!(d.has_next_id());
    assert_eq!(d.try_next_id(), Some(9));
    assert_eq!(d.try_next_id(), None);
}

#[test]
fn load_and_store_go_through_the_transaction() {
    let mut txn = Transaction::new(true);
    let fresh = U32::load(&txn, b"k".to_vec()).unwrap();
    assert_eq!(fresh.store(&mut txn), Ok(()));
    assert_eq!(txn.len(), 0);
    let mut d = U32::load(&txn, b"k".to_vec()).unwrap();
    assert_eq!(d.get_next_id(), 0);
    assert_eq!(d.store(&mut txn), Ok(()));
    assert_eq!(txn.get(&b"k".to_vec()), Ok(Some(Val::Bytes(vec![0, 1, 0, 0, 0]))));
    txn.set(b"bad".to_vec(), Val::Unit, None).unwrap();
    assert!(matches!(U32::load(&txn, b"bad".to_vec()), Err(Error::Serialization)));
    txn.set(b"worse".to_vec(), Val::Bytes(vec![9]), None).unwrap();
    assert!(matches!(U32::load(&txn, b"worse".to_vec()), Err(Error::Serialization)));
    let mut readonly = Transaction::new(false);
    let mut d = U32::load(&readonly, b"k".to_vec()).unwrap();
    d.remove_id(4);
    assert_eq!(d.store(&mut readonly), Err(Error::TxReadonly));
    txn.commit().unwrap();
    assert!(matches!(U32::load(&txn, b"k".to_vec()), Err(Error::TxFinished)));
}


/// The state of an allocator as it is stored: the mark of a set, the length
/// of the set's bytes, the bytes, and the counter.
fn state(set: &[u8], next_id: u32) -> Vec<u8> {
    let mut v = vec![1u8];
    v.extend_from_slice(&(set.len() as u64).to_le_bytes());
    v.extend_from_slice(set);
    v.extend_from_slice(&next_id.to_le_bytes());
    v
}

#[test]
fn a_stored_set_without_ids_hands_out_none() {
    // One container of runs, with no run in it.
    let set = [0x3b, 0x30, 0, 0, 1, 0, 0, 0, 0, 0, 0];
    let mut d = U32::new(b"k".to_vec(), Some(state(&set, u32::MAX))).unwrap();
    assert!(!d.has_next_id());
    assert_eq!(d.try_next_id(), None);
    assert_eq!(d.finish(), None);
    let mut d = U32::new(b"k".to_vec(), Some(state(&set, 5))).unwrap();
    assert_eq!(d.try_next_id(), Some(5));
    let (_, val) = d.finish().unwrap();
    let mut loaded = U32::new(b"k".to_vec(), Some(val)).unwrap();
    assert_eq!(loaded.get_next_id(), 6);
}

#[test]
fn a_stored_set_out_of_order_hands_out_the_least_id_first() {
    // Two containers, the one of the higher ids first: 65541, then 7.
    let set = [
        0x3a, 0x30, 0, 0, 2, 0, 0, 0, 1, 0, 0, 0, 0, 0, 0, 0, 24, 0, 0, 0, 26, 0, 0, 0, 5, 0, 7, 0,
    ];
    let mut d = U32::new(b"k".to_vec(), Some(state(&set, 100_000))).unwrap();
    assert_eq!(d.get_next_id(), 7);
    assert_eq!(d.get_next_id(), 65541);
    assert_eq!(d.get_next_id(), 100_000);
    let (_, val) = d.finish().unwrap();
    assert_eq!(val, vec![0, 0xa1, 0x86, 1, 0]);
}

#[test]
fn a_stored_set_with_one_id_twice_hands_it_out_once() {
    // Two containers of one key, each with the id 9.
    let set = [
        0x3a, 0x30, 0, 0, 2, 0, 0, 0, 0, 0, 0, 0, 0, 0, 0, 0, 24, 0, 0, 0, 26, 0, 0, 0, 9, 0, 9, 0,
    ];
    let mut d = U32::new(b"k".to_vec(), Some(state(&set, 20))).unwrap();
    assert_eq!(d.get_next_id(), 9);
    assert_eq!(d.get_next_id(), 20);
}

#[test]
fn a_changed_state_always_comes_out() {
    let mut d = U32::new(b"k".to_vec(), None).unwrap();
    d.remove_id(3);
    d.remove_id(3);
    let (key, val) = d.finish().unwrap();
    assert_eq!(key, b"k");
    let mut loaded = U32::new(b"k".to_vec(), Some(val)).unwrap();
    assert_eq!(loaded.get_next_id(), 3);
    assert_eq!(loaded.get_next_id(), 0);
    let mut txn = Transaction::new(true);
    assert_eq!(loaded.store(&mut txn), Ok(()));
    assert_eq!(txn.get(&b"k".to_vec()), Ok(Some(Val::Bytes(vec![0, 1, 0, 0, 0]))));
}
