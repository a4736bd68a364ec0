//! The allocation of compact numeric ids.
//!
//! An allocator hands out the ids `0, 1, 2, ...` and takes ids back. An id
//! that was taken back is handed out again before the counter moves on, the
//! smallest first. The state of an allocator is stored under a key of the
//! caller and written back only where it changed.

use vstd::prelude::*;
use crate::err::Error;
use crate::kvs::{Key, Transaction, Val, ValView, bytes_duplicate};
use roaring::RoaringBitmap;

verus! {

/// An id that an allocator hands out.
pub type Id = u32;

/// `roaring::RoaringBitmap`, a set of 32-bit integers. Nothing of what is
/// inside it is known here but the integers that it holds.
#[verifier::external_type_specification]
#[verifier::external_body]
pub struct ExRoaringBitmap(RoaringBitmap);

/// `bincode::ErrorKind`, what `bincode` reports when it cannot read or write.
/// Nothing of what is inside it is known here.
#[verifier::external_type_specification]
#[verifier::external_body]
pub struct ExErrorKind(bincode::ErrorKind);

/// The integers that a `RoaringBitmap` holds.
pub uninterp spec fn bitmap_ids(b: RoaringBitmap) -> Set<u32>;

/// Whether a `RoaringBitmap` is laid out as `RoaringBitmap::new`, `insert`
/// and `remove` leave one: its containers in ascending order of their keys,
/// no key twice, no container empty, each held as an array or as a bitmap
/// according to its size. The methods below are stated of such bitmaps
/// alone. A bitmap that was read from bytes need not be one, and none is
/// used here: the ids of a stored bitmap are inserted into a new one.
pub uninterp spec fn bitmap_kept(b: RoaringBitmap) -> bool;

/// What `bincode::deserialize` reads from the bytes as a pair of an optional
/// `RoaringBitmap` and a `u32`, or `None` where it fails: the integers that
/// the iterator of the bitmap lists, in its order, where there is a bitmap,
/// and the number.
pub uninterp spec fn decoded_state(bytes: Seq<u8>) -> Option<(Option<Seq<u32>>, u32)>;

/// `RoaringBitmap::new` makes a bitmap that holds nothing.
pub assume_specification[ RoaringBitmap::new ]() -> (r: RoaringBitmap)
    ensures
        bitmap_kept(r),
        bitmap_ids(r) == Set::<u32>::empty(),
;

/// `RoaringBitmap::insert` adds the value to the set and tells whether it was
/// absent.
pub assume_specification[ RoaringBitmap::insert ](b: &mut RoaringBitmap, value: u32) -> (r: bool)
    requires
        bitmap_kept(*old(b)),
    ensures
        bitmap_kept(*final(b)),
        bitmap_ids(*final(b)) == bitmap_ids(*old(b)).insert(value),
        r == !bitmap_ids(*old(b)).contains(value),
;

/// `RoaringBitmap::remove` takes the value out of the set and tells whether
/// it was present.
pub assume_specification[ RoaringBitmap::remove ](b: &mut RoaringBitmap, value: u32) -> (r: bool)
    requires
        bitmap_kept(*old(b)),
    ensures
        bitmap_kept(*final(b)),
        bitmap_ids(*final(b)) == bitmap_ids(*old(b)).remove(value),
        r == bitmap_ids(*old(b)).contains(value),
;

/// Whether the set holds an integer.
pub open spec fn has_ids(s: Set<u32>) -> bool {
    exists|x: u32| s.contains(x)
}

/// `RoaringBitmap::is_empty` tells whether the set holds no integer.
pub assume_specification[ RoaringBitmap::is_empty ](b: &RoaringBitmap) -> (r: bool)
    requires
        bitmap_kept(*b),
    ensures
        r == !has_ids(bitmap_ids(*b)),
;

/// Whether `x` is the smallest integer of the set.
pub open spec fn is_least(s: Set<u32>, x: u32) -> bool {
    s.contains(x) && forall|y: u32| s.contains(y) ==> x <= y
}

/// `RoaringBitmap::min` gives the smallest integer of the set, or `None`
/// where the set is empty.
pub assume_specification[ RoaringBitmap::min ](b: &RoaringBitmap) -> (r: Option<u32>)
    requires
        bitmap_kept(*b),
    ensures
        match r {
            Some(x) => is_least(bitmap_ids(*b), x),
            None => !has_ids(bitmap_ids(*b)),
        },
;

/// The integers of an optional bitmap.
pub open spec fn ids_view(ids: Option<RoaringBitmap>) -> Option<Set<u32>> {
    match ids {
        Some(b) => Some(bitmap_ids(b)),
        None => None,
    }
}

/// Whether an optional bitmap, where there is one, is laid out as `new`,
/// `insert` and `remove` leave it.
pub open spec fn ids_kept(ids: Option<RoaringBitmap>) -> bool {
    match ids {
        Some(b) => bitmap_kept(b),
        None => true,
    }
}

/// The integers of an optional list.
pub open spec fn listed(ids: Option<Seq<u32>>) -> Option<Set<u32>> {
    match ids {
        Some(s) => Some(s.to_set()),
        None => None,
    }
}

/// Whether the bytes read as a state with these freed ids and this counter.
pub open spec fn reads_as(bytes: Seq<u8>, freed: Option<Set<u32>>, next_id: u32) -> bool {
    decoded_state(bytes) matches Some((ids, n)) && listed(ids) == freed && n == next_id
}

/// `bincode::serialize` on the pair of the bitmap and the number. It writes
/// to memory with no limit on the size, so it succeeds, and
/// `bincode::deserialize` reads the same pair back from the bytes: a bitmap
/// whose iterator lists the integers that this one holds, and the number.
#[verifier::external_body]
fn encode_state(ids: &Option<RoaringBitmap>, next_id: u32) -> (r: Result<
    Vec<u8>,
    Box<bincode::ErrorKind>,
>)
    requires
        ids_kept(*ids),
    ensures
        r is Ok,
        r matches Ok(bytes) ==> reads_as(bytes@, ids_view(*ids), next_id),
{
    bincode::serialize(&(ids, next_id))
}

/// `bincode::deserialize` on the bytes, as a pair of an optional bitmap and a
/// number. The bitmap is handed on as the integers that `RoaringBitmap::iter`
/// lists.
#[verifier::external_body]
fn decode_state(val: &Vec<u8>) -> (r: Result<(Option<Vec<u32>>, u32), Box<bincode::ErrorKind>>)
    ensures
        match r {
            Ok((ids, next_id)) => decoded_state(val@) == Some((ids_listed(ids), next_id)),
            Err(_) => decoded_state(val@) is None,
        },
{
    let (ids, next_id) = bincode::deserialize::<(Option<RoaringBitmap>, u32)>(val)?;
    Ok((ids.map(|b| b.iter().collect()), next_id))
}

/// The integers of an optional vector, in its order.
pub open spec fn ids_listed(ids: Option<Vec<u32>>) -> Option<Seq<u32>> {
    match ids {
        Some(v) => Some(v@),
        None => None,
    }
}

/// A bitmap that holds the integers of the list.
fn bitmap_of(ids: &Vec<u32>) -> (r: RoaringBitmap)
    ensures
        bitmap_kept(r),
        bitmap_ids(r) == ids@.to_set(),
{
    let mut b = RoaringBitmap::new();
    let mut i: usize = 0;
    while i < ids.len()
        invariant
            i <= ids.len(),
            bitmap_kept(b),
            forall|x: u32|
                bitmap_ids(b).contains(x) <==> exists|j: int| 0 <= j < i && ids@[j] == x,
        decreases ids.len() - i,
    {
        b.insert(ids[i]);
        i += 1;
    }
    assert(bitmap_ids(b) =~= ids@.to_set());
    b
}

/// An allocator of 32-bit ids that hands out again the ids that were taken
/// back.
pub struct U32 {
    state_key: Key,
    available_ids: Option<RoaringBitmap>,
    next_id: Id,
    updated: bool,
}

impl U32 {
    /// The set of ids is one that this allocator built.
    #[verifier::type_invariant]
    spec fn sound(self) -> bool {
        ids_kept(self.available_ids)
    }

    /// The key under which the state of the allocator is stored.
    pub closed spec fn state_key(&self) -> Seq<u8> {
        self.state_key@
    }

    /// The ids that were taken back and not handed out again, where the
    /// allocator holds a set of them.
    pub closed spec fn freed(&self) -> Option<Set<u32>> {
        ids_view(self.available_ids)
    }

    /// The ids that were taken back and not handed out again.
    pub open spec fn available(&self) -> Set<u32> {
        match self.freed() {
            Some(s) => s,
            None => Set::empty(),
        }
    }

    /// The id that the counter hands out next.
    pub closed spec fn next_id(&self) -> Id {
        self.next_id
    }

    /// Whether the state changed since it was loaded.
    pub closed spec fn updated(&self) -> bool {
        self.updated
    }

    /// Whether an id can be handed out: one was taken back, or the counter
    /// has not reached its end.
    pub open spec fn can_allocate(&self) -> bool {
        has_ids(self.available()) || self.next_id() < u32::MAX
    }

    /// Whether the bytes read as the state of this allocator.
    pub open spec fn stored_as(&self, bytes: Seq<u8>) -> bool {
        reads_as(bytes, self.freed(), self.next_id())
    }

    /// An allocator with the state that was stored under `state_key`, or a
    /// new one where nothing was stored.
    pub fn new(state_key: Key, v: Option<Vec<u8>>) -> (r: Result<Self, Error>)
        ensures
            match r {
                Ok(a) => a.state_key() == state_key@ && !a.updated() && (match v {
                    Some(val) => a.stored_as(val@),
                    None => a.freed() is None && a.next_id() == 0,
                }),
                Err(e) => e == Error::Serialization && v is Some && decoded_state(v->0@) is None,
            },
    {
        let (available_ids, next_id) = if let Some(val) = v {
            match decode_state(&val) {
                Ok((Some(ids), next_id)) => (Some(bitmap_of(&ids)), next_id),
                Ok((None, next_id)) => (None, next_id),
                Err(_) => {
                    return Err(Error::Serialization);
                },
            }
        } else {
            (None, 0)
        };
        Ok(Self { state_key, available_ids, updated: false, next_id })
    }

    /// The allocator whose state the store holds under `state_key`, or a new
    /// one where the store holds nothing there. What the store holds there
    /// must be bytes that can be read.
    pub fn load(txn: &Transaction, state_key: Key) -> (r: Result<Self, Error>)
        ensures
            match r {
                Ok(a) => txn.can_read() && a.state_key() == state_key@ && !a.updated() && (
                if txn@.contains_key(state_key@) {
                    txn@[state_key@] matches ValView::Bytes(b) && a.stored_as(b)
                } else {
                    a.freed() is None && a.next_id() == 0
                }),
                Err(e) => if !txn.can_read() {
                    e == Error::TxFinished
                } else {
                    e == Error::Serialization && txn@.contains_key(state_key@) && !(
                    txn@[state_key@] matches ValView::Bytes(b) && decoded_state(b) is Some)
                },
            },
    {
        let stored = match txn.get(&state_key)? {
            Some(Val::Bytes(b)) => Some(b),
            Some(_) => {
                return Err(Error::Serialization);
            },
            None => None,
        };
        Self::new(state_key, stored)
    }

    /// Writes the state of the allocator back to the store, where it changed
    /// since it was loaded. It fails only where the transaction refuses every
    /// write.
    pub fn store(self, txn: &mut Transaction) -> (r: Result<(), Error>)
        ensures
            final(txn).is_done() == old(txn).is_done(),
            final(txn).is_writeable() == old(txn).is_writeable(),
            !self.updated() ==> r is Ok && final(txn)@ == old(txn)@,
            self.updated() ==> match r {
                Ok(_) => old(txn).can_write() && final(txn)@.dom() == old(txn)@.dom().insert(
                    self.state_key(),
                ) && (forall|k: Seq<u8>|
                    k != self.state_key() && old(txn)@.contains_key(k) ==> final(txn)@[k] == old(
                        txn,
                    )@[k]) && (final(txn)@[self.state_key()] matches ValView::Bytes(b)
                    && self.stored_as(b)),
                Err(e) => final(txn)@ == old(txn)@ && old(txn).write_error() == Some(e),
            },
    {
        let mut ids = self;
        match ids.finish() {
            Some((key, val)) => txn.set(key, Val::Bytes(val), None),
            None => Ok(()),
        }
    }

    /// Whether an id can be handed out.
    pub fn has_next_id(&self) -> (r: bool)
        ensures
            r == self.can_allocate(),
    {
        if self.next_id < u32::MAX {
            return true;
        }
        proof {
            use_type_invariant(self);
        }
        match &self.available_ids {
            Some(available_ids) => !available_ids.is_empty(),
            None => {
                assert(!has_ids(Set::<u32>::empty()));
                false
            },
        }
    }

    /// Hands out an id: the smallest of those that were taken back, or the
    /// next of the counter where there is none.
    pub fn get_next_id(&mut self) -> (r: Id)
        requires
            old(self).can_allocate(),
        ensures
            final(self).state_key() == old(self).state_key(),
            final(self).updated(),
            if has_ids(old(self).available()) {
                &&& is_least(old(self).available(), r)
                &&& final(self).available() == old(self).available().remove(r)
                &&& final(self).next_id() == old(self).next_id()
                &&& final(self).freed() is Some <==> has_ids(final(self).available())
            } else {
                &&& r == old(self).next_id()
                &&& final(self).next_id() == old(self).next_id() + 1
                &&& final(self).freed() == old(self).freed()
            },
    {
        proof {
            use_type_invariant(&*self);
        }
        self.updated = true;
        // We check first if there is any available id
        let mut taken: Option<RoaringBitmap> = None;
        std::mem::swap(&mut taken, &mut self.available_ids);
        if let Some(mut available_ids) = taken {
            if let Some(available_id) = available_ids.min() {
                assert(old(self).available().contains(available_id));
                available_ids.remove(available_id);
                let ghost left = bitmap_ids(available_ids);
                if !available_ids.is_empty() {
                    self.available_ids = Some(available_ids);
                } else {
                    assert(left =~= Set::<u32>::empty()) by {
                        assert forall|x: u32| !left.contains(x) by {
                            if left.contains(x) {
                                assert(has_ids(left));
                            }
                        }
                    }
                    assert(!has_ids(Set::<u32>::empty()));
                }
                return available_id;
            }
            assert(!has_ids(old(self).available()));
            self.available_ids = Some(available_ids);
        } else {
            assert(!has_ids(Set::<u32>::empty()));
        }
        // If not, we use the sequence
        let doc_id = self.next_id;
        self.next_id += 1;
        doc_id
    }

    /// Hands out an id where one can be handed out, and `None` where every
    /// id is taken.
    pub fn try_next_id(&mut self) -> (r: Option<Id>)
        ensures
            final(self).state_key() == old(self).state_key(),
            match r {
                Some(id) => old(self).can_allocate() && final(self).updated() && if has_ids(
                    old(self).available(),
                ) {
                    &&& is_least(old(self).available(), id)
                    &&& final(self).available() == old(self).available().remove(id)
                    &&& final(self).next_id() == old(self).next_id()
                } else {
                    &&& id == old(self).next_id()
                    &&& final(self).next_id() == old(self).next_id() + 1
                    &&& final(self).freed() == old(self).freed()
                },
                None => !old(self).can_allocate() && final(self).freed() == old(self).freed()
                    && final(self).next_id() == old(self).next_id() && final(self).updated()
                    == old(self).updated(),
            },
    {
        if self.has_next_id() {
            Some(self.get_next_id())
        } else {
            None
        }
    }

    /// Takes an id back.
    pub fn remove_id(&mut self, id: Id)
        ensures
            final(self).state_key() == old(self).state_key(),
            final(self).updated(),
            final(self).next_id() == old(self).next_id(),
            final(self).freed() == Some(old(self).available().insert(id)),
    {
        proof {
            use_type_invariant(&*self);
        }
        let mut taken: Option<RoaringBitmap> = None;
        std::mem::swap(&mut taken, &mut self.available_ids);
        let mut available_ids = match taken {
            Some(available_ids) => available_ids,
            None => RoaringBitmap::new(),
        };
        available_ids.insert(id);
        self.available_ids = Some(available_ids);
        self.updated = true;
    }

    /// The key and the bytes to store, where the state changed since it was
    /// loaded, and nothing where it did not. The bytes read back as the
    /// state. The allocator gives its set of ids away with them.
    pub fn finish(&mut self) -> (r: Option<(Key, Vec<u8>)>)
        ensures
            final(self).state_key() == old(self).state_key(),
            final(self).next_id() == old(self).next_id(),
            final(self).updated() == old(self).updated(),
            match r {
                Some((key, val)) => old(self).updated() && key@ == old(self).state_key()
                    && old(self).stored_as(val@),
                None => !old(self).updated(),
            },
            final(self).freed() == (if old(self).updated() {
                None
            } else {
                old(self).freed()
            }),
    {
        if self.updated {
            proof {
                use_type_invariant(&*self);
            }
            let mut available_ids: Option<RoaringBitmap> = None;
            std::mem::swap(&mut available_ids, &mut self.available_ids);
            let val = encode_state(&available_ids, self.next_id).unwrap();
            return Some((bytes_duplicate(&self.state_key), val));
        }
        None
    }
}

} // verus!
