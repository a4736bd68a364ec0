//! An in-memory transaction over an ordered key-value store.
//!
//! The transaction is modelled as a finite map from keys to values. Every
//! operation fails with [`Error::TxFinished`] once the transaction has ended,
//! and every write fails with [`Error::TxReadonly`] on a transaction that was
//! opened for reading.

use vstd::prelude::*;
use crate::err::Error;
use crate::val::{Thing, ThingView};

verus! {

/// A byte string that addresses a value in the store.
pub type Key = Vec<u8>;

/// What is stored under a key.
#[derive(Debug, PartialEq, Eq)]
pub enum Val {
    /// Nothing but the presence of the key.
    Unit,
    /// The id of the record that an index entry belongs to.
    Thing(Thing),
    /// A serialised value.
    Bytes(Vec<u8>),
}

/// Mathematical model of a [`Val`].
pub enum ValView {
    Unit,
    Thing(ThingView),
    Bytes(Seq<u8>),
}

impl View for Val {
    type V = ValView;

    open spec fn view(&self) -> ValView {
        match self {
            Val::Unit => ValView::Unit,
            Val::Thing(t) => ValView::Thing(t@),
            Val::Bytes(b) => ValView::Bytes(b@),
        }
    }
}

/// Whether two byte strings are the same.
pub fn bytes_equal(a: &Vec<u8>, b: &Vec<u8>) -> (r: bool)
    ensures
        r == (a@ == b@),
{
    if a.len() != b.len() {
        return false;
    }
    let mut i: usize = 0;
    while i < a.len()
        invariant
            i <= a.len(),
            a.len() == b.len(),
            forall|j: int| 0 <= j < i ==> a[j] == b[j],
        decreases a.len() - i,
    {
        if a[i] != b[i] {
            return false;
        }
        i += 1;
    }
    assert(a@ =~= b@);
    true
}

/// A copy of a byte string.
pub fn bytes_duplicate(a: &Vec<u8>) -> (r: Vec<u8>)
    ensures
        r@ == a@,
{
    let mut out: Vec<u8> = Vec::new();
    let mut i: usize = 0;
    while i < a.len()
        invariant
            i <= a.len(),
            out@ == a@.subrange(0, i as int),
        decreases a.len() - i,
    {
        out.push(a[i]);
        i += 1;
        assert(out@ =~= a@.subrange(0, i as int));
    }
    assert(a@.subrange(0, i as int) =~= a@);
    out
}

impl Val {
    /// Whether two stored values are the same.
    pub fn equals(&self, other: &Val) -> (r: bool)
        ensures
            r == (self@ == other@),
    {
        match (self, other) {
            (Val::Unit, Val::Unit) => true,
            (Val::Thing(a), Val::Thing(b)) => a.equals(b),
            (Val::Bytes(a), Val::Bytes(b)) => bytes_equal(a, b),
            _ => false,
        }
    }

    /// A deep copy of this stored value.
    pub fn duplicate(&self) -> (r: Val)
        ensures
            r@ == self@,
    {
        match self {
            Val::Unit => Val::Unit,
            Val::Thing(t) => Val::Thing(t.duplicate()),
            Val::Bytes(b) => Val::Bytes(bytes_duplicate(b)),
        }
    }
}

/// Whether no key occurs twice among the entries.
spec fn distinct_keys(s: Seq<(Key, Val)>) -> bool {
    forall|i: int, j: int| 0 <= i < s.len() && 0 <= j < s.len() && i != j ==> s[i].0@ != s[j].0@
}

/// Whether `i` is the place of the key `k` among the entries.
spec fn holds_at(s: Seq<(Key, Val)>, k: Seq<u8>, i: int) -> bool {
    0 <= i < s.len() && s[i].0@ == k
}

/// The map that the entries stand for.
spec fn entries_map(s: Seq<(Key, Val)>) -> Map<Seq<u8>, ValView> {
    Map::new(
        |k: Seq<u8>| exists|i: int| holds_at(s, k, i),
        |k: Seq<u8>| s[choose|i: int| holds_at(s, k, i)].1@,
    )
}

proof fn lemma_lookup(s: Seq<(Key, Val)>, i: int)
    requires
        distinct_keys(s),
        0 <= i < s.len(),
    ensures
        entries_map(s).contains_key(s[i].0@),
        entries_map(s)[s[i].0@] == s[i].1@,
{
    let k = s[i].0@;
    assert(holds_at(s, k, i));
    let j = choose|j: int| holds_at(s, k, j);
    assert(holds_at(s, k, j));
    assert(i == j);
}

proof fn lemma_absent(s: Seq<(Key, Val)>, k: Seq<u8>)
    requires
        forall|i: int| 0 <= i < s.len() ==> s[i].0@ != k,
    ensures
        !entries_map(s).contains_key(k),
{
    assert forall|i: int| !holds_at(s, k, i) by {}
}

proof fn lemma_push(s: Seq<(Key, Val)>, e: (Key, Val))
    requires
        distinct_keys(s),
        forall|i: int| 0 <= i < s.len() ==> s[i].0@ != e.0@,
    ensures
        distinct_keys(s.push(e)),
        entries_map(s.push(e)) == entries_map(s).insert(e.0@, e.1@),
{
    let t = s.push(e);
    assert(distinct_keys(t));
    assert forall|k: Seq<u8>| #[trigger]
        entries_map(t).contains_key(k) == entries_map(s).insert(e.0@, e.1@).contains_key(k) by {
        if entries_map(t).contains_key(k) {
            let i = choose|i: int| holds_at(t, k, i);
            assert(holds_at(t, k, i));
            if i < s.len() {
                assert(holds_at(s, k, i));
            }
        }
        if entries_map(s).contains_key(k) {
            let i = choose|i: int| holds_at(s, k, i);
            assert(holds_at(s, k, i));
            assert(holds_at(t, k, i));
        }
        if k == e.0@ {
            assert(holds_at(t, k, s.len() as int));
        }
    }
    assert forall|k: Seq<u8>| #[trigger]
        entries_map(t).contains_key(k) implies entries_map(t)[k] == entries_map(s).insert(
        e.0@,
        e.1@,
    )[k] by {
        let i = choose|i: int| holds_at(t, k, i);
        assert(holds_at(t, k, i));
        lemma_lookup(t, i);
        if i < s.len() {
            lemma_lookup(s, i);
        }
    }
    assert(entries_map(t) =~= entries_map(s).insert(e.0@, e.1@));
}

proof fn lemma_update(s: Seq<(Key, Val)>, i: int, e: (Key, Val))
    requires
        distinct_keys(s),
        0 <= i < s.len(),
        e.0@ == s[i].0@,
    ensures
        distinct_keys(s.update(i, e)),
        entries_map(s.update(i, e)) == entries_map(s).insert(e.0@, e.1@),
{
    let t = s.update(i, e);
    assert(distinct_keys(t));
    assert forall|k: Seq<u8>| #[trigger]
        entries_map(t).contains_key(k) == entries_map(s).insert(e.0@, e.1@).contains_key(k) by {
        if entries_map(t).contains_key(k) {
            let j = choose|j: int| holds_at(t, k, j);
            assert(holds_at(t, k, j));
            assert(holds_at(s, k, j));
        }
        if entries_map(s).contains_key(k) {
            let j = choose|j: int| holds_at(s, k, j);
            assert(holds_at(s, k, j));
            assert(holds_at(t, k, j));
        }
        if k == e.0@ {
            assert(holds_at(t, k, i));
        }
    }
    assert forall|k: Seq<u8>| #[trigger]
        entries_map(t).contains_key(k) implies entries_map(t)[k] == entries_map(s).insert(
        e.0@,
        e.1@,
    )[k] by {
        let j = choose|j: int| holds_at(t, k, j);
        assert(holds_at(t, k, j));
        lemma_lookup(t, j);
        lemma_lookup(s, j);
    }
    assert(entries_map(t) =~= entries_map(s).insert(e.0@, e.1@));
}

proof fn lemma_remove(s: Seq<(Key, Val)>, i: int)
    requires
        distinct_keys(s),
        0 <= i < s.len(),
    ensures
        distinct_keys(s.remove(i)),
        entries_map(s.remove(i)) == entries_map(s).remove(s[i].0@),
{
    let t = s.remove(i);
    assert(distinct_keys(t)) by {
        assert forall|a: int, b: int|
            0 <= a < t.len() && 0 <= b < t.len() && a != b implies t[a].0@ != t[b].0@ by {
            let a0 = if a < i { a } else { a + 1 };
            let b0 = if b < i { b } else { b + 1 };
            assert(t[a] == s[a0]);
            assert(t[b] == s[b0]);
        }
    }
    assert forall|k: Seq<u8>| #[trigger]
        entries_map(t).contains_key(k) == entries_map(s).remove(s[i].0@).contains_key(k) by {
        if entries_map(t).contains_key(k) {
            let j = choose|j: int| holds_at(t, k, j);
            assert(holds_at(t, k, j));
            let j0 = if j < i { j } else { j + 1 };
            assert(t[j] == s[j0]);
            assert(holds_at(s, k, j0));
        }
        if entries_map(s).remove(s[i].0@).contains_key(k) {
            let j = choose|j: int| holds_at(s, k, j);
            assert(holds_at(s, k, j));
            assert(j != i);
            let j1 = if j < i { j } else { j - 1 };
            assert(t[j1] == s[j]);
            assert(holds_at(t, k, j1));
        }
    }
    assert forall|k: Seq<u8>| #[trigger]
        entries_map(t).contains_key(k) implies entries_map(t)[k] == entries_map(s).remove(
        s[i].0@,
    )[k] by {
        let j = choose|j: int| holds_at(t, k, j);
        assert(holds_at(t, k, j));
        let j0 = if j < i { j } else { j + 1 };
        assert(t[j] == s[j0]);
        lemma_lookup(t, j);
        lemma_lookup(s, j0);
    }
    assert(entries_map(t) =~= entries_map(s).remove(s[i].0@));
}

/// A transaction over an in-memory store.
pub struct Transaction {
    done: bool,
    write: bool,
    entries: Vec<(Key, Val)>,
}

impl View for Transaction {
    type V = Map<Seq<u8>, ValView>;

    /// What the store holds: a finite map from keys to values.
    closed spec fn view(&self) -> Map<Seq<u8>, ValView> {
        entries_map(self.entries@)
    }
}

impl Transaction {
    #[verifier::type_invariant]
    spec fn well_formed(self) -> bool {
        distinct_keys(self.entries@)
    }

    /// Whether the transaction has ended.
    pub closed spec fn is_done(&self) -> bool {
        self.done
    }

    /// Whether the transaction accepts writes.
    pub closed spec fn is_writeable(&self) -> bool {
        self.write
    }

    /// Whether a read succeeds.
    pub open spec fn can_read(&self) -> bool {
        !self.is_done()
    }

    /// Whether a write succeeds, as far as the transaction's state decides.
    pub open spec fn can_write(&self) -> bool {
        !self.is_done() && self.is_writeable()
    }

    /// The error with which every write fails, if there is one.
    pub open spec fn write_error(&self) -> Option<Error> {
        if self.is_done() {
            Some(Error::TxFinished)
        } else if !self.is_writeable() {
            Some(Error::TxReadonly)
        } else {
            None
        }
    }

    /// A transaction over an empty store.
    pub fn new(write: bool) -> (r: Transaction)
        ensures
            r@ == Map::<Seq<u8>, ValView>::empty(),
            !r.is_done(),
            r.is_writeable() == write,
    {
        let r = Transaction { done: false, write, entries: Vec::new() };
        proof {
            assert(r@ =~= Map::<Seq<u8>, ValView>::empty()) by {
                assert forall|k: Seq<u8>| !(#[trigger] r@.contains_key(k)) by {
                    lemma_absent(r.entries@, k);
                }
            }
        }
        r
    }

    /// Whether the transaction has ended.
    pub fn closed(&self) -> (r: bool)
        ensures
            r == self.is_done(),
    {
        self.done
    }

    /// Whether the transaction accepts writes.
    pub fn writeable(&self) -> (r: bool)
        ensures
            r == self.is_writeable(),
    {
        self.write
    }

    /// Ends the transaction and keeps what it wrote.
    pub fn commit(&mut self) -> (r: Result<(), Error>)
        ensures
            final(self)@ == old(self)@,
            final(self).is_writeable() == old(self).is_writeable(),
            final(self).is_done(),
            match r {
                Ok(_) => old(self).can_write(),
                Err(e) => old(self).write_error() == Some(e),
            },
    {
        proof {
            use_type_invariant(&*self);
        }
        if self.done {
            return Err(Error::TxFinished);
        }
        self.done = true;
        if !self.write {
            return Err(Error::TxReadonly);
        }
        Ok(())
    }

    /// The place of a key among the entries.
    fn find(entries: &Vec<(Key, Val)>, key: &Vec<u8>) -> (r: Option<usize>)
        ensures
            match r {
                Some(i) => i < entries.len() && entries[i as int].0@ == key@,
                None => forall|i: int| 0 <= i < entries.len() ==> entries[i].0@ != key@,
            },
    {
        let mut i: usize = 0;
        while i < entries.len()
            invariant
                i <= entries.len(),
                forall|j: int| 0 <= j < i ==> entries[j].0@ != key@,
            decreases entries.len() - i,
        {
            if bytes_equal(&entries[i].0, key) {
                return Some(i);
            }
            i += 1;
        }
        None
    }

    /// The number of keys in the store.
    pub fn len(&self) -> (r: usize)
        ensures
            r == self@.len(),
            self@.dom().finite(),
    {
        proof {
            use_type_invariant(self);
            lemma_len(self.entries@);
        }
        self.entries.len()
    }

    /// Whether there is a value under `key`.
    pub fn contains(&self, key: &Vec<u8>) -> (r: Result<bool, Error>)
        ensures
            match r {
                Ok(b) => self.can_read() && b == self@.contains_key(key@),
                Err(e) => !self.can_read() && e == Error::TxFinished,
            },
    {
        if self.done {
            return Err(Error::TxFinished);
        }
        proof {
            use_type_invariant(self);
        }
        match Self::find(&self.entries, key) {
            Some(i) => {
                proof {
                    lemma_lookup(self.entries@, i as int);
                }
                Ok(true)
            },
            None => {
                proof {
                    lemma_absent(self.entries@, key@);
                }
                Ok(false)
            },
        }
    }

    /// The value under `key`, if there is one.
    pub fn get(&self, key: &Vec<u8>) -> (r: Result<Option<Val>, Error>)
        ensures
            match r {
                Ok(Some(v)) => self.can_read() && self@.contains_key(key@) && self@[key@] == v@,
                Ok(None) => self.can_read() && !self@.contains_key(key@),
                Err(e) => !self.can_read() && e == Error::TxFinished,
            },
    {
        if self.done {
            return Err(Error::TxFinished);
        }
        proof {
            use_type_invariant(self);
        }
        match Self::find(&self.entries, key) {
            Some(i) => {
                proof {
                    lemma_lookup(self.entries@, i as int);
                }
                Ok(Some(self.entries[i].1.duplicate()))
            },
            None => {
                proof {
                    lemma_absent(self.entries@, key@);
                }
                Ok(None)
            },
        }
    }

    /// Puts `val` under `key`, whatever was there. `version` is the version
    /// that the write names, for a store that keeps the versions of a key;
    /// this one keeps the last write of a key and none before it, whatever
    /// their versions.
    pub fn set(&mut self, key: Vec<u8>, val: Val, version: Option<u64>) -> (r: Result<(), Error>)
        ensures
            final(self).is_done() == old(self).is_done(),
            final(self).is_writeable() == old(self).is_writeable(),
            match r {
                Ok(_) => old(self).can_write() && final(self)@ == old(self)@.insert(key@, val@),
                Err(e) => old(self).write_error() == Some(e) && final(self)@ == old(self)@,
            },
    {
        if self.done {
            return Err(Error::TxFinished);
        }
        if !self.write {
            return Err(Error::TxReadonly);
        }
        proof {
            use_type_invariant(&*self);
        }
        let mut entries: Vec<(Key, Val)> = Vec::new();
        std::mem::swap(&mut entries, &mut self.entries);
        let ghost before = entries@;
        match Self::find(&entries, &key) {
            Some(i) => {
                proof {
                    lemma_update(before, i as int, (key, val));
                }
                entries.set(i, (key, val));
            },
            None => {
                proof {
                    lemma_push(before, (key, val));
                }
                entries.push((key, val));
            },
        }
        self.entries = entries;
        Ok(())
    }

    /// Puts `val` under `key` if the store holds what `chk` expects there:
    /// nothing where `chk` is `None`, the value of `chk` otherwise.
    pub fn putc(&mut self, key: Vec<u8>, val: Val, chk: Option<&Val>) -> (r: Result<(), Error>)
        ensures
            final(self).is_done() == old(self).is_done(),
            final(self).is_writeable() == old(self).is_writeable(),
            match r {
                Ok(_) => old(self).can_write() && expected(old(self)@, key@, chk) && final(self)@
                    == old(self)@.insert(key@, val@),
                Err(e) => final(self)@ == old(self)@ && match old(self).write_error() {
                    Some(w) => e == w,
                    None => !expected(old(self)@, key@, chk) && e == (match chk {
                        None => Error::TxKeyAlreadyExists,
                        Some(_) => Error::TxConditionNotMet,
                    }),
                },
            },
    {
        if self.done {
            return Err(Error::TxFinished);
        }
        if !self.write {
            return Err(Error::TxReadonly);
        }
        proof {
            use_type_invariant(&*self);
        }
        let mut entries: Vec<(Key, Val)> = Vec::new();
        std::mem::swap(&mut entries, &mut self.entries);
        let ghost before = entries@;
        let r = match (Self::find(&entries, &key), chk) {
            (Some(i), Some(w)) => {
                proof {
                    lemma_lookup(before, i as int);
                }
                if entries[i].1.equals(w) {
                    proof {
                        lemma_update(before, i as int, (key, val));
                    }
                    entries.set(i, (key, val));
                    Ok(())
                } else {
                    Err(Error::TxConditionNotMet)
                }
            },
            (Some(i), None) => {
                proof {
                    lemma_lookup(before, i as int);
                }
                Err(Error::TxKeyAlreadyExists)
            },
            (None, Some(_)) => {
                proof {
                    lemma_absent(before, key@);
                }
                Err(Error::TxConditionNotMet)
            },
            (None, None) => {
                proof {
                    lemma_absent(before, key@);
                    lemma_push(before, (key, val));
                }
                entries.push((key, val));
                Ok(())
            },
        };
        self.entries = entries;
        r
    }

    /// Removes the value under `key`, if there is one.
    pub fn del(&mut self, key: &Vec<u8>) -> (r: Result<(), Error>)
        ensures
            final(self).is_done() == old(self).is_done(),
            final(self).is_writeable() == old(self).is_writeable(),
            match r {
                Ok(_) => old(self).can_write() && final(self)@ == old(self)@.remove(key@),
                Err(e) => old(self).write_error() == Some(e) && final(self)@ == old(self)@,
            },
    {
        if self.done {
            return Err(Error::TxFinished);
        }
        if !self.write {
            return Err(Error::TxReadonly);
        }
        proof {
            use_type_invariant(&*self);
        }
        let mut entries: Vec<(Key, Val)> = Vec::new();
        std::mem::swap(&mut entries, &mut self.entries);
        let ghost before = entries@;
        match Self::find(&entries, key) {
            Some(i) => {
                proof {
                    lemma_remove(before, i as int);
                }
                let _ = entries.remove(i);
            },
            None => {
                proof {
                    lemma_absent(before, key@);
                    assert(entries_map(before).remove(key@) =~= entries_map(before));
                }
            },
        }
        self.entries = entries;
        Ok(())
    }

    /// Removes the value under `key` if the store holds what `chk` expects
    /// there: nothing where `chk` is `None`, the value of `chk` otherwise.
    pub fn delc(&mut self, key: &Vec<u8>, chk: Option<&Val>) -> (r: Result<(), Error>)
        ensures
            final(self).is_done() == old(self).is_done(),
            final(self).is_writeable() == old(self).is_writeable(),
            match r {
                Ok(_) => old(self).can_write() && expected(old(self)@, key@, chk) && final(self)@
                    == old(self)@.remove(key@),
                Err(e) => final(self)@ == old(self)@ && match old(self).write_error() {
                    Some(w) => e == w,
                    None => !expected(old(self)@, key@, chk) && e == Error::TxConditionNotMet,
                },
            },
    {
        if self.done {
            return Err(Error::TxFinished);
        }
        if !self.write {
            return Err(Error::TxReadonly);
        }
        proof {
            use_type_invariant(&*self);
        }
        let mut entries: Vec<(Key, Val)> = Vec::new();
        std::mem::swap(&mut entries, &mut self.entries);
        let ghost before = entries@;
        let r = match (Self::find(&entries, key), chk) {
            (Some(i), Some(w)) => {
                proof {
                    lemma_lookup(before, i as int);
                }
                if entries[i].1.equals(w) {
                    proof {
                        lemma_remove(before, i as int);
                    }
                    let _ = entries.remove(i);
                    Ok(())
                } else {
                    Err(Error::TxConditionNotMet)
                }
            },
            (Some(i), None) => {
                proof {
                    lemma_lookup(before, i as int);
                }
                Err(Error::TxConditionNotMet)
            },
            (None, Some(_)) => {
                proof {
                    lemma_absent(before, key@);
                }
                Err(Error::TxConditionNotMet)
            },
            (None, None) => {
                proof {
                    lemma_absent(before, key@);
                    assert(entries_map(before).remove(key@) =~= entries_map(before));
                }
                Ok(())
            },
        };
        self.entries = entries;
        r
    }
}

/// Whether the store holds under `key` what a conditional write expects:
/// nothing where `chk` is `None`, the value of `chk` otherwise.
pub open spec fn expected(store: Map<Seq<u8>, ValView>, key: Seq<u8>, chk: Option<&Val>) -> bool {
    match chk {
        None => !store.contains_key(key),
        Some(w) => store.contains_key(key) && store[key] == w@,
    }
}

proof fn lemma_len(s: Seq<(Key, Val)>)
    requires
        distinct_keys(s),
    ensures
        entries_map(s).dom().finite(),
        entries_map(s).len() == s.len(),
    decreases s.len(),
{
    if s.len() == 0 {
        assert(entries_map(s) =~= Map::<Seq<u8>, ValView>::empty()) by {
            assert forall|k: Seq<u8>| !(#[trigger] entries_map(s).contains_key(k)) by {
                lemma_absent(s, k);
            }
        }
    } else {
        let t = s.drop_last();
        assert(distinct_keys(t));
        lemma_len(t);
        assert(t.push(s.last()) =~= s);
        lemma_push(t, s.last());
        lemma_absent(t, s.last().0@);
    }
}

} // verus!
