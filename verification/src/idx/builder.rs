//! The builder that fills an index in the background.
//!
//! While an index is being built, the builder claims it: the changes that
//! documents bring to the index are queued, and the builder applies them when
//! it has gone through the table.

use vstd::prelude::*;
use crate::doc::index::tuple_view;
use crate::expr::statements::define::DefineIndexStatement;
use crate::val::{Thing, ThingView, Value, ValueView};

verus! {

/// What the builder did with a change.
#[derive(Debug, PartialEq, Eq)]
pub enum ConsumeResult {
    /// The index is being built: the change waits in the builder's queue.
    Enqueued,
    /// The index is not being built: the change is handed back.
    Ignored(Option<Vec<Value>>, Option<Vec<Value>>),
}

/// A change that waits for the end of a build: the tuples that the record
/// `rid` projected before and after a write, for the index `ix` of table `tb`.
#[derive(Debug, PartialEq, Eq)]
pub struct Queued {
    pub tb: String,
    pub ix: String,
    pub o: Option<Vec<Value>>,
    pub n: Option<Vec<Value>>,
    pub rid: Thing,
}

/// Mathematical model of a [`Queued`] change.
pub struct QueuedView {
    pub tb: Seq<char>,
    pub ix: Seq<char>,
    pub o: Option<Seq<ValueView>>,
    pub n: Option<Seq<ValueView>>,
    pub rid: ThingView,
}

impl View for Queued {
    type V = QueuedView;

    open spec fn view(&self) -> QueuedView {
        QueuedView {
            tb: self.tb@,
            ix: self.ix@,
            o: tuple_view(self.o),
            n: tuple_view(self.n),
            rid: self.rid@,
        }
    }
}

/// The models of a list of changes.
pub open spec fn queued_view(q: Seq<Queued>) -> Seq<QueuedView> {
    Seq::new(q.len(), |i: int| q[i]@)
}

/// The changes of the list that are for the index `ix` of table `tb`, if
/// `wanted`, and the others, if not; in the order of the list.
pub open spec fn changes_for(q: Seq<QueuedView>, tb: Seq<char>, ix: Seq<char>, wanted: bool) -> Seq<
    QueuedView,
> {
    q.filter(|c: QueuedView| (c.tb == tb && c.ix == ix) == wanted)
}

/// The builder of the indexes of a database.
pub struct IndexBuilder {
    building: Vec<(String, String)>,
    queue: Vec<Queued>,
}

impl IndexBuilder {
    /// Whether the index `ix` of table `tb` is being built.
    pub closed spec fn is_building(&self, tb: Seq<char>, ix: Seq<char>) -> bool {
        exists|i: int|
            0 <= i < self.building@.len() && (#[trigger] self.building@[i]).0@ == tb
                && self.building@[i].1@ == ix
    }

    /// Whether the builder claims an index.
    pub open spec fn claims(&self, ix: &DefineIndexStatement) -> bool {
        self.is_building(ix.what@, ix.name@)
    }

    /// The changes that wait, oldest first.
    pub closed spec fn queue(&self) -> Seq<QueuedView> {
        Seq::new(self.queue@.len(), |i: int| self.queue@[i]@)
    }

    /// A builder that builds nothing.
    pub fn new() -> (r: Self)
        ensures
            r.queue() == Seq::<QueuedView>::empty(),
            forall|tb: Seq<char>, ix: Seq<char>| !r.is_building(tb, ix),
    {
        let r = IndexBuilder { building: Vec::new(), queue: Vec::new() };
        assert(r.queue() =~= Seq::<QueuedView>::empty());
        r
    }

    /// Starts the build of an index: from now on the builder claims it.
    pub fn build(&mut self, ix: &DefineIndexStatement)
        ensures
            final(self).queue() == old(self).queue(),
            forall|tb: Seq<char>, name: Seq<char>|
                final(self).is_building(tb, name) == (old(self).is_building(tb, name) || (tb
                    == ix.what@ && name == ix.name@)),
    {
        let ghost before = self.building@;
        self.building.push((ix.what.clone(), ix.name.clone()));
        proof {
            assert forall|tb: Seq<char>, name: Seq<char>|
                self.is_building(tb, name) == (old(self).is_building(tb, name) || (tb == ix.what@
                    && name == ix.name@)) by {
                if old(self).is_building(tb, name) {
                    let i = choose|i: int|
                        0 <= i < before.len() && (#[trigger] before[i]).0@ == tb && before[i].1@
                            == name;
                    assert(self.building@[i] == before[i]);
                }
                if tb == ix.what@ && name == ix.name@ {
                    assert(self.building@[before.len() as int].0@ == tb);
                }
                if self.is_building(tb, name) {
                    let i = choose|i: int|
                        0 <= i < self.building@.len() && (#[trigger] self.building@[i]).0@ == tb
                            && self.building@[i].1@ == name;
                    if i < before.len() {
                        assert(before[i] == self.building@[i]);
                    }
                }
            }
            assert(self.queue() =~= old(self).queue());
        }
    }

    /// Whether the index `ix` is being built.
    fn is_claimed(&self, ix: &DefineIndexStatement) -> (r: bool)
        ensures
            r == self.claims(ix),
    {
        let mut i: usize = 0;
        while i < self.building.len()
            invariant
                i <= self.building.len(),
                forall|j: int|
                    0 <= j < i ==> !((#[trigger] self.building@[j]).0@ == ix.what@
                        && self.building@[j].1@ == ix.name@),
            decreases self.building.len() - i,
        {
            if self.building[i].0 == ix.what && self.building[i].1 == ix.name {
                return true;
            }
            i += 1;
        }
        false
    }

    /// The number of changes that wait.
    pub fn queued(&self) -> (r: usize)
        ensures
            r == self.queue().len(),
    {
        self.queue.len()
    }

    /// Takes a change to the index `ix`: the change is queued where the index
    /// is being built, and handed back as it came otherwise.
    pub fn consume(
        &mut self,
        ix: &DefineIndexStatement,
        o: Option<Vec<Value>>,
        n: Option<Vec<Value>>,
        rid: &Thing,
    ) -> (r: ConsumeResult)
        ensures
            forall|tb: Seq<char>, name: Seq<char>|
                final(self).is_building(tb, name) == old(self).is_building(tb, name),
            match r {
                ConsumeResult::Enqueued => old(self).claims(ix) && final(self).queue() == old(self).queue().push(
                    QueuedView {
                        tb: ix.what@,
                        ix: ix.name@,
                        o: tuple_view(o),
                        n: tuple_view(n),
                        rid: rid@,
                    },
                ),
                ConsumeResult::Ignored(o2, n2) => !old(self).claims(ix) && final(self).queue()
                    == old(self).queue() && o2 == o && n2 == n,
            },
    {
        if self.is_claimed(ix) {
            self.queue.push(
                Queued { tb: ix.what.clone(), ix: ix.name.clone(), o, n, rid: rid.duplicate() },
            );
            assert(self.queue() =~= old(self).queue().push(
                QueuedView {
                    tb: ix.what@,
                    ix: ix.name@,
                    o: tuple_view(o),
                    n: tuple_view(n),
                    rid: rid@,
                },
            ));
            assert(self.building == old(self).building);
            ConsumeResult::Enqueued
        } else {
            ConsumeResult::Ignored(o, n)
        }
    }

    /// Hands out the changes that wait for the index `ix`, oldest first. The
    /// changes that wait for other indexes stay in their order.
    pub fn take_queued(&mut self, ix: &DefineIndexStatement) -> (r: Vec<Queued>)
        ensures
            forall|tb: Seq<char>, name: Seq<char>|
                final(self).is_building(tb, name) == old(self).is_building(tb, name),
            queued_view(r@) == changes_for(old(self).queue(), ix.what@, ix.name@, true),
            final(self).queue() == changes_for(old(self).queue(), ix.what@, ix.name@, false),
    {
        let ghost all = self.queue();
        let ghost n = self.queue@.len();
        let mut rest: Vec<Queued> = Vec::new();
        std::mem::swap(&mut rest, &mut self.queue);
        // Turn the queue round, so that the oldest change is taken first.
        let mut turned: Vec<Queued> = Vec::new();
        while rest.len() > 0
            invariant
                rest.len() + turned.len() == n,
                all.len() == n,
                forall|j: int| 0 <= j < rest.len() ==> (#[trigger] rest[j])@ == all[j],
                forall|j: int| 0 <= j < turned.len() ==> (#[trigger] turned[j])@ == all[n - 1 - j],
            decreases rest.len(),
        {
            if let Some(c) = rest.pop() {
                turned.push(c);
            }
        }
        let mut taken: Vec<Queued> = Vec::new();
        let mut kept: Vec<Queued> = Vec::new();
        proof {
            reveal_with_fuel(Seq::filter, 2);
        }
        assert(all.take(0) =~= Seq::<QueuedView>::empty());
        assert(queued_view(taken@) =~= Seq::<QueuedView>::empty());
        assert(queued_view(kept@) =~= Seq::<QueuedView>::empty());
        while turned.len() > 0
            invariant
                turned.len() <= n,
                all.len() == n,
                forall|j: int| 0 <= j < turned.len() ==> (#[trigger] turned[j])@ == all[n - 1 - j],
                queued_view(taken@) == changes_for(
                    all.take(n - turned.len()),
                    ix.what@,
                    ix.name@,
                    true,
                ),
                queued_view(kept@) == changes_for(
                    all.take(n - turned.len()),
                    ix.what@,
                    ix.name@,
                    false,
                ),
            decreases turned.len(),
        {
            let ghost done = n - turned.len();
            proof {
                reveal_with_fuel(Seq::filter, 2);
            }
            if let Some(c) = turned.pop() {
                assert(c@ == all[done]);
                assert(all.take(done + 1).drop_last() =~= all.take(done));
                assert(all.take(done + 1).last() == all[done]);
                let ghost t = queued_view(taken@);
                let ghost k = queued_view(kept@);
                if c.tb == ix.what && c.ix == ix.name {
                    taken.push(c);
                    assert(queued_view(taken@) =~= t.push(c@));
                } else {
                    kept.push(c);
                    assert(queued_view(kept@) =~= k.push(c@));
                }
            }
        }
        assert(all.take(n as int) =~= all);
        self.queue = kept;
        assert(self.queue() =~= queued_view(kept@));
        assert(self.building == old(self).building);
        taken
    }

    /// Ends the build of the index `ix`: the builder claims it no longer.
    /// The changes that wait stay where they are.
    pub fn end_build(&mut self, ix: &DefineIndexStatement)
        ensures
            final(self).queue() == old(self).queue(),
            forall|tb: Seq<char>, name: Seq<char>|
                final(self).is_building(tb, name) == (old(self).is_building(tb, name) && !(tb
                    == ix.what@ && name == ix.name@)),
    {
        let ghost before = self.building@;
        let mut kept: Vec<(String, String)> = Vec::new();
        // Where each claim that is kept came from, and where each claim went.
        let ghost mut from: Seq<int> = Seq::empty();
        let ghost mut to: Seq<int> = Seq::empty();
        let mut i: usize = 0;
        while i < self.building.len()
            invariant
                i <= self.building.len(),
                self.building@ == before,
                self.queue == old(self).queue,
                from.len() == kept.len(),
                to.len() == i,
                forall|j: int|
                    0 <= j < kept.len() ==> 0 <= #[trigger] from[j] < i && kept[j].0@
                        == before[from[j]].0@ && kept[j].1@ == before[from[j]].1@ && !(kept[j].0@
                        == ix.what@ && kept[j].1@ == ix.name@),
                forall|k: int|
                    0 <= k < i ==> (before[k].0@ == ix.what@ && before[k].1@ == ix.name@) || (0
                        <= #[trigger] to[k] < kept.len() && kept[to[k]].0@ == before[k].0@
                        && kept[to[k]].1@ == before[k].1@),
            decreases self.building.len() - i,
        {
            if !(self.building[i].0 == ix.what && self.building[i].1 == ix.name) {
                kept.push((self.building[i].0.clone(), self.building[i].1.clone()));
                proof {
                    to = to.push(kept.len() - 1);
                    from = from.push(i as int);
                }
            } else {
                proof {
                    to = to.push(0);
                }
            }
            i += 1;
        }
        self.building = kept;
        proof {
            assert forall|tb: Seq<char>, name: Seq<char>|
                self.is_building(tb, name) == (old(self).is_building(tb, name) && !(tb == ix.what@
                    && name == ix.name@)) by {
                if self.is_building(tb, name) {
                    let j = choose|j: int|
                        0 <= j < self.building@.len() && (#[trigger] self.building@[j]).0@ == tb
                            && self.building@[j].1@ == name;
                    let k = from[j];
                    assert(old(self).building@[k].0@ == tb && old(self).building@[k].1@ == name);
                }
                if old(self).is_building(tb, name) && !(tb == ix.what@ && name == ix.name@) {
                    let k = choose|k: int|
                        0 <= k < old(self).building@.len() && (#[trigger] old(
                            self,
                        ).building@[k]).0@ == tb && old(self).building@[k].1@ == name;
                    let j = to[k];
                    assert(self.building@[j].0@ == tb && self.building@[j].1@ == name);
                }
            }
            assert(self.queue() =~= old(self).queue());
        }
    }
}

} // verus!
