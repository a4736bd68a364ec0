//! The expansion of a projected tuple into index entries.
//!
//! A column whose value is an array, and whose path does not end in a flatten
//! step, is walked element by element; every other column holds one value.
//! The walk is row-wise: entry `i` holds element `i` of every walked column,
//! and a column that has fewer elements stays at its last one. A column whose
//! array is empty holds `Null` in every entry. There is always at least one
//! entry.

use vstd::prelude::*;
use crate::expr::statements::define::DefineIndexStatement;
use crate::val::{Array, Value, ValueView, lemma_array_view, values_view};

verus! {

/// Mathematical model of a column of an index entry.
pub enum Cursor {
    /// The column is walked: entry `i` holds element `i`.
    Multi(Seq<ValueView>),
    /// The column holds this value in every entry.
    Single(ValueView),
}

impl Cursor {
    /// The number of entries that the column asks for.
    pub open spec fn rows(self) -> nat {
        match self {
            Cursor::Multi(a) => a.len(),
            Cursor::Single(_) => 1,
        }
    }

    /// What the column holds in entry `i`.
    pub open spec fn cell(self, i: int) -> ValueView {
        match self {
            Cursor::Multi(a) => if a.len() == 0 {
                ValueView::Null
            } else if i < a.len() {
                a[i]
            } else {
                a[a.len() - 1]
            },
            Cursor::Single(v) => v,
        }
    }
}

/// The column that a projected value makes: walked where the value is an
/// array and `flattened` is false, single otherwise.
pub open spec fn cursor_of(v: ValueView, flattened: bool) -> Cursor {
    if !flattened && v is Array {
        Cursor::Multi(v->Array_0)
    } else {
        Cursor::Single(v)
    }
}

/// The number of entries that the first `n` columns ask for: the greatest of
/// their row counts, and at least one.
pub open spec fn rows_upto(cursors: Seq<Cursor>, n: int) -> nat
    decreases n,
{
    if n <= 0 {
        1
    } else {
        let before = rows_upto(cursors, n - 1);
        let rows = cursors[n - 1].rows();
        if rows > before {
            rows
        } else {
            before
        }
    }
}

/// The number of entries that the columns expand into.
pub open spec fn entry_count(cursors: Seq<Cursor>) -> nat {
    rows_upto(cursors, cursors.len() as int)
}

/// Entry `i`: for each column, what it holds in row `i`.
pub open spec fn entry(cursors: Seq<Cursor>, i: int) -> Seq<ValueView> {
    Seq::new(cursors.len(), |c: int| cursors[c].cell(i))
}

/// The entries that the columns expand into, in order.
pub open spec fn entries(cursors: Seq<Cursor>) -> Seq<Seq<ValueView>> {
    Seq::new(entry_count(cursors), |i: int| entry(cursors, i))
}

/// A cursor over the elements of an array.
pub struct MultiValuesIterator {
    vals: Vec<Value>,
    done: bool,
    current: usize,
    end: usize,
}

impl MultiValuesIterator {
    /// The elements that the cursor walks.
    pub closed spec fn values(&self) -> Seq<ValueView> {
        values_view(self.vals@)
    }

    /// The position of the cursor.
    pub closed spec fn position(&self) -> nat {
        self.current as nat
    }

    /// Whether the cursor has been asked to go beyond its last element.
    pub closed spec fn is_done(&self) -> bool {
        self.done
    }

    /// The position of the last element, or zero where there is none.
    pub open spec fn last_position(&self) -> nat {
        if self.values().len() == 0 {
            0
        } else {
            (self.values().len() - 1) as nat
        }
    }

    /// The invariant of the cursor: it stands on an element, or the array is
    /// empty and the cursor is done.
    pub closed spec fn wf(&self) -> bool {
        &&& self.end == self.last_position()
        &&& self.current <= self.end
        &&& self.vals@.len() == 0 ==> self.done
    }

    /// A cursor on the first element of `vals`.
    pub fn new(vals: Vec<Value>) -> (r: Self)
        ensures
            r.wf(),
            r.values() == values_view(vals@),
            r.position() == 0,
            r.is_done() == (vals@.len() == 0),
    {
        let len = vals.len();
        if len == 0 {
            Self { vals, done: true, current: 0, end: 0 }
        } else {
            Self { vals, done: false, current: 0, end: len - 1 }
        }
    }

    /// Moves to the next element and tells whether there was one.
    pub fn next(&mut self) -> (r: bool)
        requires
            old(self).wf(),
        ensures
            final(self).wf(),
            final(self).values() == old(self).values(),
            r == (!old(self).is_done() && old(self).position() < old(self).last_position()),
            final(self).position() == old(self).position() + (if r {
                1nat
            } else {
                0nat
            }),
            final(self).is_done() == !r,
    {
        if self.done {
            return false;
        }
        if self.current == self.end {
            self.done = true;
            return false;
        }
        self.current += 1;
        true
    }

    /// The element under the cursor, or `Null` where the array is empty.
    pub fn current(&self) -> (r: Value)
        requires
            self.wf(),
        ensures
            r@ == Cursor::Multi(self.values()).cell(self.position() as int),
    {
        if self.current < self.vals.len() {
            self.vals[self.current].duplicate()
        } else {
            Value::Null
        }
    }
}

/// A cursor that holds one value.
pub struct SingleValueIterator(pub Value);

impl SingleValueIterator {
    /// There is no next value.
    pub fn next(&mut self) -> (r: bool)
        ensures
            !r,
            final(self).0@ == old(self).0@,
    {
        false
    }

    /// The value.
    pub fn current(&self) -> (r: Value)
        ensures
            r@ == self.0@,
    {
        self.0.duplicate()
    }
}

/// A cursor over one column.
pub enum ValuesIterator {
    Multi(MultiValuesIterator),
    Single(SingleValueIterator),
}

impl ValuesIterator {
    /// The column that the cursor walks.
    pub open spec fn cursor(&self) -> Cursor {
        match self {
            ValuesIterator::Multi(m) => Cursor::Multi(m.values()),
            ValuesIterator::Single(s) => Cursor::Single(s.0@),
        }
    }

    /// The invariant of the cursor.
    pub open spec fn wf(&self) -> bool {
        match self {
            ValuesIterator::Multi(m) => m.wf(),
            ValuesIterator::Single(_) => true,
        }
    }

    /// The state of the cursor after `passes` passes.
    pub open spec fn at(&self, passes: nat) -> bool {
        match self {
            ValuesIterator::Multi(m) => {
                &&& m.wf()
                &&& m.position() == (if passes < m.last_position() {
                    passes
                } else {
                    m.last_position()
                })
                &&& m.is_done() == (m.values().len() == 0 || passes > m.last_position())
            },
            ValuesIterator::Single(_) => true,
        }
    }

    /// Moves to the next element and tells whether there was one.
    pub fn next(&mut self) -> (r: bool)
        requires
            old(self).wf(),
        ensures
            final(self).wf(),
            final(self).cursor() == old(self).cursor(),
            forall|p: nat|
                #[trigger] old(self).at(p) ==> final(self).at(p + 1)
                    && r == (p + 1 < old(self).cursor().rows()),
    {
        match self {
            ValuesIterator::Multi(m) => m.next(),
            ValuesIterator::Single(s) => s.next(),
        }
    }

    /// The value under the cursor.
    pub fn current(&self) -> (r: Value)
        requires
            self.wf(),
        ensures
            forall|p: nat| #[trigger] self.at(p) ==> r@ == self.cursor().cell(p as int),
    {
        match self {
            ValuesIterator::Multi(m) => m.current(),
            ValuesIterator::Single(s) => s.current(),
        }
    }
}

/// The columns that a projected tuple makes under an index definition: one
/// for each value that has a path.
pub open spec fn columns(vals: Seq<ValueView>, ix: &DefineIndexStatement) -> Seq<Cursor> {
    Seq::new(
        if vals.len() <= ix.cols.0@.len() {
            vals.len()
        } else {
            ix.cols.0@.len()
        },
        |c: int| cursor_of(vals[c], ix.cols.0@[c].is_flattened()),
    )
}

/// A projected tuple, each value with the mark of its path: whether the path
/// ends in a flatten step.
pub struct Indexable(Vec<(Value, bool)>);

impl Indexable {
    /// The columns of the tuple.
    pub closed spec fn cursors(&self) -> Seq<Cursor> {
        Seq::new(self.0@.len(), |c: int| cursor_of(self.0@[c].0@, self.0@[c].1))
    }

    /// Pairs the values of a projected tuple with the paths of the index.
    pub fn new(vals: Vec<Value>, ix: &DefineIndexStatement) -> (r: Self)
        ensures
            r.cursors() == columns(values_view(vals@), ix),
    {
        let mut source: Vec<(Value, bool)> = Vec::new();
        let mut i: usize = 0;
        while i < vals.len() && i < ix.cols.0.len()
            invariant
                i <= vals.len(),
                i <= ix.cols.0.len(),
                source.len() == i,
                forall|j: int|
                    0 <= j < i ==> (#[trigger] source[j]).0@ == vals[j]@ && source[j].1
                        == ix.cols.0@[j].is_flattened(),
            decreases vals.len() - i,
        {
            let f = ix.cols.0[i].ends_with_flatten();
            source.push((vals[i].duplicate(), f));
            i += 1;
        }
        let r = Indexable(source);
        assert(r.cursors() =~= columns(values_view(vals@), ix));
        r
    }

    /// The walk over the entries of the tuple.
    pub fn into_iter(self) -> (r: Combinator)
        ensures
            r.wf(),
            r.cursors() == self.cursors(),
            r.produced() == 0,
    {
        Combinator::new(self.0)
    }
}

/// The walk over the entries that a projected tuple expands into.
pub struct Combinator {
    iterators: Vec<ValuesIterator>,
    has_next: bool,
    produced: Ghost<nat>,
}

/// Whether the first `n` columns leave entries after the first `done`.
proof fn lemma_rows_upto_bound(cursors: Seq<Cursor>, n: int)
    requires
        0 <= n <= cursors.len(),
    ensures
        rows_upto(cursors, n) >= 1,
        forall|c: int| 0 <= c < n ==> (#[trigger] cursors[c]).rows() <= rows_upto(cursors, n),
    decreases n,
{
    if n > 0 {
        lemma_rows_upto_bound(cursors, n - 1);
    }
}

impl Combinator {
    /// The columns that are walked.
    pub closed spec fn cursors(&self) -> Seq<Cursor> {
        Seq::new(self.iterators@.len(), |c: int| self.iterators@[c].cursor())
    }

    /// The number of entries that were handed out.
    pub closed spec fn produced(&self) -> nat {
        self.produced@
    }

    /// The invariant of the walk: every cursor stands where the number of
    /// entries handed out puts it.
    pub closed spec fn wf(&self) -> bool {
        &&& self.produced@ <= entry_count(self.cursors())
        &&& self.has_next == (self.produced@ < entry_count(self.cursors()))
        &&& forall|c: int|
            0 <= c < self.iterators@.len() ==> (#[trigger] self.iterators@[c]).wf()
                && self.iterators@[c].at(self.produced@)
    }

    /// The entries that are left.
    pub open spec fn remaining(&self) -> Seq<Seq<ValueView>> {
        entries(self.cursors()).subrange(
            self.produced() as int,
            entry_count(self.cursors()) as int,
        )
    }

    /// A walk that stands before the first entry.
    pub fn new(source: Vec<(Value, bool)>) -> (r: Self)
        ensures
            r.wf(),
            r.cursors() == Seq::new(
                source@.len(),
                |c: int| cursor_of(source@[c].0@, source@[c].1),
            ),
            r.produced() == 0,
    {
        let mut iterators: Vec<ValuesIterator> = Vec::new();
        let mut i: usize = 0;
        while i < source.len()
            invariant
                i <= source.len(),
                iterators.len() == i,
                forall|c: int|
                    0 <= c < i ==> (#[trigger] iterators[c]).wf() && iterators[c].at(0)
                        && iterators[c].cursor() == cursor_of(source[c].0@, source[c].1),
            decreases source.len() - i,
        {
            let f = source[i].1;
            let it = match &source[i].0 {
                Value::Array(a) if !f => {
                    proof {
                        lemma_array_view(*a);
                    }
                    let copy = crate::val::duplicate_values(a);
                    ValuesIterator::Multi(MultiValuesIterator::new(copy))
                },
                v => ValuesIterator::Single(SingleValueIterator(v.duplicate())),
            };
            iterators.push(it);
            i += 1;
        }
        let r = Self { iterators, has_next: true, produced: Ghost(0) };
        proof {
            lemma_rows_upto_bound(r.cursors(), r.cursors().len() as int);
            assert(r.cursors() =~= Seq::new(
                source@.len(),
                |c: int| cursor_of(source@[c].0@, source@[c].1),
            ));
        }
        r
    }

    /// The next entry, if there is one.
    pub fn next(&mut self) -> (r: Option<Array>)
        requires
            old(self).wf(),
        ensures
            final(self).wf(),
            final(self).cursors() == old(self).cursors(),
            match r {
                Some(a) => old(self).produced() < entry_count(old(self).cursors()) && a@ == entry(
                    old(self).cursors(),
                    old(self).produced() as int,
                ) && final(self).produced() == old(self).produced() + 1,
                None => old(self).produced() == entry_count(old(self).cursors())
                    && final(self).produced() == old(self).produced(),
            },
    {
        if !self.has_next {
            return None;
        }
        let ghost p = self.produced@;
        let ghost cursors = self.cursors();
        let n = self.iterators.len();
        let mut o: Vec<Value> = Vec::new();
        let mut more = false;
        let mut i: usize = 0;
        while i < n
            invariant
                i <= n,
                n == self.iterators.len(),
                self.cursors() == cursors,
                o.len() == i,
                more == (p + 1 < rows_upto(cursors, i as int)),
                forall|c: int| 0 <= c < i ==> o[c]@ == (#[trigger] cursors[c]).cell(p as int),
                forall|c: int|
                    0 <= c < n ==> (#[trigger] self.iterators@[c]).wf() && self.iterators@[c].at(
                        if c < i {
                            p + 1
                        } else {
                            p
                        },
                    ),
            decreases n - i,
        {
            assert(self.iterators@[i as int].at(p));
            assert(cursors[i as int] == self.iterators@[i as int].cursor());
            o.push(self.iterators[i].current());
            let ghost before = self.iterators@;
            let advanced = self.iterators[i].next();
            assert(self.iterators@ =~= before.update(i as int, self.iterators@[i as int]));
            assert(self.cursors() =~= cursors);
            if advanced {
                more = true;
            }
            i += 1;
        }
        self.has_next = more;
        self.produced = Ghost((p + 1) as nat);
        let r = Array(o);
        assert(r@ =~= entry(cursors, p as int));
        Some(r)
    }
}

/// The columns of two array values, neither flattened.
pub open spec fn two_arrays(a: Seq<ValueView>, b: Seq<ValueView>) -> Seq<Cursor> {
    Seq::empty().push(cursor_of(ValueView::Array(a), false)).push(
        cursor_of(ValueView::Array(b), false),
    )
}

/// Two array columns of the same length `n`, neither flattened, expand into
/// exactly `n` entries, and entry `i` pairs element `i` of the one with
/// element `i` of the other.
pub proof fn law_row_wise(a: Seq<ValueView>, b: Seq<ValueView>)
    requires
        a.len() == b.len(),
        a.len() >= 1,
    ensures
        entries(two_arrays(a, b)).len() == a.len(),
        forall|i: int|
            0 <= i < a.len() ==> #[trigger] entries(two_arrays(a, b))[i] == seq![a[i], b[i]],
{
    let cursors = two_arrays(a, b);
    reveal_with_fuel(rows_upto, 3);
    assert(entry_count(cursors) == a.len());
    assert forall|i: int| 0 <= i < a.len() implies #[trigger] entries(cursors)[i] == seq![
        a[i],
        b[i],
    ] by {
        assert(entries(cursors)[i] =~= seq![a[i], b[i]]);
    }
}

/// The number of entries is the length of the longest walked column, and one
/// where no column is walked or every walked column is empty.
pub proof fn law_entry_count(cursors: Seq<Cursor>)
    ensures
        entry_count(cursors) >= 1,
        forall|c: int| 0 <= c < cursors.len() ==> (#[trigger] cursors[c]).rows() <= entry_count(cursors),
        entry_count(cursors) == 1 || exists|c: int|
            0 <= c < cursors.len() && (#[trigger] cursors[c]).rows() == entry_count(cursors),
{
    lemma_rows_upto_bound(cursors, cursors.len() as int);
    lemma_rows_upto_reached(cursors, cursors.len() as int);
}

proof fn lemma_rows_upto_reached(cursors: Seq<Cursor>, n: int)
    requires
        0 <= n <= cursors.len(),
    ensures
        rows_upto(cursors, n) == 1 || exists|c: int|
            0 <= c < n && (#[trigger] cursors[c]).rows() == rows_upto(cursors, n),
    decreases n,
{
    if n > 0 {
        lemma_rows_upto_reached(cursors, n - 1);
        if cursors[n - 1].rows() > rows_upto(cursors, n - 1) {
            assert(cursors[n - 1].rows() == rows_upto(cursors, n));
        } else if rows_upto(cursors, n - 1) != 1 {
            let c = choose|c: int|
                0 <= c < n - 1 && (#[trigger] cursors[c]).rows() == rows_upto(cursors, n - 1);
            assert(cursors[c].rows() == rows_upto(cursors, n));
        }
    }
}

} // verus!
