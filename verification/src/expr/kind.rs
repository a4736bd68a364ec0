//! The kinds that a field can be declared to hold.

use vstd::prelude::*;
use crate::expr::part::{Idiom, parts_view};

verus! {

/// A literal kind: the field holds this very value, or a value of this
/// shape.
#[derive(Debug, PartialEq, Eq)]
pub enum Literal {
    String(String),
    Number(i64),
    Bool(bool),
    /// An array with one element of each of these kinds.
    Array(Vec<Kind>),
}

/// The kind of the values that a field holds.
#[derive(Debug, PartialEq, Eq)]
pub enum Kind {
    Any,
    Null,
    Bool,
    Bytes,
    Datetime,
    Decimal,
    Duration,
    Float,
    Int,
    Number,
    Object,
    String,
    Uuid,
    /// A record of one of these tables, or of any table where there is none.
    Record(Vec<String>),
    /// A value of the kind, or nothing.
    Option(Box<Kind>),
    /// A value of one of these kinds.
    Either(Vec<Kind>),
    /// A set of values of the kind, with at most this many elements.
    Sets(Box<Kind>, Option<u64>),
    /// An array of values of the kind, with at most this many elements.
    Array(Box<Kind>, Option<u64>),
    Literal(Literal),
    /// The records that refer to this one: those of a table, through a field.
    References(Option<String>, Option<Idiom>),
}

impl Kind {
    /// Whether the kind is a record.
    pub fn is_record(&self) -> (r: bool)
        ensures
            r == (self is Record),
    {
        match self {
            Kind::Record(_) => true,
            _ => false,
        }
    }

    /// Whether the kind is a reference.
    pub fn is_references(&self) -> (r: bool)
        ensures
            r == (self is References),
    {
        match self {
            Kind::References(_, _) => true,
            _ => false,
        }
    }

    /// The kind without the option around it, where there is one.
    pub open spec fn optional_inner(&self) -> &Kind {
        match self {
            Kind::Option(k) => &**k,
            _ => self,
        }
    }

    /// The kind without the option around it, where there is one.
    pub fn get_optional_inner_kind(&self) -> (r: &Kind)
        ensures
            r == self.optional_inner(),
    {
        match self {
            Kind::Option(k) => &**k,
            _ => self,
        }
    }
}

/// Whether two optional paths have the same steps.
pub open spec fn same_path(a: Option<Idiom>, b: Option<Idiom>) -> bool {
    match (a, b) {
        (Some(x), Some(y)) => parts_view(x.0@) == parts_view(y.0@),
        (None, None) => true,
        _ => false,
    }
}

/// Whether two kinds are the same, compared structurally.
pub open spec fn same_kind(a: Kind, b: Kind) -> bool
    decreases a, 0nat,
{
    match (a, b) {
        (Kind::Any, Kind::Any) => true,
        (Kind::Null, Kind::Null) => true,
        (Kind::Bool, Kind::Bool) => true,
        (Kind::Bytes, Kind::Bytes) => true,
        (Kind::Datetime, Kind::Datetime) => true,
        (Kind::Decimal, Kind::Decimal) => true,
        (Kind::Duration, Kind::Duration) => true,
        (Kind::Float, Kind::Float) => true,
        (Kind::Int, Kind::Int) => true,
        (Kind::Number, Kind::Number) => true,
        (Kind::Object, Kind::Object) => true,
        (Kind::String, Kind::String) => true,
        (Kind::Uuid, Kind::Uuid) => true,
        (Kind::Record(x), Kind::Record(y)) => names_view(x@) == names_view(y@),
        (Kind::Option(x), Kind::Option(y)) => same_kind(*x, *y),
        (Kind::Either(x), Kind::Either(y)) => same_kinds(x@, y@),
        (Kind::Sets(x, n), Kind::Sets(y, m)) => same_kind(*x, *y) && n == m,
        (Kind::Array(x, n), Kind::Array(y, m)) => same_kind(*x, *y) && n == m,
        (Kind::Literal(Literal::String(x)), Kind::Literal(Literal::String(y))) => x@ == y@,
        (Kind::Literal(Literal::Number(x)), Kind::Literal(Literal::Number(y))) => x == y,
        (Kind::Literal(Literal::Bool(x)), Kind::Literal(Literal::Bool(y))) => x == y,
        (Kind::Literal(Literal::Array(x)), Kind::Literal(Literal::Array(y))) => same_kinds(x@, y@),
        (Kind::References(t, f), Kind::References(u, g)) => name_view(t) == name_view(u)
            && same_path(f, g),
        _ => false,
    }
}

/// Whether two lists of kinds are the same, kind by kind.
pub open spec fn same_kinds(a: Seq<Kind>, b: Seq<Kind>) -> bool
    decreases a, 1nat,
{
    a.len() == b.len() && forall|i: int| 0 <= i < a.len() ==> same_kind(#[trigger] a[i], b[i])
}

/// Whether two optional kinds are the same.
pub open spec fn same_optional_kind(a: Option<Kind>, b: Option<Kind>) -> bool {
    match (a, b) {
        (Some(x), Some(y)) => same_kind(x, y),
        (None, None) => true,
        _ => false,
    }
}

/// The characters of each name of a list.
pub open spec fn names_view(names: Seq<String>) -> Seq<Seq<char>> {
    Seq::new(names.len(), |i: int| names[i]@)
}

/// The characters of an optional name.
pub open spec fn name_view(name: Option<String>) -> Option<Seq<char>> {
    match name {
        Some(n) => Some(n@),
        None => None,
    }
}

/// Whether two lists of names are the same.
fn same_names(a: &Vec<String>, b: &Vec<String>) -> (r: bool)
    ensures
        r == (names_view(a@) == names_view(b@)),
{
    if a.len() != b.len() {
        assert(names_view(a@).len() != names_view(b@).len());
        return false;
    }
    let mut i: usize = 0;
    while i < a.len()
        invariant
            i <= a.len(),
            a.len() == b.len(),
            forall|j: int| 0 <= j < i ==> a[j]@ == b[j]@,
        decreases a.len() - i,
    {
        if !(a[i] == b[i]) {
            assert(names_view(a@)[i as int] != names_view(b@)[i as int]);
            return false;
        }
        i += 1;
    }
    assert(names_view(a@) =~= names_view(b@));
    true
}

/// A copy of a list of names.
fn copy_names(a: &Vec<String>) -> (r: Vec<String>)
    ensures
        names_view(r@) == names_view(a@),
{
    let mut out: Vec<String> = Vec::new();
    let mut i: usize = 0;
    while i < a.len()
        invariant
            i <= a.len(),
            out.len() == i,
            forall|j: int| 0 <= j < i ==> out[j]@ == a[j]@,
        decreases a.len() - i,
    {
        out.push(a[i].clone());
        i += 1;
    }
    assert(names_view(out@) =~= names_view(a@));
    out
}

/// Whether two optional names are the same.
fn same_name(a: &Option<String>, b: &Option<String>) -> (r: bool)
    ensures
        r == (name_view(*a) == name_view(*b)),
{
    match (a, b) {
        (Some(x), Some(y)) => *x == *y,
        (None, None) => true,
        _ => false,
    }
}

/// Whether two paths have the same steps.
fn same_steps(a: &Idiom, b: &Idiom) -> (r: bool)
    ensures
        r == (parts_view(a.0@) == parts_view(b.0@)),
{
    if a.0.len() != b.0.len() {
        assert(parts_view(a.0@).len() != parts_view(b.0@).len());
        return false;
    }
    let mut i: usize = 0;
    while i < a.0.len()
        invariant
            i <= a.0.len(),
            a.0.len() == b.0.len(),
            forall|j: int| 0 <= j < i ==> a.0[j]@ == b.0[j]@,
        decreases a.0.len() - i,
    {
        if !a.0[i].equals(&b.0[i]) {
            assert(parts_view(a.0@)[i as int] != parts_view(b.0@)[i as int]);
            return false;
        }
        i += 1;
    }
    assert(parts_view(a.0@) =~= parts_view(b.0@));
    true
}

impl Kind {
    /// Whether two kinds are the same, compared structurally.
    pub fn equals(&self, other: &Kind) -> (r: bool)
        ensures
            r == same_kind(*self, *other),
        decreases self,
    {
        match (self, other) {
            (Kind::Any, Kind::Any) => true,
            (Kind::Null, Kind::Null) => true,
            (Kind::Bool, Kind::Bool) => true,
            (Kind::Bytes, Kind::Bytes) => true,
            (Kind::Datetime, Kind::Datetime) => true,
            (Kind::Decimal, Kind::Decimal) => true,
            (Kind::Duration, Kind::Duration) => true,
            (Kind::Float, Kind::Float) => true,
            (Kind::Int, Kind::Int) => true,
            (Kind::Number, Kind::Number) => true,
            (Kind::Object, Kind::Object) => true,
            (Kind::String, Kind::String) => true,
            (Kind::Uuid, Kind::Uuid) => true,
            (Kind::Record(x), Kind::Record(y)) => same_names(x, y),
            (Kind::Option(x), Kind::Option(y)) => x.equals(y),
            (Kind::Either(x), Kind::Either(y)) => kinds_equal(x, y),
            (Kind::Sets(x, n), Kind::Sets(y, m)) => x.equals(y) && *n == *m,
            (Kind::Array(x, n), Kind::Array(y, m)) => x.equals(y) && *n == *m,
            (Kind::Literal(Literal::String(x)), Kind::Literal(Literal::String(y))) => *x == *y,
            (Kind::Literal(Literal::Number(x)), Kind::Literal(Literal::Number(y))) => *x == *y,
            (Kind::Literal(Literal::Bool(x)), Kind::Literal(Literal::Bool(y))) => *x == *y,
            (Kind::Literal(Literal::Array(x)), Kind::Literal(Literal::Array(y))) => kinds_equal(
                x,
                y,
            ),
            (Kind::References(t, f), Kind::References(u, g)) => same_name(t, u) && match (f, g) {
                (Some(x), Some(y)) => same_steps(x, y),
                (None, None) => true,
                _ => false,
            },
            _ => false,
        }
    }

    /// A deep copy of this kind.
    pub fn duplicate(&self) -> (r: Kind)
        ensures
            same_kind(*self, r),
        decreases self,
    {
        match self {
            Kind::Any => Kind::Any,
            Kind::Null => Kind::Null,
            Kind::Bool => Kind::Bool,
            Kind::Bytes => Kind::Bytes,
            Kind::Datetime => Kind::Datetime,
            Kind::Decimal => Kind::Decimal,
            Kind::Duration => Kind::Duration,
            Kind::Float => Kind::Float,
            Kind::Int => Kind::Int,
            Kind::Number => Kind::Number,
            Kind::Object => Kind::Object,
            Kind::String => Kind::String,
            Kind::Uuid => Kind::Uuid,
            Kind::Record(x) => Kind::Record(copy_names(x)),
            Kind::Option(x) => Kind::Option(Box::new(x.duplicate())),
            Kind::Either(x) => Kind::Either(duplicate_kinds(x)),
            Kind::Sets(x, n) => Kind::Sets(Box::new(x.duplicate()), *n),
            Kind::Array(x, n) => Kind::Array(Box::new(x.duplicate()), *n),
            Kind::Literal(Literal::String(x)) => Kind::Literal(Literal::String(x.clone())),
            Kind::Literal(Literal::Number(x)) => Kind::Literal(Literal::Number(*x)),
            Kind::Literal(Literal::Bool(x)) => Kind::Literal(Literal::Bool(*x)),
            Kind::Literal(Literal::Array(x)) => Kind::Literal(Literal::Array(duplicate_kinds(x))),
            Kind::References(t, f) => Kind::References(
                match t {
                    Some(t) => Some(t.clone()),
                    None => None,
                },
                match f {
                    Some(f) => {
                        let copy = f.duplicate();
                        assert(parts_view(copy.0@) =~= parts_view(f.0@));
                        Some(copy)
                    },
                    None => None,
                },
            ),
        }
    }
}

/// Whether two lists of kinds are the same, kind by kind.
pub fn kinds_equal(a: &Vec<Kind>, b: &Vec<Kind>) -> (r: bool)
    ensures
        r == same_kinds(a@, b@),
    decreases a,
{
    if a.len() != b.len() {
        return false;
    }
    let mut i: usize = 0;
    while i < a.len()
        invariant
            i <= a.len(),
            a.len() == b.len(),
            forall|j: int| 0 <= j < i ==> same_kind(#[trigger] a[j], b[j]),
        decreases a.len() - i,
    {
        if !a[i].equals(&b[i]) {
            return false;
        }
        i += 1;
    }
    true
}

/// A deep copy of a list of kinds.
pub fn duplicate_kinds(a: &Vec<Kind>) -> (r: Vec<Kind>)
    ensures
        same_kinds(a@, r@),
    decreases a,
{
    let mut out: Vec<Kind> = Vec::new();
    let mut i: usize = 0;
    while i < a.len()
        invariant
            i <= a.len(),
            out.len() == i,
            forall|j: int| 0 <= j < i ==> same_kind(#[trigger] a[j], out[j]),
        decreases a.len() - i,
    {
        out.push(a[i].duplicate());
        i += 1;
    }
    out
}

impl Clone for Kind {
    fn clone(&self) -> (r: Kind)
        ensures
            same_kind(*self, r),
    {
        self.duplicate()
    }
}

} // verus!
