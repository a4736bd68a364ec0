//! Field paths and their evaluation against a document.

use vstd::prelude::*;
use crate::val::{Value, ValueView, fields_view, lemma_array_view, lemma_object_view};

verus! {

/// One step of a field path.
#[derive(Clone, Debug, PartialEq, Eq)]
pub enum Part {
    /// Every element of an array.
    All,
    /// Every element of an array, taken as one unit by an index.
    Flatten,
    /// The last element of an array.
    Last,
    /// The first element of an array.
    First,
    /// The field of an object with this name.
    Field(String),
    /// The element of an array at this position.
    Index(u64),
}

/// A field path.
#[derive(Clone, Debug, PartialEq, Eq)]
pub struct Idiom(pub Vec<Part>);

/// The columns of an index.
#[derive(Clone, Debug, PartialEq, Eq)]
pub struct Idioms(pub Vec<Idiom>);

/// The value of the first field called `name`, from position `from` on.
pub open spec fn lookup(fields: Seq<(Seq<char>, ValueView)>, name: Seq<char>, from: int) -> Option<
    ValueView,
>
    decreases fields.len() - from,
{
    if from < 0 || from >= fields.len() {
        None
    } else if fields[from].0 == name {
        Some(fields[from].1)
    } else {
        lookup(fields, name, from + 1)
    }
}

/// What a path selects from a value.
///
/// A path that is empty selects the value itself. On an object a field step
/// selects the field and `All` the object; on an array `All` and `Flatten`
/// select from every element, `First`, `Last` and `Index` from one element,
/// and a field step applies the whole path to every element. Every other
/// combination selects `Nothing`.
pub open spec fn pick(v: ValueView, path: Seq<Part>) -> ValueView
    decreases path.len(), v,
{
    if path.len() == 0 {
        v
    } else {
        let rest = path.subrange(1, path.len() as int);
        match v {
            ValueView::Object(fields) => match path[0] {
                Part::Field(f) => match lookup(fields, f@, 0) {
                    Some(x) => pick(x, rest),
                    None => ValueView::Nothing,
                },
                Part::All => pick(v, rest),
                _ => ValueView::Nothing,
            },
            ValueView::Array(items) => match path[0] {
                Part::All | Part::Flatten => ValueView::Array(
                    Seq::new(
                        items.len(),
                        |i: int|
                            if 0 <= i < items.len() {
                                pick(items[i], rest)
                            } else {
                                ValueView::Nothing
                            },
                    ),
                ),
                Part::First => if items.len() > 0 {
                    pick(items[0], rest)
                } else {
                    ValueView::Nothing
                },
                Part::Last => if items.len() > 0 {
                    pick(items[items.len() - 1], rest)
                } else {
                    ValueView::Nothing
                },
                Part::Index(n) => if n < items.len() {
                    pick(items[n as int], rest)
                } else {
                    ValueView::Nothing
                },
                Part::Field(_) => ValueView::Array(
                    Seq::new(
                        items.len(),
                        |i: int|
                            if 0 <= i < items.len() {
                                pick(items[i], path)
                            } else {
                                ValueView::Nothing
                            },
                    ),
                ),
            },
            _ => ValueView::Nothing,
        }
    }
}

/// The place of the first field called `name`, from position `from` on.
fn find_field(fields: &Vec<(String, Value)>, name: &String, from: usize) -> (r: Option<usize>)
    ensures
        match r {
            Some(i) => from <= i < fields.len() && lookup(fields_view(fields@), name@, from as int)
                == Some(fields[i as int].1@),
            None => lookup(fields_view(fields@), name@, from as int) is None,
        },
    decreases fields.len() - from,
{
    if from >= fields.len() {
        None
    } else if fields[from].0 == *name {
        Some(from)
    } else {
        find_field(fields, name, from + 1)
    }
}

impl Value {
    /// What the steps of `path` from position `from` on select from this
    /// value.
    pub fn pick(&self, path: &Vec<Part>, from: usize) -> (r: Value)
        requires
            from <= path.len(),
        ensures
            r@ == pick(self@, path@.subrange(from as int, path.len() as int)),
        decreases path.len() - from, self,
    {
        let ghost here = path@.subrange(from as int, path.len() as int);
        if from == path.len() {
            return self.duplicate();
        }
        let ghost rest = here.subrange(1, here.len() as int);
        assert(rest =~= path@.subrange(from + 1, path.len() as int));
        assert(here[0] == path[from as int]);
        match self {
            Value::Object(fields) => {
                proof {
                    lemma_object_view(*fields);
                }
                match &path[from] {
                    Part::Field(f) => match find_field(fields, f, 0) {
                        Some(i) => fields[i].1.pick(path, from + 1),
                        None => Value::Nothing,
                    },
                    Part::All => self.pick(path, from + 1),
                    _ => Value::Nothing,
                }
            },
            Value::Array(items) => {
                proof {
                    lemma_array_view(*items);
                }
                match &path[from] {
                    Part::All | Part::Flatten => {
                        let r = Value::Array(pick_each(items, path, from + 1));
                        proof {
                            lemma_array_view(r->Array_0);
                            assert(r@->Array_0 =~= pick(self@, here)->Array_0);
                        }
                        r
                    },
                    Part::First => if items.len() > 0 {
                        items[0].pick(path, from + 1)
                    } else {
                        Value::Nothing
                    },
                    Part::Last => if items.len() > 0 {
                        items[items.len() - 1].pick(path, from + 1)
                    } else {
                        Value::Nothing
                    },
                    Part::Index(n) => if *n < items.len() as u64 {
                        items[*n as usize].pick(path, from + 1)
                    } else {
                        Value::Nothing
                    },
                    Part::Field(_) => {
                        let r = Value::Array(pick_each(items, path, from));
                        proof {
                            lemma_array_view(r->Array_0);
                            assert(r@->Array_0 =~= pick(self@, here)->Array_0);
                        }
                        r
                    },
                }
            },
            _ => Value::Nothing,
        }
    }
}

/// What the steps of `path` from position `from` on select from each of the
/// values.
fn pick_each(items: &Vec<Value>, path: &Vec<Part>, from: usize) -> (r: Vec<Value>)
    requires
        from <= path.len(),
    ensures
        r.len() == items.len(),
        forall|j: int|
            0 <= j < items.len() ==> r[j]@ == pick(
                #[trigger] items[j]@,
                path@.subrange(from as int, path.len() as int),
            ),
    decreases path.len() - from, items,
{
    let mut out: Vec<Value> = Vec::new();
    let mut i: usize = 0;
    while i < items.len()
        invariant
            i <= items.len(),
            from <= path.len(),
            out.len() == i,
            forall|j: int|
                0 <= j < i ==> out[j]@ == pick(
                    #[trigger] items[j]@,
                    path@.subrange(from as int, path.len() as int),
                ),
        decreases items.len() - i,
    {
        out.push(items[i].pick(path, from));
        i += 1;
    }
    out
}

/// Mathematical model of a [`Part`].
pub enum PartView {
    All,
    Flatten,
    Last,
    First,
    Field(Seq<char>),
    Index(u64),
}

impl View for Part {
    type V = PartView;

    open spec fn view(&self) -> PartView {
        match self {
            Part::All => PartView::All,
            Part::Flatten => PartView::Flatten,
            Part::Last => PartView::Last,
            Part::First => PartView::First,
            Part::Field(f) => PartView::Field(f@),
            Part::Index(n) => PartView::Index(*n),
        }
    }
}

/// The models of the steps of a path.
pub open spec fn parts_view(parts: Seq<Part>) -> Seq<PartView> {
    Seq::new(parts.len(), |i: int| parts[i]@)
}

impl Part {
    /// Whether two steps are the same.
    pub fn equals(&self, other: &Part) -> (r: bool)
        ensures
            r == (self@ == other@),
    {
        match (self, other) {
            (Part::All, Part::All) => true,
            (Part::Flatten, Part::Flatten) => true,
            (Part::Last, Part::Last) => true,
            (Part::First, Part::First) => true,
            (Part::Field(a), Part::Field(b)) => *a == *b,
            (Part::Index(a), Part::Index(b)) => *a == *b,
            _ => false,
        }
    }

    /// A copy of this step.
    pub fn duplicate(&self) -> (r: Part)
        ensures
            r == *self,
    {
        match self {
            Part::All => Part::All,
            Part::Flatten => Part::Flatten,
            Part::Last => Part::Last,
            Part::First => Part::First,
            Part::Field(f) => Part::Field(f.clone()),
            Part::Index(n) => Part::Index(*n),
        }
    }
}

impl Idiom {
    /// A copy of this path.
    pub fn duplicate(&self) -> (r: Idiom)
        ensures
            r.0@ == self.0@,
    {
        let mut out: Vec<Part> = Vec::new();
        let mut i: usize = 0;
        while i < self.0.len()
            invariant
                i <= self.0.len(),
                out@ == self.0@.subrange(0, i as int),
            decreases self.0.len() - i,
        {
            out.push(self.0[i].duplicate());
            i += 1;
            assert(out@ =~= self.0@.subrange(0, i as int));
        }
        assert(self.0@.subrange(0, i as int) =~= self.0@);
        Idiom(out)
    }

    /// Whether the path ends in a flatten step.
    pub open spec fn is_flattened(&self) -> bool {
        self.0@.len() > 0 && self.0@[self.0@.len() - 1] is Flatten
    }

    /// Whether the path ends in a flatten step.
    pub fn ends_with_flatten(&self) -> (r: bool)
        ensures
            r == self.is_flattened(),
    {
        let n = self.0.len();
        if n == 0 {
            false
        } else {
            match &self.0[n - 1] {
                Part::Flatten => true,
                _ => false,
            }
        }
    }

    /// What the path selects from a document.
    pub fn compute(&self, doc: &Value) -> (r: Value)
        ensures
            r@ == pick(doc@, self.0@),
    {
        assert(self.0@.subrange(0, self.0@.len() as int) =~= self.0@);
        doc.pick(&self.0, 0)
    }
}

} // verus!
