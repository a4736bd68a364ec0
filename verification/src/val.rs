//! Values held in documents and projected into index entries.

use vstd::prelude::*;

verus! {

/// The identifier part of a record id.
#[derive(Clone, Debug, PartialEq, Eq)]
pub enum Id {
    Number(i64),
    String(String),
}

/// Mathematical model of an [`Id`].
pub enum IdView {
    Number(i64),
    String(Seq<char>),
}

impl View for Id {
    type V = IdView;

    open spec fn view(&self) -> IdView {
        match self {
            Id::Number(n) => IdView::Number(*n),
            Id::String(s) => IdView::String(s@),
        }
    }
}

/// A record id: the table a record lives in and its identifier there.
#[derive(Clone, Debug, PartialEq, Eq)]
pub struct Thing {
    pub tb: String,
    pub id: Id,
}

/// Mathematical model of a [`Thing`].
pub struct ThingView {
    pub tb: Seq<char>,
    pub id: IdView,
}

impl View for Thing {
    type V = ThingView;

    open spec fn view(&self) -> ThingView {
        ThingView { tb: self.tb@, id: self.id@ }
    }
}

/// A document value.
#[derive(Debug, PartialEq, Eq)]
pub enum Value {
    Nothing,
    Null,
    Bool(bool),
    Number(i64),
    Strand(String),
    Array(Vec<Value>),
    Object(Vec<(String, Value)>),
    Thing(Thing),
}

/// Mathematical model of a [`Value`].
pub enum ValueView {
    Nothing,
    Null,
    Bool(bool),
    Number(i64),
    Strand(Seq<char>),
    Array(Seq<ValueView>),
    Object(Seq<(Seq<char>, ValueView)>),
    Thing(ThingView),
}

/// A tuple of values: what an index entry holds.
#[derive(Debug, PartialEq, Eq)]
pub struct Array(pub Vec<Value>);

impl View for Array {
    type V = Seq<ValueView>;

    open spec fn view(&self) -> Seq<ValueView> {
        values_view(self.0@)
    }
}

/// The model of a value, by recursion over its structure.
pub open spec fn value_view(x: Value) -> ValueView
    decreases x,
{
    match x {
        Value::Nothing => ValueView::Nothing,
        Value::Null => ValueView::Null,
        Value::Bool(b) => ValueView::Bool(b),
        Value::Number(n) => ValueView::Number(n),
        Value::Strand(s) => ValueView::Strand(s@),
        Value::Array(v) => ValueView::Array(
            Seq::new(
                v@.len(),
                |i: int|
                    if 0 <= i < v@.len() {
                        value_view(v@[i])
                    } else {
                        ValueView::Nothing
                    },
            ),
        ),
        Value::Object(o) => ValueView::Object(
            Seq::new(
                o@.len(),
                |i: int|
                    if 0 <= i < o@.len() {
                        (o@[i].0@, value_view(o@[i].1))
                    } else {
                        (Seq::empty(), ValueView::Nothing)
                    },
            ),
        ),
        Value::Thing(t) => ValueView::Thing(t@),
    }
}

impl View for Value {
    type V = ValueView;

    open spec fn view(&self) -> ValueView {
        value_view(*self)
    }
}

impl Value {
    /// A deep copy of this value.
    pub fn duplicate(&self) -> (r: Value)
        ensures
            r@ == self@,
        decreases self,
    {
        match self {
            Value::Nothing => Value::Nothing,
            Value::Null => Value::Null,
            Value::Bool(b) => Value::Bool(*b),
            Value::Number(n) => Value::Number(*n),
            Value::Strand(s) => Value::Strand(s.clone()),
            Value::Array(v) => {
                let r = Value::Array(duplicate_values(v));
                proof {
                    lemma_array_view(*v);
                    lemma_array_view(r->Array_0);
                }
                r
            },
            Value::Object(o) => {
                let r = Value::Object(duplicate_fields(o));
                proof {
                    lemma_object_view(*o);
                    lemma_object_view(r->Object_0);
                }
                r
            },
            Value::Thing(t) => Value::Thing(t.duplicate()),
        }
    }
}

/// The views of the values of a vector, in order.
pub open spec fn values_view(v: Seq<Value>) -> Seq<ValueView> {
    Seq::new(v.len(), |i: int| v[i]@)
}

/// The views of the fields of an object, in order.
pub open spec fn fields_view(o: Seq<(String, Value)>) -> Seq<(Seq<char>, ValueView)> {
    Seq::new(o.len(), |i: int| (o[i].0@, o[i].1@))
}

/// The model of an array is the sequence of its elements' models.
pub proof fn lemma_array_view(v: Vec<Value>)
    ensures
        Value::Array(v)@ == ValueView::Array(values_view(v@)),
{
    assert(Value::Array(v)@->Array_0 =~= values_view(v@));
}

/// The model of an object is the sequence of its fields' models.
pub proof fn lemma_object_view(o: Vec<(String, Value)>)
    ensures
        Value::Object(o)@ == ValueView::Object(fields_view(o@)),
{
    assert(Value::Object(o)@->Object_0 =~= fields_view(o@));
}

/// A deep copy of a vector of values.
pub fn duplicate_values(v: &Vec<Value>) -> (r: Vec<Value>)
    ensures
        values_view(r@) == values_view(v@),
    decreases v,
{
    let mut out: Vec<Value> = Vec::new();
    let mut i: usize = 0;
    while i < v.len()
        invariant
            i <= v.len(),
            out.len() == i,
            forall|j: int| 0 <= j < i ==> out[j]@ == v[j]@,
        decreases v.len() - i,
    {
        out.push(v[i].duplicate());
        i += 1;
    }
    assert(values_view(out@) =~= values_view(v@));
    out
}

/// A deep copy of the fields of an object.
pub fn duplicate_fields(o: &Vec<(String, Value)>) -> (r: Vec<(String, Value)>)
    ensures
        fields_view(r@) == fields_view(o@),
    decreases o,
{
    let mut out: Vec<(String, Value)> = Vec::new();
    let mut i: usize = 0;
    while i < o.len()
        invariant
            i <= o.len(),
            out.len() == i,
            forall|j: int| 0 <= j < i ==> out[j].0@ == o[j].0@ && out[j].1@ == o[j].1@,
        decreases o.len() - i,
    {
        out.push((o[i].0.clone(), o[i].1.duplicate()));
        i += 1;
    }
    assert(fields_view(out@) =~= fields_view(o@));
    out
}

impl Clone for Value {
    fn clone(&self) -> (r: Value)
        ensures
            r@ == self@,
    {
        self.duplicate()
    }
}

impl Id {
    /// A deep copy of this identifier.
    pub fn duplicate(&self) -> (r: Id)
        ensures
            r@ == self@,
    {
        match self {
            Id::Number(n) => Id::Number(*n),
            Id::String(s) => Id::String(s.clone()),
        }
    }
}

impl Thing {
    /// A deep copy of this record id.
    pub fn duplicate(&self) -> (r: Thing)
        ensures
            r@ == self@,
    {
        Thing { tb: self.tb.clone(), id: self.id.duplicate() }
    }
}

impl Id {
    /// Whether two identifiers are the same.
    pub fn equals(&self, other: &Id) -> (r: bool)
        ensures
            r == (self@ == other@),
    {
        match (self, other) {
            (Id::Number(a), Id::Number(b)) => *a == *b,
            (Id::String(a), Id::String(b)) => *a == *b,
            _ => false,
        }
    }
}

impl Thing {
    /// Whether two record ids are the same.
    pub fn equals(&self, other: &Thing) -> (r: bool)
        ensures
            r == (self@ == other@),
    {
        self.tb == other.tb && self.id.equals(&other.id)
    }
}

impl Value {
    /// Whether two values are the same, compared structurally.
    pub fn equals(&self, other: &Value) -> (r: bool)
        ensures
            r == (self@ == other@),
        decreases self,
    {
        match (self, other) {
            (Value::Nothing, Value::Nothing) => true,
            (Value::Null, Value::Null) => true,
            (Value::Bool(a), Value::Bool(b)) => *a == *b,
            (Value::Number(a), Value::Number(b)) => *a == *b,
            (Value::Strand(a), Value::Strand(b)) => *a == *b,
            (Value::Array(a), Value::Array(b)) => {
                proof {
                    lemma_array_view(*a);
                    lemma_array_view(*b);
                }
                values_equal(a, b)
            },
            (Value::Object(a), Value::Object(b)) => {
                proof {
                    lemma_object_view(*a);
                    lemma_object_view(*b);
                }
                fields_equal(a, b)
            },
            (Value::Thing(a), Value::Thing(b)) => a.equals(b),
            _ => false,
        }
    }

    /// Whether this value is `Nothing` or `Null`.
    pub fn is_none_or_null(&self) -> (r: bool)
        ensures
            r == (self@ is Nothing || self@ is Null),
    {
        match self {
            Value::Nothing => true,
            Value::Null => true,
            _ => false,
        }
    }
}

/// Whether two vectors of values are the same, element by element.
pub fn values_equal(a: &Vec<Value>, b: &Vec<Value>) -> (r: bool)
    ensures
        r == (values_view(a@) == values_view(b@)),
    decreases a,
{
    if a.len() != b.len() {
        assert(values_view(a@).len() != values_view(b@).len());
        return false;
    }
    let mut i: usize = 0;
    while i < a.len()
        invariant
            i <= a.len(),
            a.len() == b.len(),
            forall|j: int| 0 <= j < i ==> a[j]@ == b[j]@,
        decreases a.len() - i,
    {
        if !a[i].equals(&b[i]) {
            assert(values_view(a@)[i as int] != values_view(b@)[i as int]);
            return false;
        }
        i += 1;
    }
    assert(values_view(a@) =~= values_view(b@));
    true
}

/// Whether two field lists are the same, field by field.
pub fn fields_equal(a: &Vec<(String, Value)>, b: &Vec<(String, Value)>) -> (r: bool)
    ensures
        r == (fields_view(a@) == fields_view(b@)),
    decreases a,
{
    if a.len() != b.len() {
        assert(fields_view(a@).len() != fields_view(b@).len());
        return false;
    }
    let mut i: usize = 0;
    while i < a.len()
        invariant
            i <= a.len(),
            a.len() == b.len(),
            forall|j: int| 0 <= j < i ==> a[j].0@ == b[j].0@ && a[j].1@ == b[j].1@,
        decreases a.len() - i,
    {
        if !(a[i].0 == b[i].0) || !a[i].1.equals(&b[i].1) {
            assert(fields_view(a@)[i as int] != fields_view(b@)[i as int]);
            return false;
        }
        i += 1;
    }
    assert(fields_view(a@) =~= fields_view(b@));
    true
}

/// Whether every value of a tuple is `Nothing` or `Null`.
pub open spec fn all_none_or_null(s: Seq<ValueView>) -> bool {
    forall|i: int| #![trigger s[i]] 0 <= i < s.len() ==> (s[i] is Nothing || s[i] is Null)
}

impl Array {
    /// The number of values in the tuple.
    pub fn len(&self) -> (r: usize)
        ensures
            r == self@.len(),
    {
        self.0.len()
    }

    /// Whether every value of the tuple is `Nothing` or `Null`.
    pub fn is_all_none_or_null(&self) -> (r: bool)
        ensures
            r == all_none_or_null(self@),
    {
        let v = &self.0;
        let mut i: usize = 0;
        while i < v.len()
            invariant
                i <= v.len(),
                *v == self.0,
                forall|j: int|
                    #![trigger self@[j]]
                    0 <= j < i ==> (self@[j] is Nothing || self@[j] is Null),
            decreases v.len() - i,
        {
            if !v[i].is_none_or_null() {
                assert(!(self@[i as int] is Nothing || self@[i as int] is Null));
                return false;
            }
            i += 1;
        }
        true
    }

    /// Whether two tuples hold the same values.
    pub fn equals(&self, other: &Array) -> (r: bool)
        ensures
            r == (self@ == other@),
    {
        values_equal(&self.0, &other.0)
    }

    /// A deep copy of this tuple.
    pub fn duplicate(&self) -> (r: Array)
        ensures
            r@ == self@,
    {
        Array(duplicate_values(&self.0))
    }
}

/// The place of the first field called `name`, from position `from` on.
pub open spec fn field_index(fields: Seq<(Seq<char>, ValueView)>, name: Seq<char>, from: int) -> Option<
    int,
>
    decreases fields.len() - from,
{
    if from < 0 || from >= fields.len() {
        None
    } else if fields[from].0 == name {
        Some(from)
    } else {
        field_index(fields, name, from + 1)
    }
}

/// The value with the field `name` set to `x`.
///
/// On an object the first field called `name` gets the value, and a new field
/// is added at the end where there is none. `Nothing` and `Null` become an
/// object with this one field. Every other value stays as it is.
pub open spec fn with_field(v: ValueView, name: Seq<char>, x: ValueView) -> ValueView {
    match v {
        ValueView::Object(fields) => match field_index(fields, name, 0) {
            Some(i) => ValueView::Object(fields.update(i, (name, x))),
            None => ValueView::Object(fields.push((name, x))),
        },
        ValueView::Nothing | ValueView::Null => ValueView::Object(seq![(name, x)]),
        _ => v,
    }
}

/// The place of the first field called `name`, from position `from` on.
fn find_field_index(fields: &Vec<(String, Value)>, name: &String, from: usize) -> (r: Option<usize>)
    ensures
        match r {
            Some(i) => from <= i < fields.len() && field_index(
                fields_view(fields@),
                name@,
                from as int,
            ) == Some(i as int),
            None => field_index(fields_view(fields@), name@, from as int) is None,
        },
    decreases fields.len() - from,
{
    if from >= fields.len() {
        None
    } else if fields[from].0 == *name {
        Some(from)
    } else {
        find_field_index(fields, name, from + 1)
    }
}

impl Value {
    /// Sets the field `name` to `val`.
    pub fn put_field(&mut self, name: &str, val: Value)
        ensures
            final(self)@ == with_field(old(self)@, name@, val@),
    {
        let mut taken = Value::Nothing;
        std::mem::swap(self, &mut taken);
        match taken {
            Value::Object(fields) => {
                let mut fields = fields;
                proof {
                    lemma_object_view(fields);
                }
                let ghost before = fields_view(fields@);
                let key = name.to_owned();
                match find_field_index(&fields, &key, 0) {
                    Some(i) => {
                        fields.set(i, (key, val));
                        assert(fields_view(fields@) =~= before.update(i as int, (name@, val@)));
                    },
                    None => {
                        fields.push((key, val));
                        assert(fields_view(fields@) =~= before.push((name@, val@)));
                    },
                }
                proof {
                    lemma_object_view(fields);
                }
                *self = Value::Object(fields);
            },
            Value::Nothing | Value::Null => {
                let mut fields: Vec<(String, Value)> = Vec::new();
                fields.push((name.to_owned(), val));
                proof {
                    lemma_object_view(fields);
                    assert(fields_view(fields@) =~= seq![(name@, val@)]);
                }
                *self = Value::Object(fields);
            },
            other => {
                *self = other;
            },
        }
    }
}

} // verus!
