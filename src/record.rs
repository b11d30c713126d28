//! Records: ordered sets of named fields, each holding a comparable value.
use vstd::prelude::*;
use vstd::string::*;

verus! {

/// The value held by one field.
#[derive(Debug, PartialEq, Eq)]
pub enum Value {
    Int(i64),
    Bool(bool),
    Text(String),
}

/// The mathematical model of a [`Value`].
pub enum ValueModel {
    Int(int),
    Bool(bool),
    Text(Seq<char>),
}

/// The type-neutral value of the same kind: zero, `false` or the empty text.
pub open spec fn neutral(v: ValueModel) -> ValueModel {
    match v {
        ValueModel::Int(_) => ValueModel::Int(0),
        ValueModel::Bool(_) => ValueModel::Bool(false),
        ValueModel::Text(_) => ValueModel::Text(Seq::empty()),
    }
}

/// Whether two values are of the same kind.
pub open spec fn same_kind(v: ValueModel, w: ValueModel) -> bool {
    neutral(v) == neutral(w)
}

impl View for Value {
    type V = ValueModel;

    open spec fn view(&self) -> ValueModel {
        match self {
            Value::Int(i) => ValueModel::Int(*i as int),
            Value::Bool(b) => ValueModel::Bool(*b),
            Value::Text(t) => ValueModel::Text(t@),
        }
    }
}

impl Value {
    /// An independent copy of this value.
    pub fn duplicate(&self) -> (r: Value)
        ensures
            r@ == self@,
    {
        match self {
            Value::Int(i) => Value::Int(*i),
            Value::Bool(b) => Value::Bool(*b),
            Value::Text(t) => Value::Text(t.clone()),
        }
    }

    /// The neutral value of this value's kind.
    pub fn neutral(&self) -> (r: Value)
        ensures
            r@ == neutral(self@),
    {
        match self {
            Value::Int(_) => Value::Int(0),
            Value::Bool(_) => Value::Bool(false),
            Value::Text(_) => Value::Text(String::new()),
        }
    }

    /// Structural equality of two values.
    pub fn equals(&self, other: &Value) -> (r: bool)
        ensures
            r == (self@ == other@),
    {
        match (self, other) {
            (Value::Int(a), Value::Int(b)) => *a == *b,
            (Value::Bool(a), Value::Bool(b)) => *a == *b,
            (Value::Text(a), Value::Text(b)) => {
                let r = *a == *b;
                proof {
                    if r {
                        assert(self@ == other@);
                    }
                }
                r
            },
            _ => false,
        }
    }
}

/// One named field of a record.
#[derive(Debug, PartialEq, Eq)]
struct Field {
    name: String,
    value: Value,
}

/// An ordered set of named fields. Names are unique within a record.
#[derive(Debug, PartialEq, Eq)]
pub struct Record {
    fields: Vec<Field>,
}

/// The model of a record: its fields in order, each as name and value.
pub type RecordModel = Seq<(Seq<char>, ValueModel)>;

/// Whether no name occurs twice among the fields.
pub open spec fn unique_names(r: RecordModel) -> bool {
    forall|i: int, j: int| 0 <= i < j < r.len() ==> r[i].0 != r[j].0
}

/// Whether the record has a field called `name`.
pub open spec fn has_field(r: RecordModel, name: Seq<char>) -> bool {
    exists|i: int| 0 <= i < r.len() && r[i].0 == name
}

/// Whether two records have the same names, in the same order, holding values
/// of the same kinds.
pub open spec fn same_shape(a: RecordModel, b: RecordModel) -> bool {
    &&& a.len() == b.len()
    &&& forall|i: int| 0 <= i < a.len() ==> a[i].0 == b[i].0 && same_kind(a[i].1, b[i].1)
}

/// The record with the field at position `i` holding `v`.
pub open spec fn with_value(r: RecordModel, i: int, v: ValueModel) -> RecordModel {
    r.update(i, (r[i].0, v))
}

impl View for Record {
    type V = RecordModel;

    closed spec fn view(&self) -> RecordModel {
        self.fields@.map_values(|f: Field| (f.name@, f.value@))
    }
}

impl Record {
    /// Well-formedness: field names are unique.
    pub open spec fn wf(&self) -> bool {
        unique_names(self@)
    }

    /// A record with no fields.
    pub fn new() -> (r: Record)
        ensures
            r@ == Seq::<(Seq<char>, ValueModel)>::empty(),
            r.wf(),
    {
        let r = Record { fields: Vec::new() };
        assert(r@ =~= Seq::<(Seq<char>, ValueModel)>::empty());
        r
    }

    /// The number of fields.
    pub fn len(&self) -> (n: usize)
        ensures
            n == self@.len(),
    {
        self.fields.len()
    }

    /// The position of the field called `name`, if there is one.
    pub fn position(&self, name: &str) -> (r: Option<usize>)
        ensures
            match r {
                Some(i) => i < self@.len() && self@[i as int].0 == name@,
                None => !has_field(self@, name@),
            },
    {
        let key = String::from_str(name);
        let mut i: usize = 0;
        while i < self.fields.len()
            invariant
                i <= self.fields.len(),
                key@ == name@,
                forall|j: int| 0 <= j < i ==> self@[j].0 != name@,
            decreases self.fields.len() - i,
        {
            if self.fields[i].name == key {
                return Some(i);
            }
            i += 1;
        }
        None
    }

    /// Adds a field at the end. A name that is already present is refused and
    /// the record is left as it was.
    pub fn push_field(&mut self, name: &str, value: Value) -> (added: bool)
        requires
            old(self).wf(),
        ensures
            final(self).wf(),
            added == !has_field(old(self)@, name@),
            added ==> final(self)@ == old(self)@.push((name@, value@)),
            !added ==> final(self)@ == old(self)@,
    {
        match self.position(name) {
            Some(_) => false,
            None => {
                let ghost before = self@;
                self.fields.push(Field { name: String::from_str(name), value });
                assert(self@ =~= before.push((name@, value@)));
                true
            },
        }
    }

    /// Builds a record by adding a field; see [`Record::push_field`].
    pub fn with(self, name: &str, value: Value) -> (r: Record)
        requires
            self.wf(),
        ensures
            r.wf(),
            !has_field(self@, name@) ==> r@ == self@.push((name@, value@)),
            has_field(self@, name@) ==> r@ == self@,
    {
        let mut r = self;
        r.push_field(name, value);
        r
    }

    /// The value of the field called `name`.
    pub fn get(&self, name: &str) -> (r: Option<&Value>)
        ensures
            match r {
                Some(v) => exists|i: int|
                    0 <= i < self@.len() && self@[i].0 == name@ && self@[i].1 == v@,
                None => !has_field(self@, name@),
            },
    {
        match self.position(name) {
            Some(i) => {
                proof {
                    assert(self@[i as int].1 == self.fields[i as int].value@);
                }
                Some(&self.fields[i].value)
            },
            None => None,
        }
    }

    /// The value at position `i`.
    pub fn value_at(&self, i: usize) -> (r: &Value)
        requires
            i < self@.len(),
        ensures
            r@ == self@[i as int].1,
    {
        &self.fields[i].value
    }

    /// The name at position `i`.
    pub fn name_at(&self, i: usize) -> (r: &str)
        requires
            i < self@.len(),
        ensures
            r@ == self@[i as int].0,
    {
        self.fields[i].name.as_str()
    }

    /// Sets the field at position `i` to `value`.
    pub fn set_at(&mut self, i: usize, value: Value)
        requires
            i < old(self)@.len(),
        ensures
            final(self)@ == with_value(old(self)@, i as int, value@),
    {
        let ghost before = self@;
        let name = self.fields[i].name.clone();
        self.fields.set(i, Field { name, value });
        assert(self@ =~= with_value(before, i as int, value@));
    }

    /// Sets the field called `name` to `value`. Returns whether the record has
    /// such a field; without one the record is left as it was.
    pub fn set(&mut self, name: &str, value: Value) -> (found: bool)
        ensures
            found == has_field(old(self)@, name@),
            found ==> exists|i: int|
                0 <= i < old(self)@.len() && old(self)@[i].0 == name@ && final(self)@
                    == with_value(old(self)@, i, value@),
            !found ==> final(self)@ == old(self)@,
    {
        match self.position(name) {
            Some(i) => {
                self.set_at(i, value);
                true
            },
            None => false,
        }
    }

    /// An independent copy of this record.
    pub fn duplicate(&self) -> (r: Record)
        ensures
            r@ == self@,
    {
        let mut fields: Vec<Field> = Vec::new();
        let mut i: usize = 0;
        while i < self.fields.len()
            invariant
                i <= self.fields.len(),
                fields@.len() == i,
                forall|j: int|
                    0 <= j < i ==> (#[trigger] fields@[j]).name@ == self.fields@[j].name@
                        && fields@[j].value@ == self.fields@[j].value@,
            decreases self.fields.len() - i,
        {
            let f = &self.fields[i];
            fields.push(Field { name: f.name.clone(), value: f.value.duplicate() });
            i += 1;
        }
        let r = Record { fields };
        assert(r@ =~= self@);
        r
    }

    /// Structural equality of two records: same names and values, in order.
    pub fn equals(&self, other: &Record) -> (r: bool)
        ensures
            r == (self@ == other@),
    {
        if self.fields.len() != other.fields.len() {
            return false;
        }
        let mut i: usize = 0;
        while i < self.fields.len()
            invariant
                i <= self.fields.len(),
                self@.len() == other@.len(),
                forall|j: int| 0 <= j < i ==> self@[j] == other@[j],
            decreases self.fields.len() - i,
        {
            let a = &self.fields[i];
            let b = &other.fields[i];
            if a.name != b.name || !a.value.equals(&b.value) {
                assert(self@[i as int] != other@[i as int]);
                return false;
            }
            i += 1;
        }
        assert(self@ =~= other@);
        true
    }
}

} // verus!
