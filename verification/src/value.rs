use vstd::prelude::*;

use crate::heap::OrdinaryObject;
use crate::instant::TemporalInstant;
use crate::zoned_date_time::TemporalZonedDateTime;

verus! {

/// A Number value. Only integral numbers (and the non-finite ones) are held:
/// a Number with a fractional part is outside this heap's model.
#[derive(Clone, Copy, Debug, PartialEq, Eq, Structural)]
pub enum JsNumber {
    NaN,
    PositiveInfinity,
    NegativeInfinity,
    Integer(i64),
}

/// An object: an ordinary object, or one of the Temporal exotic objects.
#[derive(Clone, Copy, Debug, PartialEq, Eq, Structural)]
pub enum Object {
    Object(OrdinaryObject),
    Instant(TemporalInstant),
    ZonedDateTime(TemporalZonedDateTime),
}

/// An ECMAScript language value. Strings are held as their bytes.
#[derive(Debug)]
pub enum Value {
    Undefined,
    Null,
    Boolean(bool),
    String(Vec<u8>),
    Symbol(u32),
    Number(JsNumber),
    Object(OrdinaryObject),
    Instant(TemporalInstant),
    ZonedDateTime(TemporalZonedDateTime),
}

/// The mathematical view of a [`Value`]: a string is its byte sequence.
pub enum ValueView {
    Undefined,
    Null,
    Boolean(bool),
    String(Seq<u8>),
    Symbol(u32),
    Number(JsNumber),
    Object(OrdinaryObject),
    Instant(TemporalInstant),
    ZonedDateTime(TemporalZonedDateTime),
}

impl View for Value {
    type V = ValueView;

    open spec fn view(&self) -> ValueView {
        match self {
            Value::Undefined => ValueView::Undefined,
            Value::Null => ValueView::Null,
            Value::Boolean(b) => ValueView::Boolean(*b),
            Value::String(s) => ValueView::String(s@),
            Value::Symbol(s) => ValueView::Symbol(*s),
            Value::Number(n) => ValueView::Number(*n),
            Value::Object(o) => ValueView::Object(*o),
            Value::Instant(i) => ValueView::Instant(*i),
            Value::ZonedDateTime(z) => ValueView::ZonedDateTime(*z),
        }
    }
}

/// The object that a value view is, if it is one.
pub open spec fn object_of(v: ValueView) -> Option<Object> {
    match v {
        ValueView::Object(o) => Some(Object::Object(o)),
        ValueView::Instant(i) => Some(Object::Instant(i)),
        ValueView::ZonedDateTime(z) => Some(Object::ZonedDateTime(z)),
        _ => None,
    }
}

/// The value view of an object.
pub open spec fn object_value(o: Object) -> ValueView {
    match o {
        Object::Object(o) => ValueView::Object(o),
        Object::Instant(i) => ValueView::Instant(i),
        Object::ZonedDateTime(z) => ValueView::ZonedDateTime(z),
    }
}

/// A copy of a byte string.
pub fn copy_bytes(s: &Vec<u8>) -> (r: Vec<u8>)
    ensures
        r@ == s@,
{
    let mut r: Vec<u8> = Vec::new();
    let mut i: usize = 0;
    while i < s.len()
        invariant
            i <= s.len(),
            r@ == s@.subrange(0, i as int),
        decreases s.len() - i,
    {
        r.push(s[i]);
        i = i + 1;
        assert(r@ =~= s@.subrange(0, i as int));
    }
    assert(s@.subrange(0, s.len() as int) =~= s@);
    r
}

/// Whether two byte strings are equal.
pub fn bytes_equal(a: &[u8], b: &[u8]) -> (r: bool)
    ensures
        r == (a@ == b@),
{
    if a.len() != b.len() {
        return false;
    }
    let mut i: usize = 0;
    while i < a.len()
        invariant
            a.len() == b.len(),
            i <= a.len(),
            forall|j: int| 0 <= j < i ==> a@[j] == b@[j],
        decreases a.len() - i,
    {
        if a[i] != b[i] {
            return false;
        }
        i = i + 1;
    }
    assert(a@ =~= b@);
    true
}

impl Value {
    /// A copy of this value.
    pub fn copy(&self) -> (r: Value)
        ensures
            r@ == self@,
    {
        match self {
            Value::Undefined => Value::Undefined,
            Value::Null => Value::Null,
            Value::Boolean(b) => Value::Boolean(*b),
            Value::String(s) => Value::String(copy_bytes(s)),
            Value::Symbol(s) => Value::Symbol(*s),
            Value::Number(n) => Value::Number(*n),
            Value::Object(o) => Value::Object(*o),
            Value::Instant(i) => Value::Instant(*i),
            Value::ZonedDateTime(z) => Value::ZonedDateTime(*z),
        }
    }

    /// Whether this value is undefined.
    pub fn is_undefined(&self) -> (r: bool)
        ensures
            r == (self@ is Undefined),
    {
        match self {
            Value::Undefined => true,
            _ => false,
        }
    }

    /// The object this value is, or `None` for a primitive value.
    pub fn to_object(&self) -> (r: Option<Object>)
        ensures
            r == object_of(self@),
    {
        match self {
            Value::Object(o) => Some(Object::Object(*o)),
            Value::Instant(i) => Some(Object::Instant(*i)),
            Value::ZonedDateTime(z) => Some(Object::ZonedDateTime(*z)),
            _ => None,
        }
    }
}

impl Object {
    /// The value that is this object.
    pub fn into_value(self) -> (r: Value)
        ensures
            r@ == object_value(self),
            object_of(r@) == Some(self),
    {
        match self {
            Object::Object(o) => Value::Object(o),
            Object::Instant(i) => Value::Instant(i),
            Object::ZonedDateTime(z) => Value::ZonedDateTime(z),
        }
    }
}

} // verus!
