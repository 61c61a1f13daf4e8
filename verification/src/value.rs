//! The values that cross the boundary: atoms, and one level of container
//! over atoms.
use crate::types::{Primitive, Shape, Type};
use vstd::prelude::*;

verus! {

/// A value of a leaf type. A floating-point number is held as the bits of
/// its IEEE 754 encoding.
#[derive(Debug, PartialEq, Eq)]
pub enum Atom {
    U8(u8),
    U16(u16),
    U32(u32),
    U64(u64),
    U128(u128),
    I8(i8),
    I16(i16),
    I32(i32),
    I64(i64),
    I128(i128),
    Usize(usize),
    F32(u32),
    F64(u64),
    Bool(bool),
    String(String),
}

/// The mathematical form of an atom.
pub enum AtomView {
    /// An integer of the given type.
    Integer(Primitive, int),
    /// A floating-point number of the given type, by its bits.
    Float(Primitive, int),
    Bool(bool),
    Text(Seq<char>),
}

/// The bits of a 32-bit float without the sign bit.
pub open spec fn f32_magnitude(bits: int) -> int {
    if bits >= 0x8000_0000 {
        bits - 0x8000_0000
    } else {
        bits
    }
}

/// The bits of a 64-bit float without the sign bit.
pub open spec fn f64_magnitude(bits: int) -> int {
    if bits >= 0x8000_0000_0000_0000 {
        bits - 0x8000_0000_0000_0000
    } else {
        bits
    }
}

impl AtomView {
    /// The leaf type of the atom.
    pub open spec fn primitive(self) -> Primitive {
        match self {
            AtomView::Integer(p, _) => p,
            AtomView::Float(p, _) => p,
            AtomView::Bool(_) => Primitive::Bool,
            AtomView::Text(_) => Primitive::String,
        }
    }

    /// Whether the atom is a number.
    pub open spec fn is_number(self) -> bool {
        self is Integer || self is Float
    }

    /// Whether the atom is the null of its type: a float that is not a
    /// number. No other atom is null.
    pub open spec fn is_null(self) -> bool {
        match self {
            AtomView::Float(p, bits) => if p == Primitive::F32 {
                f32_magnitude(bits) > 0x7f80_0000
            } else {
                f64_magnitude(bits) > 0x7ff0_0000_0000_0000
            },
            _ => false,
        }
    }

    /// The place of a number among the numbers of its type: an integer is
    /// its own place; a float that is a number stands at its magnitude,
    /// negated where the sign bit is set, so that both zeros share a place.
    pub open spec fn rank(self) -> int {
        match self {
            AtomView::Integer(_, value) => value,
            AtomView::Float(p, bits) => if p == Primitive::F32 {
                if bits >= 0x8000_0000 {
                    -f32_magnitude(bits)
                } else {
                    f32_magnitude(bits)
                }
            } else {
                if bits >= 0x8000_0000_0000_0000 {
                    -f64_magnitude(bits)
                } else {
                    f64_magnitude(bits)
                }
            },
            _ => 0,
        }
    }

    /// Whether two atoms are numbers of one type, neither of them null.
    pub open spec fn comparable(self, other: AtomView) -> bool {
        self.is_number() && self.primitive() == other.primitive() && !self.is_null()
            && !other.is_null()
    }

    /// `self < other`, as the numbers' own type orders them. Nothing is
    /// less than a null, and a null is less than nothing.
    pub open spec fn lt(self, other: AtomView) -> bool {
        self.comparable(other) && self.rank() < other.rank()
    }

    /// `self <= other`, in the same order.
    pub open spec fn le(self, other: AtomView) -> bool {
        self.comparable(other) && self.rank() <= other.rank()
    }
}

impl View for Atom {
    type V = AtomView;

    open spec fn view(&self) -> AtomView {
        match self {
            Atom::U8(x) => AtomView::Integer(Primitive::U8, *x as int),
            Atom::U16(x) => AtomView::Integer(Primitive::U16, *x as int),
            Atom::U32(x) => AtomView::Integer(Primitive::U32, *x as int),
            Atom::U64(x) => AtomView::Integer(Primitive::U64, *x as int),
            Atom::U128(x) => AtomView::Integer(Primitive::U128, *x as int),
            Atom::I8(x) => AtomView::Integer(Primitive::I8, *x as int),
            Atom::I16(x) => AtomView::Integer(Primitive::I16, *x as int),
            Atom::I32(x) => AtomView::Integer(Primitive::I32, *x as int),
            Atom::I64(x) => AtomView::Integer(Primitive::I64, *x as int),
            Atom::I128(x) => AtomView::Integer(Primitive::I128, *x as int),
            Atom::Usize(x) => AtomView::Integer(Primitive::Usize, *x as int),
            Atom::F32(bits) => AtomView::Float(Primitive::F32, *bits as int),
            Atom::F64(bits) => AtomView::Float(Primitive::F64, *bits as int),
            Atom::Bool(b) => AtomView::Bool(*b),
            Atom::String(s) => AtomView::Text(s@),
        }
    }
}

impl Clone for Atom {
    fn clone(&self) -> (r: Atom)
        ensures
            r@ == self@,
    {
        match self {
            Atom::U8(x) => Atom::U8(*x),
            Atom::U16(x) => Atom::U16(*x),
            Atom::U32(x) => Atom::U32(*x),
            Atom::U64(x) => Atom::U64(*x),
            Atom::U128(x) => Atom::U128(*x),
            Atom::I8(x) => Atom::I8(*x),
            Atom::I16(x) => Atom::I16(*x),
            Atom::I32(x) => Atom::I32(*x),
            Atom::I64(x) => Atom::I64(*x),
            Atom::I128(x) => Atom::I128(*x),
            Atom::Usize(x) => Atom::Usize(*x),
            Atom::F32(x) => Atom::F32(*x),
            Atom::F64(x) => Atom::F64(*x),
            Atom::Bool(x) => Atom::Bool(*x),
            Atom::String(s) => Atom::String(s.clone()),
        }
    }
}

impl Atom {
    /// The leaf type of the atom.
    pub fn primitive(&self) -> (p: Primitive)
        ensures
            p == self@.primitive(),
    {
        match self {
            Atom::U8(_) => Primitive::U8,
            Atom::U16(_) => Primitive::U16,
            Atom::U32(_) => Primitive::U32,
            Atom::U64(_) => Primitive::U64,
            Atom::U128(_) => Primitive::U128,
            Atom::I8(_) => Primitive::I8,
            Atom::I16(_) => Primitive::I16,
            Atom::I32(_) => Primitive::I32,
            Atom::I64(_) => Primitive::I64,
            Atom::I128(_) => Primitive::I128,
            Atom::Usize(_) => Primitive::Usize,
            Atom::F32(_) => Primitive::F32,
            Atom::F64(_) => Primitive::F64,
            Atom::Bool(_) => Primitive::Bool,
            Atom::String(_) => Primitive::String,
        }
    }

    /// Whether the atom is the null of its type.
    pub fn is_null(&self) -> (r: bool)
        ensures
            r == self@.is_null(),
    {
        match self {
            Atom::F32(bits) => {
                let magnitude: u32 = if *bits >= 0x8000_0000 {
                    *bits - 0x8000_0000
                } else {
                    *bits
                };
                magnitude > 0x7f80_0000
            },
            Atom::F64(bits) => {
                let magnitude: u64 = if *bits >= 0x8000_0000_0000_0000 {
                    *bits - 0x8000_0000_0000_0000
                } else {
                    *bits
                };
                magnitude > 0x7ff0_0000_0000_0000
            },
            _ => false,
        }
    }

    /// Whether two atoms are the same value of the same type. Two floats
    /// are the same where their bits are.
    pub fn same(&self, other: &Atom) -> (r: bool)
        ensures
            r == (self@ == other@),
    {
        match (self, other) {
            (Atom::U8(a), Atom::U8(b)) => *a == *b,
            (Atom::U16(a), Atom::U16(b)) => *a == *b,
            (Atom::U32(a), Atom::U32(b)) => *a == *b,
            (Atom::U64(a), Atom::U64(b)) => *a == *b,
            (Atom::U128(a), Atom::U128(b)) => *a == *b,
            (Atom::I8(a), Atom::I8(b)) => *a == *b,
            (Atom::I16(a), Atom::I16(b)) => *a == *b,
            (Atom::I32(a), Atom::I32(b)) => *a == *b,
            (Atom::I64(a), Atom::I64(b)) => *a == *b,
            (Atom::I128(a), Atom::I128(b)) => *a == *b,
            (Atom::Usize(a), Atom::Usize(b)) => *a == *b,
            (Atom::F32(a), Atom::F32(b)) => *a == *b,
            (Atom::F64(a), Atom::F64(b)) => *a == *b,
            (Atom::Bool(a), Atom::Bool(b)) => *a == *b,
            (Atom::String(a), Atom::String(b)) => *a == *b,
            _ => false,
        }
    }

    /// `self < other`, for two numbers of one type.
    pub fn lt(&self, other: &Atom) -> (r: bool)
        ensures
            r == self@.lt(other@),
    {
        match (self, other) {
            (Atom::U8(a), Atom::U8(b)) => *a < *b,
            (Atom::U16(a), Atom::U16(b)) => *a < *b,
            (Atom::U32(a), Atom::U32(b)) => *a < *b,
            (Atom::U64(a), Atom::U64(b)) => *a < *b,
            (Atom::U128(a), Atom::U128(b)) => *a < *b,
            (Atom::I8(a), Atom::I8(b)) => *a < *b,
            (Atom::I16(a), Atom::I16(b)) => *a < *b,
            (Atom::I32(a), Atom::I32(b)) => *a < *b,
            (Atom::I64(a), Atom::I64(b)) => *a < *b,
            (Atom::I128(a), Atom::I128(b)) => *a < *b,
            (Atom::Usize(a), Atom::Usize(b)) => *a < *b,
            (Atom::F32(a), Atom::F32(b)) => !self.is_null() && !other.is_null() && f32_rank(*a)
                < f32_rank(*b),
            (Atom::F64(a), Atom::F64(b)) => !self.is_null() && !other.is_null() && f64_rank(*a)
                < f64_rank(*b),
            _ => false,
        }
    }

    /// `self <= other`, for two numbers of one type.
    pub fn le(&self, other: &Atom) -> (r: bool)
        ensures
            r == self@.le(other@),
    {
        match (self, other) {
            (Atom::U8(a), Atom::U8(b)) => *a <= *b,
            (Atom::U16(a), Atom::U16(b)) => *a <= *b,
            (Atom::U32(a), Atom::U32(b)) => *a <= *b,
            (Atom::U64(a), Atom::U64(b)) => *a <= *b,
            (Atom::U128(a), Atom::U128(b)) => *a <= *b,
            (Atom::I8(a), Atom::I8(b)) => *a <= *b,
            (Atom::I16(a), Atom::I16(b)) => *a <= *b,
            (Atom::I32(a), Atom::I32(b)) => *a <= *b,
            (Atom::I64(a), Atom::I64(b)) => *a <= *b,
            (Atom::I128(a), Atom::I128(b)) => *a <= *b,
            (Atom::Usize(a), Atom::Usize(b)) => *a <= *b,
            (Atom::F32(a), Atom::F32(b)) => !self.is_null() && !other.is_null() && f32_rank(*a)
                <= f32_rank(*b),
            (Atom::F64(a), Atom::F64(b)) => !self.is_null() && !other.is_null() && f64_rank(*a)
                <= f64_rank(*b),
            _ => false,
        }
    }
}

fn f32_rank(bits: u32) -> (r: i64)
    ensures
        r == AtomView::Float(Primitive::F32, bits as int).rank(),
{
    if bits >= 0x8000_0000 {
        let magnitude: u32 = bits - 0x8000_0000;
        0 - (magnitude as i64)
    } else {
        bits as i64
    }
}

fn f64_rank(bits: u64) -> (r: i128)
    ensures
        r == AtomView::Float(Primitive::F64, bits as int).rank(),
{
    if bits >= 0x8000_0000_0000_0000 {
        let magnitude: u64 = bits - 0x8000_0000_0000_0000;
        0 - (magnitude as i128)
    } else {
        bits as i128
    }
}


/// The views of a list of atoms.
pub open spec fn atom_views(items: Seq<Atom>) -> Seq<AtomView> {
    items.map_values(|a: Atom| a@)
}

/// The views of a list of pairs of atoms.
pub open spec fn pair_views(entries: Seq<(Atom, Atom)>) -> Seq<(AtomView, AtomView)> {
    entries.map_values(|e: (Atom, Atom)| (e.0@, e.1@))
}

/// The view of an optional atom.
pub open spec fn option_view(item: Option<Atom>) -> Option<AtomView> {
    match item {
        Some(a) => Some(a@),
        None => None,
    }
}

/// The forms a value takes.
#[derive(Debug, PartialEq, Eq)]
pub enum Repr {
    /// A value of a leaf type `T`.
    Atom(Atom),
    /// A tuple `(T,U)`.
    Pair(Atom, Atom),
    /// A `Vec<T>`.
    Vector(Primitive, Vec<Atom>),
    /// An `Option<T>`.
    Optional(Primitive, Option<Atom>),
    /// A `HashMap<K,V>`, by its entries.
    Table(Primitive, Primitive, Vec<(Atom, Atom)>),
}

/// The mathematical form of a value.
pub enum ValueView {
    Atom(AtomView),
    Pair(AtomView, AtomView),
    Vector(Primitive, Seq<AtomView>),
    Optional(Primitive, Option<AtomView>),
    Table(Primitive, Primitive, Seq<(AtomView, AtomView)>),
}

/// No key occurs twice.
pub open spec fn distinct_keys(entries: Seq<(AtomView, AtomView)>) -> bool {
    forall|i: int, j: int|
        0 <= i < j < entries.len() ==> (#[trigger] entries[i]).0 != (#[trigger] entries[j]).0
}

impl ValueView {
    /// Every atom in a container has the type the container declares, and
    /// a map holds each key once.
    pub open spec fn wf(self) -> bool {
        match self {
            ValueView::Atom(_) => true,
            ValueView::Pair(_, _) => true,
            ValueView::Vector(elem, items) => forall|i: int|
                0 <= i < items.len() ==> (#[trigger] items[i]).primitive() == elem,
            ValueView::Optional(elem, item) => item matches Some(a) ==> a.primitive() == elem,
            ValueView::Table(key, value, entries) => {
                &&& forall|i: int|
                    0 <= i < entries.len() ==> (#[trigger] entries[i]).0.primitive() == key
                        && entries[i].1.primitive() == value
                &&& distinct_keys(entries)
            },
        }
    }

    /// The static type of the value.
    pub open spec fn type_shape(self) -> Shape {
        match self {
            ValueView::Atom(a) => Shape::Primitive(a.primitive()),
            ValueView::Pair(a, b) => Shape::Tuple(
                seq![Shape::Primitive(a.primitive()), Shape::Primitive(b.primitive())],
            ),
            ValueView::Vector(elem, _) => Shape::Generic("Vec"@, seq![Shape::Primitive(elem)]),
            ValueView::Optional(elem, _) => Shape::Generic(
                "Option"@,
                seq![Shape::Primitive(elem)],
            ),
            ValueView::Table(key, value, _) => Shape::Generic(
                "HashMap"@,
                seq![Shape::Primitive(key), Shape::Primitive(value)],
            ),
        }
    }
}

impl View for Repr {
    type V = ValueView;

    open spec fn view(&self) -> ValueView {
        match self {
            Repr::Atom(a) => ValueView::Atom(a@),
            Repr::Pair(a, b) => ValueView::Pair(a@, b@),
            Repr::Vector(elem, items) => ValueView::Vector(*elem, atom_views(items@)),
            Repr::Optional(elem, item) => ValueView::Optional(*elem, option_view(*item)),
            Repr::Table(key, value, entries) => ValueView::Table(*key, *value, pair_views(entries@)),
        }
    }
}

/// A value whose containers hold atoms of one type each.
#[derive(Debug, PartialEq, Eq)]
pub struct Value {
    repr: Repr,
}

impl View for Value {
    type V = ValueView;

    closed spec fn view(&self) -> ValueView {
        self.repr@
    }
}

impl Value {
    #[verifier::type_invariant]
    spec fn inv(self) -> bool {
        self.repr@.wf()
    }

    /// A value of a leaf type.
    pub fn atom(a: Atom) -> (r: Value)
        ensures
            r@ == ValueView::Atom(a@),
    {
        Value { repr: Repr::Atom(a) }
    }

    /// A tuple of two atoms.
    pub fn pair(first: Atom, second: Atom) -> (r: Value)
        ensures
            r@ == ValueView::Pair(first@, second@),
    {
        Value { repr: Repr::Pair(first, second) }
    }

    /// A vector of atoms of type `elem`, or `None` where an item is of
    /// another type.
    pub fn vector(elem: Primitive, items: Vec<Atom>) -> (r: Option<Value>)
        ensures
            match r {
                Some(v) => v@ == ValueView::Vector(elem, atom_views(items@)) && v@.wf(),
                None => !ValueView::Vector(elem, atom_views(items@)).wf(),
            },
    {
        let mut i: usize = 0;
        while i < items.len()
            invariant
                0 <= i <= items.len(),
                forall|j: int| 0 <= j < i ==> (#[trigger] atom_views(items@)[j]).primitive() == elem,
            decreases items.len() - i,
        {
            if items[i].primitive() != elem {
                assert(atom_views(items@)[i as int].primitive() != elem);
                return None;
            }
            i = i + 1;
        }
        Some(Value { repr: Repr::Vector(elem, items) })
    }

    /// An optional atom of type `elem`, or `None` where the atom is of
    /// another type.
    pub fn optional(elem: Primitive, item: Option<Atom>) -> (r: Option<Value>)
        ensures
            match r {
                Some(v) => v@ == ValueView::Optional(elem, option_view(item)) && v@.wf(),
                None => !ValueView::Optional(elem, option_view(item)).wf(),
            },
    {
        let fits = match &item {
            Some(a) => a.primitive() == elem,
            None => true,
        };
        if fits {
            Some(Value { repr: Repr::Optional(elem, item) })
        } else {
            None
        }
    }

    /// A map with keys of type `key` and values of type `value`, or `None`
    /// where an entry is of other types or a key occurs twice.
    pub fn map(key: Primitive, value: Primitive, entries: Vec<(Atom, Atom)>) -> (r: Option<Value>)
        ensures
            match r {
                Some(v) => v@ == ValueView::Table(key, value, pair_views(entries@)) && v@.wf(),
                None => !ValueView::Table(key, value, pair_views(entries@)).wf(),
            },
    {
        let ghost views = pair_views(entries@);
        let mut i: usize = 0;
        while i < entries.len()
            invariant
                0 <= i <= entries.len(),
                views == pair_views(entries@),
                forall|j: int|
                    0 <= j < i ==> (#[trigger] views[j]).0.primitive() == key
                        && views[j].1.primitive() == value,
                forall|a: int, b: int|
                    0 <= a < b < i ==> (#[trigger] views[a]).0 != (#[trigger] views[b]).0,
            decreases entries.len() - i,
        {
            if entries[i].0.primitive() != key || entries[i].1.primitive() != value {
                assert(views[i as int].0.primitive() != key || views[i as int].1.primitive()
                    != value);
                return None;
            }
            let mut k: usize = 0;
            while k < i
                invariant
                    0 <= k <= i < entries.len(),
                    views == pair_views(entries@),
                    forall|a: int| 0 <= a < k ==> (#[trigger] views[a]).0 != views[i as int].0,
                decreases i - k,
            {
                if entries[k].0.same(&entries[i].0) {
                    assert(views[k as int].0 == views[i as int].0);
                    return None;
                }
                k = k + 1;
            }
            i = i + 1;
        }
        Some(Value { repr: Repr::Table(key, value, entries) })
    }

    /// The form of the value.
    pub fn repr(&self) -> (r: &Repr)
        ensures
            r@ == self@,
            self@.wf(),
    {
        proof {
            use_type_invariant(self);
        }
        &self.repr
    }

    /// The descriptor of the value's static type.
    pub fn type_of(&self) -> (t: Type)
        ensures
            t@ == self@.type_shape(),
    {
        match &self.repr {
            Repr::Atom(a) => Type::primitive(a.primitive()),
            Repr::Pair(a, b) => Type::pair(
                Type::primitive(a.primitive()),
                Type::primitive(b.primitive()),
            ),
            Repr::Vector(elem, _) => Type::generic1("Vec", Type::primitive(*elem)),
            Repr::Optional(elem, _) => Type::generic1("Option", Type::primitive(*elem)),
            Repr::Table(key, value, _) => Type::generic2(
                "HashMap",
                Type::primitive(*key),
                Type::primitive(*value),
            ),
        }
    }
}

} // verus!
