//! Type descriptors: the structured form of a type's canonical name.
use crate::error::{Error, ErrorView};
use vstd::prelude::*;

verus! {

/// The leaf types a descriptor can name.
#[derive(Clone, Copy, PartialEq, Eq, Debug, Structural)]
pub enum Primitive {
    U8,
    U16,
    U32,
    U64,
    U128,
    I8,
    I16,
    I32,
    I64,
    I128,
    Usize,
    F32,
    F64,
    Bool,
    String,
}

impl Primitive {
    /// The canonical name of the leaf type.
    pub open spec fn name_spec(self) -> Seq<char> {
        match self {
            Primitive::U8 => "u8"@,
            Primitive::U16 => "u16"@,
            Primitive::U32 => "u32"@,
            Primitive::U64 => "u64"@,
            Primitive::U128 => "u128"@,
            Primitive::I8 => "i8"@,
            Primitive::I16 => "i16"@,
            Primitive::I32 => "i32"@,
            Primitive::I64 => "i64"@,
            Primitive::I128 => "i128"@,
            Primitive::Usize => "usize"@,
            Primitive::F32 => "f32"@,
            Primitive::F64 => "f64"@,
            Primitive::Bool => "bool"@,
            Primitive::String => "String"@,
        }
    }

    /// The leaf type that a name stands for, if any.
    pub open spec fn from_name_spec(name: Seq<char>) -> Option<Primitive> {
        if name == "u8"@ {
            Some(Primitive::U8)
        } else if name == "u16"@ {
            Some(Primitive::U16)
        } else if name == "u32"@ {
            Some(Primitive::U32)
        } else if name == "u64"@ {
            Some(Primitive::U64)
        } else if name == "u128"@ {
            Some(Primitive::U128)
        } else if name == "i8"@ {
            Some(Primitive::I8)
        } else if name == "i16"@ {
            Some(Primitive::I16)
        } else if name == "i32"@ {
            Some(Primitive::I32)
        } else if name == "i64"@ {
            Some(Primitive::I64)
        } else if name == "i128"@ {
            Some(Primitive::I128)
        } else if name == "usize"@ {
            Some(Primitive::Usize)
        } else if name == "f32"@ {
            Some(Primitive::F32)
        } else if name == "f64"@ {
            Some(Primitive::F64)
        } else if name == "bool"@ {
            Some(Primitive::Bool)
        } else if name == "String"@ {
            Some(Primitive::String)
        } else {
            None
        }
    }

    pub open spec fn is_float(self) -> bool {
        self == Primitive::F32 || self == Primitive::F64
    }

    pub open spec fn is_integer(self) -> bool {
        !self.is_float() && self != Primitive::Bool && self != Primitive::String
    }

    pub fn name(self) -> (r: &'static str)
        ensures
            r@ == self.name_spec(),
    {
        match self {
            Primitive::U8 => "u8",
            Primitive::U16 => "u16",
            Primitive::U32 => "u32",
            Primitive::U64 => "u64",
            Primitive::U128 => "u128",
            Primitive::I8 => "i8",
            Primitive::I16 => "i16",
            Primitive::I32 => "i32",
            Primitive::I64 => "i64",
            Primitive::I128 => "i128",
            Primitive::Usize => "usize",
            Primitive::F32 => "f32",
            Primitive::F64 => "f64",
            Primitive::Bool => "bool",
            Primitive::String => "String",
        }
    }

    pub fn from_name(name: &str) -> (r: Option<Primitive>)
        ensures
            r == Primitive::from_name_spec(name@),
    {
        let owned = String::from_str(name);
        if owned == String::from_str("u8") {
            Some(Primitive::U8)
        } else if owned == String::from_str("u16") {
            Some(Primitive::U16)
        } else if owned == String::from_str("u32") {
            Some(Primitive::U32)
        } else if owned == String::from_str("u64") {
            Some(Primitive::U64)
        } else if owned == String::from_str("u128") {
            Some(Primitive::U128)
        } else if owned == String::from_str("i8") {
            Some(Primitive::I8)
        } else if owned == String::from_str("i16") {
            Some(Primitive::I16)
        } else if owned == String::from_str("i32") {
            Some(Primitive::I32)
        } else if owned == String::from_str("i64") {
            Some(Primitive::I64)
        } else if owned == String::from_str("i128") {
            Some(Primitive::I128)
        } else if owned == String::from_str("usize") {
            Some(Primitive::Usize)
        } else if owned == String::from_str("f32") {
            Some(Primitive::F32)
        } else if owned == String::from_str("f64") {
            Some(Primitive::F64)
        } else if owned == String::from_str("bool") {
            Some(Primitive::Bool)
        } else if owned == String::from_str("String") {
            Some(Primitive::String)
        } else {
            None
        }
    }

    /// Every leaf type is found again under its own name.
    pub proof fn lemma_name_round_trip(self)
        ensures
            Primitive::from_name_spec(self.name_spec()) == Some(self),
            is_name(self.name_spec()),
    {
        reveal_strlit("u8");
        assert("u8"@.len() == 2 && "u8"@[0] == 'u' && "u8"@[1] == '8');
        reveal_strlit("u16");
        assert("u16"@.len() == 3 && "u16"@[0] == 'u' && "u16"@[1] == '1' && "u16"@[2] == '6');
        reveal_strlit("u32");
        assert("u32"@.len() == 3 && "u32"@[0] == 'u' && "u32"@[1] == '3' && "u32"@[2] == '2');
        reveal_strlit("u64");
        assert("u64"@.len() == 3 && "u64"@[0] == 'u' && "u64"@[1] == '6' && "u64"@[2] == '4');
        reveal_strlit("u128");
        assert("u128"@.len() == 4 && "u128"@[0] == 'u' && "u128"@[1] == '1' && "u128"@[2] == '2' && "u128"@[3] == '8');
        reveal_strlit("i8");
        assert("i8"@.len() == 2 && "i8"@[0] == 'i' && "i8"@[1] == '8');
        reveal_strlit("i16");
        assert("i16"@.len() == 3 && "i16"@[0] == 'i' && "i16"@[1] == '1' && "i16"@[2] == '6');
        reveal_strlit("i32");
        assert("i32"@.len() == 3 && "i32"@[0] == 'i' && "i32"@[1] == '3' && "i32"@[2] == '2');
        reveal_strlit("i64");
        assert("i64"@.len() == 3 && "i64"@[0] == 'i' && "i64"@[1] == '6' && "i64"@[2] == '4');
        reveal_strlit("i128");
        assert("i128"@.len() == 4 && "i128"@[0] == 'i' && "i128"@[1] == '1' && "i128"@[2] == '2' && "i128"@[3] == '8');
        reveal_strlit("usize");
        assert("usize"@.len() == 5 && "usize"@[0] == 'u' && "usize"@[1] == 's' && "usize"@[2] == 'i' && "usize"@[3] == 'z' && "usize"@[4] == 'e');
        reveal_strlit("f32");
        assert("f32"@.len() == 3 && "f32"@[0] == 'f' && "f32"@[1] == '3' && "f32"@[2] == '2');
        reveal_strlit("f64");
        assert("f64"@.len() == 3 && "f64"@[0] == 'f' && "f64"@[1] == '6' && "f64"@[2] == '4');
        reveal_strlit("bool");
        assert("bool"@.len() == 4 && "bool"@[0] == 'b' && "bool"@[1] == 'o' && "bool"@[2] == 'o' && "bool"@[3] == 'l');
        reveal_strlit("String");
        assert("String"@.len() == 6 && "String"@[0] == 'S' && "String"@[1] == 't' && "String"@[2] == 'r' && "String"@[3] == 'i' && "String"@[4] == 'n' && "String"@[5] == 'g');
    }
}

/// The library's own types that take no type argument.
#[derive(Clone, Copy, PartialEq, Eq, Debug, Structural)]
pub enum Plain {
    SymmetricDistance,
}

impl Plain {
    /// The canonical name of the type.
    pub open spec fn name_spec(self) -> Seq<char> {
        match self {
            Plain::SymmetricDistance => "SymmetricDistance"@,
        }
    }

    /// The type that a name stands for, if any.
    pub open spec fn from_name_spec(name: Seq<char>) -> Option<Plain> {
        if name == "SymmetricDistance"@ {
            Some(Plain::SymmetricDistance)
        } else {
            None
        }
    }

    pub fn name(self) -> (r: &'static str)
        ensures
            r@ == self.name_spec(),
    {
        match self {
            Plain::SymmetricDistance => "SymmetricDistance",
        }
    }

    pub fn from_name(name: &str) -> (r: Option<Plain>)
        ensures
            r == Plain::from_name_spec(name@),
    {
        if String::from_str(name) == String::from_str("SymmetricDistance") {
            Some(Plain::SymmetricDistance)
        } else {
            None
        }
    }
}

/// The characters a type name is made of.
pub open spec fn is_name_char(c: char) -> bool {
    ('a' <= c && c <= 'z') || ('A' <= c && c <= 'Z') || ('0' <= c && c <= '9') || c == '_'
}

/// A name: one or more name characters.
pub open spec fn is_name(s: Seq<char>) -> bool {
    s.len() > 0 && forall|i: int| 0 <= i < s.len() ==> is_name_char(#[trigger] s[i])
}

/// The mathematical form of a descriptor.
pub enum Shape {
    Primitive(Primitive),
    Plain(Plain),
    Generic(Seq<char>, Seq<Shape>),
    Tuple(Seq<Shape>),
}

/// The canonical texts of `items`, joined by commas.
pub open spec fn join_text(items: Seq<Shape>) -> Seq<char>
    decreases items, 0nat,
{
    if items.len() == 0 {
        Seq::empty()
    } else if items.len() == 1 {
        items[0].text()
    } else {
        join_text(items.drop_last()) + seq![','] + items.last().text()
    }
}

/// Every member of `items` is well formed.
pub open spec fn all_wf(items: Seq<Shape>) -> bool
    decreases items, 0nat,
{
    if items.len() == 0 {
        true
    } else {
        all_wf(items.drop_last()) && items.last().wf()
    }
}

impl Shape {
    /// The canonical text: no whitespace, arguments separated by commas.
    pub open spec fn text(self) -> Seq<char>
        decreases self, 1nat,
    {
        match self {
            Shape::Primitive(p) => p.name_spec(),
            Shape::Plain(p) => p.name_spec(),
            Shape::Generic(name, args) => name + seq!['<'] + join_text(args) + seq!['>'],
            Shape::Tuple(elems) => seq!['('] + join_text(elems) + seq![')'],
        }
    }

    /// A generic has a name and at least one argument, and what it and a
    /// tuple hold is well formed in turn.
    pub open spec fn wf(self) -> bool
        decreases self, 1nat,
    {
        match self {
            Shape::Primitive(_) => true,
            Shape::Plain(_) => true,
            Shape::Generic(name, args) => is_name(name) && args.len() >= 1 && all_wf(args),
            Shape::Tuple(elems) => all_wf(elems),
        }
    }
}

/// A parsed type descriptor.
#[derive(Debug, PartialEq, Eq)]
pub enum Type {
    Primitive(Primitive),
    Plain(Plain),
    Generic { name: String, args: Vec<Type> },
    Tuple(Vec<Type>),
}

/// The shapes of a list of descriptors.
pub open spec fn shapes(items: Seq<Type>) -> Seq<Shape>
    decreases items, 0nat,
{
    if items.len() == 0 {
        Seq::empty()
    } else {
        shapes(items.drop_last()).push(items.last()@)
    }
}

impl View for Type {
    type V = Shape;

    open spec fn view(&self) -> Shape
        decreases self, 1nat,
    {
        match self {
            Type::Primitive(p) => Shape::Primitive(*p),
            Type::Plain(p) => Shape::Plain(*p),
            Type::Generic { name, args } => Shape::Generic(name@, shapes(args@)),
            Type::Tuple(elems) => Shape::Tuple(shapes(elems@)),
        }
    }
}

/// `shapes` works member by member.
pub proof fn lemma_shapes(items: Seq<Type>)
    ensures
        shapes(items).len() == items.len(),
        forall|i: int| 0 <= i < items.len() ==> (#[trigger] shapes(items)[i]) == items[i]@,
    decreases items.len(),
{
    if items.len() > 0 {
        lemma_shapes(items.drop_last());
        assert(shapes(items) == shapes(items.drop_last()).push(items.last()@));
    } else {
        assert(shapes(items) == Seq::<Shape>::empty());
    }
}

/// Copies a list of descriptors.
pub fn clone_list(items: &Vec<Type>) -> (r: Vec<Type>)
    ensures
        shapes(r@) == shapes(items@),
    decreases items, 0nat,
{
    let mut out: Vec<Type> = Vec::new();
    let mut i: usize = 0;
    while i < items.len()
        invariant
            0 <= i <= items.len(),
            out.len() == i,
            forall|j: int| 0 <= j < i ==> out[j]@ == items[j]@,
        decreases items.len() - i,
    {
        let item = items[i].clone();
        out.push(item);
        i = i + 1;
    }
    proof {
        lemma_shapes(out@);
        lemma_shapes(items@);
        assert(shapes(out@) =~= shapes(items@));
    }
    out
}

impl Clone for Type {
    fn clone(&self) -> (r: Type)
        ensures
            r@ == self@,
        decreases self, 1nat,
    {
        match self {
            Type::Primitive(p) => Type::Primitive(*p),
            Type::Plain(p) => Type::Plain(*p),
            Type::Generic { name, args } => {
                Type::Generic { name: name.clone(), args: clone_list(args) }
            },
            Type::Tuple(elems) => {
                Type::Tuple(clone_list(elems))
            },
        }
    }
}


/// Renders a list of descriptors, separated by commas.
pub fn join_to_text(items: &Vec<Type>) -> (r: String)
    ensures
        r@ == join_text(shapes(items@)),
    decreases items, 0nat,
{
    let mut out = String::new();
    let mut i: usize = 0;
    proof {
        lemma_shapes(items@);
    }
    while i < items.len()
        invariant
            0 <= i <= items.len(),
            shapes(items@).len() == items.len(),
            forall|j: int| 0 <= j < items.len() ==> (#[trigger] shapes(items@)[j]) == items[j]@,
            out@ == join_text(shapes(items@).take(i as int)),
        decreases items.len() - i,
    {
        let ghost before = shapes(items@).take(i as int);
        let ghost after = shapes(items@).take(i + 1);
        if i > 0 {
            out.append(",");
        }
        let text = items[i].to_text();
        out.append(text.as_str());
        proof {
            reveal_strlit(",");
            assert(","@ =~= seq![',']);
            assert(after.drop_last() =~= before);
            assert(after.last() == items[i as int]@);
            assert(out@ =~= join_text(after));
        }
        i = i + 1;
    }
    proof {
        assert(shapes(items@).take(i as int) =~= shapes(items@));
    }
    out
}

/// Whether two lists of descriptors have the same shapes.
pub fn list_equals(a: &Vec<Type>, b: &Vec<Type>) -> (r: bool)
    ensures
        r == (shapes(a@) == shapes(b@)),
    decreases a, 0nat,
{
    proof {
        lemma_shapes(a@);
        lemma_shapes(b@);
    }
    if a.len() != b.len() {
        return false;
    }
    let mut i: usize = 0;
    while i < a.len()
        invariant
            0 <= i <= a.len(),
            a.len() == b.len(),
            shapes(a@).len() == a.len(),
            shapes(b@).len() == b.len(),
            forall|j: int| 0 <= j < a.len() ==> (#[trigger] shapes(a@)[j]) == a[j]@,
            forall|j: int| 0 <= j < b.len() ==> (#[trigger] shapes(b@)[j]) == b[j]@,
            forall|j: int| 0 <= j < i ==> a[j]@ == b[j]@,
        decreases a.len() - i,
    {
        if !a[i].equals(&b[i]) {
            assert(shapes(a@)[i as int] != shapes(b@)[i as int]);
            return false;
        }
        i = i + 1;
    }
    assert(shapes(a@) =~= shapes(b@));
    true
}

impl Type {
    /// A descriptor is well formed when its shape is.
    pub open spec fn wf(&self) -> bool {
        self@.wf()
    }

    /// The descriptor of a leaf type.
    pub fn primitive(p: Primitive) -> (r: Type)
        ensures
            r@ == Shape::Primitive(p),
    {
        Type::Primitive(p)
    }

    /// The descriptor of one of the library's own plain types.
    pub fn plain(p: Plain) -> (r: Type)
        ensures
            r@ == Shape::Plain(p),
    {
        Type::Plain(p)
    }

    /// The descriptor `name<arg>`.
    pub fn generic1(name: &str, arg: Type) -> (r: Type)
        ensures
            r@ == Shape::Generic(name@, seq![arg@]),
    {
        let mut args: Vec<Type> = Vec::new();
        args.push(arg);
        proof {
            lemma_shapes(args@);
            assert(shapes(args@) =~= seq![arg@]);
        }
        Type::Generic { name: String::from_str(name), args }
    }

    /// The descriptor `name<first,second>`.
    pub fn generic2(name: &str, first: Type, second: Type) -> (r: Type)
        ensures
            r@ == Shape::Generic(name@, seq![first@, second@]),
    {
        let mut args: Vec<Type> = Vec::new();
        args.push(first);
        args.push(second);
        proof {
            lemma_shapes(args@);
            assert(shapes(args@) =~= seq![first@, second@]);
        }
        Type::Generic { name: String::from_str(name), args }
    }

    /// The descriptor `(first,second)`.
    pub fn pair(first: Type, second: Type) -> (r: Type)
        ensures
            r@ == Shape::Tuple(seq![first@, second@]),
    {
        let mut elems: Vec<Type> = Vec::new();
        elems.push(first);
        elems.push(second);
        proof {
            lemma_shapes(elems@);
            assert(shapes(elems@) =~= seq![first@, second@]);
        }
        Type::Tuple(elems)
    }

    /// The canonical text of the descriptor.
    pub fn to_text(&self) -> (r: String)
        ensures
            r@ == self@.text(),
        decreases self, 1nat,
    {
        match self {
            Type::Primitive(p) => String::from_str(p.name()),
            Type::Plain(p) => String::from_str(p.name()),
            Type::Generic { name, args } => {
                let mut out = name.clone();
                out.append("<");
                let inner = join_to_text(args);
                out.append(inner.as_str());
                out.append(">");
                proof {
                    reveal_strlit("<");
                    reveal_strlit(">");
                    assert("<"@ =~= seq!['<']);
                    assert(">"@ =~= seq!['>']);
                }
                out
            },
            Type::Tuple(elems) => {
                let mut out = String::from_str("(");
                let inner = join_to_text(elems);
                out.append(inner.as_str());
                out.append(")");
                proof {
                    reveal_strlit("(");
                    reveal_strlit(")");
                    assert("("@ =~= seq!['(']);
                    assert(")"@ =~= seq![')']);
                }
                out
            },
        }
    }

    /// Structural equality: the two descriptors have the same shape.
    pub fn equals(&self, other: &Type) -> (r: bool)
        ensures
            r == (self@ == other@),
        decreases self, 1nat,
    {
        match (self, other) {
            (Type::Primitive(p), Type::Primitive(q)) => *p == *q,
            (Type::Plain(p), Type::Plain(q)) => *p == *q,
            (Type::Generic { name: n1, args: a1 }, Type::Generic { name: n2, args: a2 }) => {
                *n1 == *n2 && list_equals(a1, a2)
            },
            (Type::Tuple(a), Type::Tuple(b)) => list_equals(a, b),
            _ => false,
        }
    }

    /// The sole argument of a generic with exactly one argument.
    pub fn get_atom(&self) -> (r: Result<Type, Error>)
        ensures
            match r {
                Ok(atom) => self@.atom() == Some(atom@),
                Err(e) => self@.atom() is None && e@ == (ErrorView::NotAContainer {
                    descriptor: self@,
                }),
            },
    {
        match self {
            Type::Generic { name, args } => {
                proof {
                    lemma_shapes(args@);
                }
                if args.len() == 1 {
                    return Ok(args[0].clone());
                }
            },
            _ => {},
        }
        Err(Error::NotAContainer { descriptor: self.clone() })
    }
}


impl Type {
    /// The leaf at the bottom of a chain of generics with one argument
    /// each. A tuple, or a generic with another number of arguments, on
    /// the way down is reported as no container.
    pub fn get_leaf(&self) -> (r: Result<Type, Error>)
        ensures
            match r {
                Ok(leaf) => self@.leaf() == Ok::<Shape, ErrorView>(leaf@),
                Err(e) => self@.leaf() == Err::<Shape, ErrorView>(e@),
            },
        decreases self,
    {
        match self {
            Type::Generic { name, args } => {
                proof {
                    lemma_shapes(args@);
                }
                if args.len() == 1 {
                    args[0].get_leaf()
                } else {
                    Err(Error::NotAContainer { descriptor: self.clone() })
                }
            },
            Type::Tuple(_) => Err(Error::NotAContainer { descriptor: self.clone() }),
            _ => Ok(self.clone()),
        }
    }

    /// The leaf type, where the descriptor names one.
    pub fn as_primitive(&self) -> (r: Option<Primitive>)
        ensures
            r == self@.as_primitive(),
    {
        match self {
            Type::Primitive(p) => Some(*p),
            _ => None,
        }
    }

    /// Whether the descriptor is a generic of the given name.
    pub fn has_name(&self, name: &str) -> (r: bool)
        ensures
            r == self@.has_name(name@),
    {
        match self {
            Type::Generic { name: own, .. } => *own == String::from_str(name),
            _ => false,
        }
    }
}

impl Shape {
    /// The leaf type, where the shape is one.
    pub open spec fn as_primitive(self) -> Option<Primitive> {
        match self {
            Shape::Primitive(p) => Some(p),
            _ => None,
        }
    }

    /// Whether the shape is a generic of the given name.
    pub open spec fn has_name(self, name: Seq<char>) -> bool {
        self matches Shape::Generic(own, _) && own == name
    }

    /// The leaf at the bottom of a chain of generics with one argument
    /// each: a leaf is its own; a generic with one argument has the leaf
    /// of that argument; a tuple, or a generic with another number of
    /// arguments, has none.
    pub open spec fn leaf(self) -> Result<Shape, ErrorView>
        decreases self,
    {
        match self {
            Shape::Primitive(_) => Ok(self),
            Shape::Plain(_) => Ok(self),
            Shape::Generic(_, args) => if args.len() == 1 {
                args[0].leaf()
            } else {
                Err(ErrorView::NotAContainer { descriptor: self })
            },
            Shape::Tuple(_) => Err(ErrorView::NotAContainer { descriptor: self }),
        }
    }

    /// The sole argument of a generic with exactly one argument.
    pub open spec fn atom(self) -> Option<Shape> {
        match self {
            Shape::Generic(_, args) => if args.len() == 1 {
                Some(args[0])
            } else {
                None
            },
            _ => None,
        }
    }
}

} // verus!
