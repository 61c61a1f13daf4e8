//! Selecting one of several implementations by a descriptor known only at
//! run time.
use crate::error::{Error, ErrorView, Fallible};
use crate::types::{lemma_shapes, shapes, Primitive, Shape, Type};
use vstd::prelude::*;

verus! {

/// The ordered list of types that a call site supports. It is fixed when
/// it is made.
#[derive(Debug)]
pub struct CandidateSet {
    types: Vec<Type>,
}

impl View for CandidateSet {
    type V = Seq<Shape>;

    closed spec fn view(&self) -> Seq<Shape> {
        shapes(self.types@)
    }
}

/// `at` is the first place in `candidates` that holds `d`.
pub open spec fn selects(candidates: Seq<Shape>, d: Shape, at: int) -> bool {
    &&& 0 <= at < candidates.len()
    &&& candidates[at] == d
    &&& forall|j: int| 0 <= j < at ==> candidates[j] != d
}

/// No type is declared twice.
pub open spec fn disjoint(candidates: Seq<Shape>) -> bool {
    forall|i: int, j: int|
        0 <= i < j < candidates.len() ==> candidates[i] != candidates[j]
}

/// The shapes of a list of leaf types.
pub open spec fn leaves(items: Seq<Primitive>) -> Seq<Shape> {
    items.map_values(|p: Primitive| Shape::Primitive(p))
}

/// The floating-point types, in declaration order.
pub open spec fn floats_spec() -> Seq<Primitive> {
    seq![Primitive::F32, Primitive::F64]
}

/// The integer types, in declaration order.
pub open spec fn integers_spec() -> Seq<Primitive> {
    seq![
        Primitive::U8,
        Primitive::U16,
        Primitive::U32,
        Primitive::U64,
        Primitive::U128,
        Primitive::I8,
        Primitive::I16,
        Primitive::I32,
        Primitive::I64,
        Primitive::I128,
        Primitive::Usize,
    ]
}

/// The types that can key a map: the integers, `bool` and `String`.
pub open spec fn hashable_spec() -> Seq<Primitive> {
    integers_spec() + seq![Primitive::Bool, Primitive::String]
}

/// Every leaf type: the integers, the floats, `bool` and `String`.
pub open spec fn primitives_spec() -> Seq<Primitive> {
    integers_spec() + floats_spec() + seq![Primitive::Bool, Primitive::String]
}

fn leaf_set(items: Vec<Primitive>) -> (r: CandidateSet)
    ensures
        r@ == leaves(items@),
{
    let mut types: Vec<Type> = Vec::new();
    let mut i: usize = 0;
    while i < items.len()
        invariant
            0 <= i <= items.len(),
            types.len() == i,
            forall|j: int| 0 <= j < i ==> types[j]@ == Shape::Primitive(items[j]),
        decreases items.len() - i,
    {
        types.push(Type::primitive(items[i]));
        i = i + 1;
    }
    proof {
        lemma_shapes(types@);
        assert(shapes(types@) =~= leaves(items@));
    }
    CandidateSet { types }
}

fn integer_list() -> (r: Vec<Primitive>)
    ensures
        r@ == integers_spec(),
{
    let mut items: Vec<Primitive> = Vec::new();
    items.push(Primitive::U8);
    items.push(Primitive::U16);
    items.push(Primitive::U32);
    items.push(Primitive::U64);
    items.push(Primitive::U128);
    items.push(Primitive::I8);
    items.push(Primitive::I16);
    items.push(Primitive::I32);
    items.push(Primitive::I64);
    items.push(Primitive::I128);
    items.push(Primitive::Usize);
    assert(items@ =~= integers_spec());
    items
}

impl CandidateSet {
    /// The set of the given types, in the given order.
    pub fn of(types: Vec<Type>) -> (r: CandidateSet)
        ensures
            r@ == shapes(types@),
    {
        CandidateSet { types }
    }

    /// The set of the given leaf types, in the given order.
    pub fn of_primitives(items: Vec<Primitive>) -> (r: CandidateSet)
        ensures
            r@ == leaves(items@),
    {
        leaf_set(items)
    }

    /// The floating-point types.
    pub fn floats() -> (r: CandidateSet)
        ensures
            r@ == leaves(floats_spec()),
    {
        let mut items: Vec<Primitive> = Vec::new();
        items.push(Primitive::F32);
        items.push(Primitive::F64);
        assert(items@ =~= floats_spec());
        leaf_set(items)
    }

    /// The integer types.
    pub fn integers() -> (r: CandidateSet)
        ensures
            r@ == leaves(integers_spec()),
    {
        leaf_set(integer_list())
    }

    /// The types that can key a map.
    pub fn hashable() -> (r: CandidateSet)
        ensures
            r@ == leaves(hashable_spec()),
    {
        let mut items = integer_list();
        items.push(Primitive::Bool);
        items.push(Primitive::String);
        assert(items@ =~= hashable_spec());
        leaf_set(items)
    }

    /// Every leaf type.
    pub fn primitives() -> (r: CandidateSet)
        ensures
            r@ == leaves(primitives_spec()),
    {
        let mut items = integer_list();
        items.push(Primitive::F32);
        items.push(Primitive::F64);
        items.push(Primitive::Bool);
        items.push(Primitive::String);
        assert(items@ =~= primitives_spec());
        leaf_set(items)
    }

    /// The declared types, in declaration order.
    pub fn types(&self) -> (r: &Vec<Type>)
        ensures
            shapes(r@) == self@,
    {
        &self.types
    }

    /// Whether the set declares `d`.
    pub fn contains(&self, d: &Type) -> (r: bool)
        ensures
            r == self@.contains(d@),
    {
        self.position(d).is_some()
    }

    /// The first place in the set that holds `d`.
    pub fn position(&self, d: &Type) -> (r: Option<usize>)
        ensures
            match r {
                Some(at) => selects(self@, d@, at as int),
                None => !self@.contains(d@),
            },
    {
        proof {
            lemma_shapes(self.types@);
        }
        let mut i: usize = 0;
        while i < self.types.len()
            invariant
                0 <= i <= self.types.len(),
                self@.len() == self.types.len(),
                forall|j: int| 0 <= j < self.types.len() ==> (#[trigger] self@[j]) == self.types[j]@,
                forall|j: int| 0 <= j < i ==> self@[j] != d@,
            decreases self.types.len() - i,
        {
            if self.types[i].equals(d) {
                return Some(i);
            }
            i = i + 1;
        }
        None
    }

    /// The leaf type that `d` names, where the set declares it.
    pub fn leaf(&self, d: &Type) -> (r: Option<Primitive>)
        ensures
            match r {
                Some(p) => d@ == Shape::Primitive(p) && self@.contains(d@),
                None => !(d@ is Primitive && self@.contains(d@)),
            },
    {
        if self.contains(d) {
            d.as_primitive()
        } else {
            None
        }
    }

    /// Single-axis dispatch over leaf types: the leaf type that `d` names,
    /// where the set declares it.
    pub fn dispatch_leaf(&self, d: &Type, operation: &str) -> (r: Fallible<Primitive>)
        ensures
            match r {
                Ok(p) => d@ == Shape::Primitive(p) && self@.contains(d@),
                Err(e) => !(d@ is Primitive && self@.contains(d@)) && e@ == (
                ErrorView::DispatchNotSupported { descriptor: d@, operation: operation@ }),
            },
    {
        match self.leaf(d) {
            Some(p) => Ok(p),
            None => Err(
                Error::DispatchNotSupported {
                    descriptor: d.clone(),
                    operation: String::from_str(operation),
                },
            ),
        }
    }

    /// Single-axis dispatch: the candidates are scanned in declaration
    /// order and the first that equals `d` is selected. Where none does,
    /// the error names `d` and the operation.
    pub fn dispatch(&self, d: &Type, operation: &str) -> (r: Fallible<usize>)
        ensures
            match r {
                Ok(at) => selects(self@, d@, at as int),
                Err(e) => !self@.contains(d@) && e@ == (ErrorView::DispatchNotSupported {
                    descriptor: d@,
                    operation: operation@,
                }),
            },
    {
        match self.position(d) {
            Some(at) => Ok(at),
            None => Err(
                Error::DispatchNotSupported {
                    descriptor: d.clone(),
                    operation: String::from_str(operation),
                },
            ),
        }
    }
}

/// Two-axis dispatch, outer axis first: `d1` is matched against `first`,
/// and only then `d2` against `second`. The error names the descriptor of
/// the first axis that found no match.
pub fn dispatch2(
    first: &CandidateSet,
    d1: &Type,
    second: &CandidateSet,
    d2: &Type,
    operation: &str,
) -> (r: Fallible<(usize, usize)>)
    ensures
        match r {
            Ok((i, j)) => selects(first@, d1@, i as int) && selects(second@, d2@, j as int),
            Err(e) => if !first@.contains(d1@) {
                e@ == (ErrorView::DispatchNotSupported { descriptor: d1@, operation: operation@ })
            } else {
                !second@.contains(d2@) && e@ == (ErrorView::DispatchNotSupported {
                    descriptor: d2@,
                    operation: operation@,
                })
            },
        },
{
    match first.dispatch(d1, operation) {
        Ok(i) => match second.dispatch(d2, operation) {
            Ok(j) => Ok((i, j)),
            Err(e) => Err(e),
        },
        Err(e) => Err(e),
    }
}

/// Where no type is declared twice, each declared type selects its own
/// place, and no descriptor selects two places.
pub proof fn lemma_dispatch_coverage(candidates: Seq<Shape>, at: int)
    requires
        disjoint(candidates),
        0 <= at < candidates.len(),
    ensures
        selects(candidates, candidates[at], at),
        forall|other: int| selects(candidates, candidates[at], other) ==> other == at,
{
}

/// A descriptor selects a place exactly when the set declares it, and
/// then exactly one place.
pub proof fn lemma_dispatch_total(candidates: Seq<Shape>, d: Shape)
    ensures
        candidates.contains(d) <==> exists|at: int| selects(candidates, d, at),
        forall|i: int, j: int| selects(candidates, d, i) && selects(candidates, d, j) ==> i == j,
    decreases candidates.len(),
{
    if candidates.contains(d) {
        let k = choose|k: int| 0 <= k < candidates.len() && candidates[k] == d;
        lemma_first_place(candidates, d, k);
    }
}

/// Below any place that holds `d` there is a first one.
proof fn lemma_first_place(candidates: Seq<Shape>, d: Shape, k: int)
    requires
        0 <= k < candidates.len(),
        candidates[k] == d,
    ensures
        exists|at: int| selects(candidates, d, at),
    decreases k,
{
    if exists|j: int| 0 <= j < k && candidates[j] == d {
        let j = choose|j: int| 0 <= j < k && candidates[j] == d;
        lemma_first_place(candidates, d, j);
    } else {
        assert(selects(candidates, d, k));
    }
}


/// A set of leaf types declares a descriptor exactly when the descriptor
/// is one of its leaf types.
pub proof fn lemma_leaves_contains(items: Seq<Primitive>, d: Shape)
    ensures
        leaves(items).contains(d) <==> (d matches Shape::Primitive(p) && items.contains(p)),
{
    if leaves(items).contains(d) {
        let i = choose|i: int| 0 <= i < leaves(items).len() && leaves(items)[i] == d;
        assert(items[i] == d->Primitive_0);
    }
    if d matches Shape::Primitive(p) && items.contains(p) {
        let i = choose|i: int| 0 <= i < items.len() && items[i] == d->Primitive_0;
        assert(leaves(items)[i] == d);
    }
}

/// Which leaf types each of the declared sets holds.
pub proof fn lemma_declared_sets(p: Primitive)
    ensures
        floats_spec().contains(p) <==> p.is_float(),
        integers_spec().contains(p) <==> p.is_integer(),
        hashable_spec().contains(p) <==> !p.is_float(),
        primitives_spec().contains(p),
        seq![Primitive::Bool, Primitive::String].contains(p) <==> (!p.is_float()
            && !p.is_integer()),
{
    let simple = seq![Primitive::Bool, Primitive::String];
    match p {
        Primitive::U8 => {
            assert(integers_spec()[0] == p);
        },
        Primitive::U16 => {
            assert(integers_spec()[1] == p);
        },
        Primitive::U32 => {
            assert(integers_spec()[2] == p);
        },
        Primitive::U64 => {
            assert(integers_spec()[3] == p);
        },
        Primitive::U128 => {
            assert(integers_spec()[4] == p);
        },
        Primitive::I8 => {
            assert(integers_spec()[5] == p);
        },
        Primitive::I16 => {
            assert(integers_spec()[6] == p);
        },
        Primitive::I32 => {
            assert(integers_spec()[7] == p);
        },
        Primitive::I64 => {
            assert(integers_spec()[8] == p);
        },
        Primitive::I128 => {
            assert(integers_spec()[9] == p);
        },
        Primitive::Usize => {
            assert(integers_spec()[10] == p);
        },
        Primitive::F32 => {
            assert(floats_spec()[0] == p);
        },
        Primitive::F64 => {
            assert(floats_spec()[1] == p);
        },
        Primitive::Bool => {
            assert(simple[0] == p);
        },
        Primitive::String => {
            assert(simple[1] == p);
        },
    }
    if p.is_integer() {
        assert(integers_spec().contains(p));
        let i = choose|i: int| 0 <= i < integers_spec().len() && integers_spec()[i] == p;
        assert(hashable_spec()[i] == p);
        assert(primitives_spec()[i] == p);
    } else if p.is_float() {
        let i = choose|i: int| 0 <= i < floats_spec().len() && floats_spec()[i] == p;
        assert(primitives_spec()[11 + i] == p);
    } else {
        let i = choose|i: int| 0 <= i < simple.len() && simple[i] == p;
        assert(hashable_spec()[11 + i] == p);
        assert(primitives_spec()[13 + i] == p);
    }
}

/// The declared sets declare no type twice.
pub proof fn lemma_declared_sets_disjoint()
    ensures
        disjoint(leaves(floats_spec())),
        disjoint(leaves(integers_spec())),
        disjoint(leaves(hashable_spec())),
        disjoint(leaves(primitives_spec())),
{
}

} // verus!
