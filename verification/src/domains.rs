//! Domains: sets of values, and the handle that carries one.
use crate::any::{check_type, downcast_spec, AnyObject};
use crate::error::{occurs_in, Error, ErrorView, Fallible};
use crate::types::{Primitive, Shape, Type};
use crate::value::{atom_views, pair_views, Atom, AtomView, Repr, Value, ValueView};
use vstd::prelude::*;

pub mod ffi;

verus! {

/// A closed interval of numbers of one type.
#[derive(Debug)]
pub struct Bounds {
    pub lower: Atom,
    pub upper: Atom,
}

/// The mathematical form of an interval.
pub struct BoundsView {
    pub lower: AtomView,
    pub upper: AtomView,
}

impl View for Bounds {
    type V = BoundsView;

    open spec fn view(&self) -> BoundsView {
        BoundsView { lower: self.lower@, upper: self.upper@ }
    }
}

impl BoundsView {
    /// Both ends are numbers of one type, and the lower end is not
    /// greater than the upper.
    pub open spec fn wf(self) -> bool {
        self.lower.is_number() && self.lower.primitive() == self.upper.primitive()
            && !self.upper.lt(self.lower)
    }

    pub open spec fn member(self, a: AtomView) -> bool {
        self.lower.le(a) && a.le(self.upper)
    }
}

/// What making a closed interval from `lower` and `upper` gives.
pub open spec fn new_closed_spec(lower: AtomView, upper: AtomView) -> Result<
    BoundsView,
    ErrorView,
> {
    if !lower.is_number() {
        Err(
            ErrorView::DomainConstructionError {
                reason: lower.primitive().name_spec() + " cannot be bounded"@,
            },
        )
    } else if lower.primitive() != upper.primitive() {
        Err(
            ErrorView::TypeMismatch {
                expected: Shape::Primitive(lower.primitive()),
                actual: Shape::Primitive(upper.primitive()),
            },
        )
    } else if upper.lt(lower) {
        Err(
            ErrorView::DomainConstructionError {
                reason: "lower bound may not be greater than upper bound: "@
                    + lower.primitive().name_spec(),
            },
        )
    } else {
        Ok(BoundsView { lower, upper })
    }
}

/// Whatever refuses an interval names the type of its lower end.
pub proof fn lemma_bounds_errors_name_the_type(lower: AtomView, upper: AtomView)
    ensures
        new_closed_spec(lower, upper) matches Err(e) ==> occurs_in(
            lower.primitive().name_spec(),
            e.message(),
        ),
{
    let name = lower.primitive().name_spec();
    if new_closed_spec(lower, upper) is Err {
        let m = new_closed_spec(lower, upper)->Err_0.message();
        if !lower.is_number() {
            let at = 0int;
            assert(m.subrange(at, at + name.len()) =~= name);
        } else if lower.primitive() != upper.primitive() {
            let at = "expected data of type "@.len() as int;
            assert(m.subrange(at, at + name.len()) =~= name);
        } else {
            let at = "lower bound may not be greater than upper bound: "@.len() as int;
            assert(m.subrange(at, at + name.len()) =~= name);
        }
    }
}

fn is_number(p: Primitive) -> (r: bool)
    ensures
        r == (p.is_float() || p.is_integer()),
{
    match p {
        Primitive::Bool => false,
        Primitive::String => false,
        _ => true,
    }
}

impl Bounds {
    /// The closed interval from `lower` to `upper`. It is refused where
    /// the lower end is greater than the upper, with a reason that names
    /// the type.
    pub fn new_closed(lower: Atom, upper: Atom) -> (r: Fallible<Bounds>)
        ensures
            match r {
                Ok(b) => new_closed_spec(lower@, upper@) == Ok::<BoundsView, ErrorView>(b@)
                    && b@.wf(),
                Err(e) => new_closed_spec(lower@, upper@) == Err::<BoundsView, ErrorView>(e@),
            },
    {
        if !is_number(lower.primitive()) {
            let reason = String::from_str(lower.primitive().name()).concat(" cannot be bounded");
            Err(Error::DomainConstructionError { reason })
        } else if lower.primitive() != upper.primitive() {
            Err(
                Error::TypeMismatch {
                    expected: Type::primitive(lower.primitive()),
                    actual: Type::primitive(upper.primitive()),
                },
            )
        } else if upper.lt(&lower) {
            let reason = String::from_str(
                "lower bound may not be greater than upper bound: ",
            ).concat(lower.primitive().name());
            Err(Error::DomainConstructionError { reason })
        } else {
            Ok(Bounds { lower, upper })
        }
    }

    pub fn member(&self, a: &Atom) -> (r: bool)
        ensures
            r == self@.member(a@),
    {
        self.lower.le(a) && a.le(&self.upper)
    }
}

impl Clone for Bounds {
    fn clone(&self) -> (r: Bounds)
        ensures
            r@ == self@,
    {
        Bounds { lower: self.lower.clone(), upper: self.upper.clone() }
    }
}

/// The domain of the values of one leaf type, optionally bounded, and
/// optionally holding the null of the type.
#[derive(Debug)]
pub struct AtomDomain {
    pub atom: Primitive,
    pub bounds: Option<Bounds>,
    pub nullable: bool,
}

/// The mathematical form of an atom domain.
pub struct AtomDomainView {
    pub atom: Primitive,
    pub bounds: Option<BoundsView>,
    pub nullable: bool,
}

impl View for AtomDomain {
    type V = AtomDomainView;

    open spec fn view(&self) -> AtomDomainView {
        AtomDomainView {
            atom: self.atom,
            bounds: match self.bounds {
                Some(b) => Some(b@),
                None => None,
            },
            nullable: self.nullable,
        }
    }
}

impl AtomDomainView {
    /// Bounds are of the domain's own type, and only a float can be null.
    pub open spec fn wf(self) -> bool {
        &&& self.bounds matches Some(b) ==> b.wf() && b.lower.primitive() == self.atom
        &&& self.nullable ==> self.atom.is_float()
    }

    /// The descriptor of the domain's type: `AtomDomain<T>`.
    pub open spec fn type_shape(self) -> Shape {
        Shape::Generic("AtomDomain"@, seq![Shape::Primitive(self.atom)])
    }

    /// An atom belongs to the domain when it is of the domain's type, lies
    /// within the bounds, and is not null unless the domain is nullable.
    pub open spec fn member(self, a: AtomView) -> bool {
        &&& a.primitive() == self.atom
        &&& self.bounds matches Some(b) ==> b.member(a)
        &&& !self.nullable ==> !a.is_null()
    }
}

impl Clone for AtomDomain {
    fn clone(&self) -> (r: AtomDomain)
        ensures
            r@ == self@,
    {
        AtomDomain {
            atom: self.atom,
            bounds: match &self.bounds {
                Some(b) => Some(b.clone()),
                None => None,
            },
            nullable: self.nullable,
        }
    }
}

impl AtomDomain {
    /// The descriptor `AtomDomain<T>`.
    pub fn type_of(&self) -> (t: Type)
        ensures
            t@ == self@.type_shape(),
    {
        Type::generic1("AtomDomain", Type::primitive(self.atom))
    }

    pub fn member(&self, a: &Atom) -> (r: bool)
        ensures
            r == self@.member(a@),
    {
        if a.primitive() != self.atom {
            return false;
        }
        match &self.bounds {
            Some(b) => {
                if !b.member(a) {
                    return false;
                }
            },
            None => {},
        }
        if !self.nullable && a.is_null() {
            return false;
        }
        true
    }
}


/// The domains the boundary can build.
#[derive(Debug)]
pub enum Domain {
    /// The values of a leaf type.
    Atom(AtomDomain),
    /// The optional values of a leaf type.
    Optional(AtomDomain),
    /// The vectors over an atom domain, of any length or of one length.
    Vector { element: AtomDomain, size: Option<usize> },
    /// The maps from one atom domain to another.
    Mapping { key: AtomDomain, value: AtomDomain },
}

/// The mathematical form of a domain.
pub enum DomainView {
    Atom(AtomDomainView),
    Optional(AtomDomainView),
    Vector { element: AtomDomainView, size: Option<nat> },
    Mapping { key: AtomDomainView, value: AtomDomainView },
}

impl View for Domain {
    type V = DomainView;

    open spec fn view(&self) -> DomainView {
        match self {
            Domain::Atom(d) => DomainView::Atom(d@),
            Domain::Optional(d) => DomainView::Optional(d@),
            Domain::Vector { element, size } => DomainView::Vector {
                element: element@,
                size: match size {
                    Some(n) => Some(*n as nat),
                    None => None,
                },
            },
            Domain::Mapping { key, value } => DomainView::Mapping { key: key@, value: value@ },
        }
    }
}

impl DomainView {
    pub open spec fn wf(self) -> bool {
        match self {
            DomainView::Atom(d) => d.wf(),
            DomainView::Optional(d) => d.wf(),
            DomainView::Vector { element, .. } => element.wf(),
            DomainView::Mapping { key, value } => key.wf() && value.wf(),
        }
    }

    /// The descriptor of the domain's own type.
    pub open spec fn type_shape(self) -> Shape {
        match self {
            DomainView::Atom(d) => d.type_shape(),
            DomainView::Optional(d) => Shape::Generic("OptionDomain"@, seq![d.type_shape()]),
            DomainView::Vector { element, .. } => Shape::Generic(
                "VectorDomain"@,
                seq![element.type_shape()],
            ),
            DomainView::Mapping { key, value } => Shape::Generic(
                "MapDomain"@,
                seq![key.type_shape(), value.type_shape()],
            ),
        }
    }

    /// The descriptor of the type of the domain's members.
    pub open spec fn carrier_shape(self) -> Shape {
        match self {
            DomainView::Atom(d) => Shape::Primitive(d.atom),
            DomainView::Optional(d) => Shape::Generic("Option"@, seq![Shape::Primitive(d.atom)]),
            DomainView::Vector { element, .. } => Shape::Generic(
                "Vec"@,
                seq![Shape::Primitive(element.atom)],
            ),
            DomainView::Mapping { key, value } => Shape::Generic(
                "HashMap"@,
                seq![Shape::Primitive(key.atom), Shape::Primitive(value.atom)],
            ),
        }
    }

    /// Whether a value belongs to the domain.
    pub open spec fn member(self, v: ValueView) -> bool {
        match (self, v) {
            (DomainView::Atom(d), ValueView::Atom(a)) => d.member(a),
            (DomainView::Optional(d), ValueView::Optional(_, item)) => item matches Some(a)
                ==> d.member(a),
            (DomainView::Vector { element, size }, ValueView::Vector(_, items)) => {
                &&& forall|i: int| 0 <= i < items.len() ==> element.member(#[trigger] items[i])
                &&& size matches Some(n) ==> items.len() == n
            },
            (DomainView::Mapping { key, value }, ValueView::Table(_, _, entries)) => forall|
                i: int,
            |
                0 <= i < entries.len() ==> key.member((#[trigger] entries[i]).0) && value.member(
                    entries[i].1,
                ),
            _ => false,
        }
    }
}

impl Clone for Domain {
    fn clone(&self) -> (r: Domain)
        ensures
            r@ == self@,
    {
        match self {
            Domain::Atom(d) => Domain::Atom(d.clone()),
            Domain::Optional(d) => Domain::Optional(d.clone()),
            Domain::Vector { element, size } => Domain::Vector {
                element: element.clone(),
                size: *size,
            },
            Domain::Mapping { key, value } => Domain::Mapping {
                key: key.clone(),
                value: value.clone(),
            },
        }
    }
}

impl Domain {
    /// The descriptor of the domain's own type.
    pub fn type_of(&self) -> (t: Type)
        ensures
            t@ == self@.type_shape(),
    {
        match self {
            Domain::Atom(d) => d.type_of(),
            Domain::Optional(d) => Type::generic1("OptionDomain", d.type_of()),
            Domain::Vector { element, .. } => Type::generic1("VectorDomain", element.type_of()),
            Domain::Mapping { key, value } => Type::generic2(
                "MapDomain",
                key.type_of(),
                value.type_of(),
            ),
        }
    }

    /// The descriptor of the type of the domain's members.
    pub fn carrier_type_of(&self) -> (t: Type)
        ensures
            t@ == self@.carrier_shape(),
    {
        match self {
            Domain::Atom(d) => Type::primitive(d.atom),
            Domain::Optional(d) => Type::generic1("Option", Type::primitive(d.atom)),
            Domain::Vector { element, .. } => Type::generic1("Vec", Type::primitive(element.atom)),
            Domain::Mapping { key, value } => Type::generic2(
                "HashMap",
                Type::primitive(key.atom),
                Type::primitive(value.atom),
            ),
        }
    }

    /// Whether a value belongs to the domain.
    #[verifier::loop_isolation(false)]
    pub fn member(&self, v: &Value) -> (r: bool)
        ensures
            r == self@.member(v@),
    {
        match (self, v.repr()) {
            (Domain::Atom(d), Repr::Atom(a)) => d.member(a),
            (Domain::Optional(d), Repr::Optional(_, item)) => match item {
                Some(a) => d.member(a),
                None => true,
            },
            (Domain::Vector { element, size }, Repr::Vector(_, items)) => {
                let mut i: usize = 0;
                while i < items.len()
                    invariant
                        0 <= i <= items.len(),
                        forall|j: int| 0 <= j < i ==> element@.member(#[trigger] items@[j]@),
                    decreases items.len() - i,
                {
                    if !element.member(&items[i]) {
                        assert(!element@.member(atom_views(items@)[i as int]));
                        return false;
                    }
                    i = i + 1;
                }
                assert forall|j: int| 0 <= j < items.len() implies element@.member(
                    #[trigger] atom_views(items@)[j],
                ) by {
                    assert(element@.member(items@[j]@));
                }
                match size {
                    Some(n) => items.len() == *n,
                    None => true,
                }
            },
            (Domain::Mapping { key, value }, Repr::Table(_, _, entries)) => {
                let mut i: usize = 0;
                while i < entries.len()
                    invariant
                        0 <= i <= entries.len(),
                        forall|j: int|
                            0 <= j < i ==> key@.member((#[trigger] entries@[j]).0@)
                                && value@.member(entries@[j].1@),
                    decreases entries.len() - i,
                {
                    if !key.member(&entries[i].0) || !value.member(&entries[i].1) {
                        assert(pair_views(entries@)[i as int] == (
                            entries@[i as int].0@,
                            entries@[i as int].1@,
                        ));
                        return false;
                    }
                    i = i + 1;
                }
                assert forall|j: int| 0 <= j < entries.len() implies key@.member(
                    (#[trigger] pair_views(entries@)[j]).0,
                ) && value@.member(pair_views(entries@)[j].1) by {
                    assert(key@.member(entries@[j].0@));
                }
                true
            },
            _ => false,
        }
    }
}

/// A domain behind a handle, with the descriptors of its own type and of
/// the type of its members.
#[derive(Debug)]
pub struct AnyDomain {
    type_: Type,
    carrier_type: Type,
    domain: Domain,
}

impl View for AnyDomain {
    type V = DomainView;

    closed spec fn view(&self) -> DomainView {
        self.domain@
    }
}

/// Whether `val` belongs to `domain`, once `val` is known to be of the
/// type of the domain's members.
pub open spec fn member_spec(domain: DomainView, val: ValueView) -> Result<bool, ErrorView> {
    match downcast_spec(val.type_shape(), domain.carrier_shape(), val) {
        Ok(v) => Ok(domain.member(v)),
        Err(e) => Err(e),
    }
}

impl AnyDomain {
    #[verifier::type_invariant]
    spec fn inv(self) -> bool {
        &&& self.domain@.wf()
        &&& self.type_@ == self.domain@.type_shape()
        &&& self.carrier_type@ == self.domain@.carrier_shape()
    }

    /// Wraps a domain with its two descriptors.
    pub(crate) fn new(domain: Domain) -> (r: AnyDomain)
        requires
            domain@.wf(),
        ensures
            r@ == domain@,
    {
        let type_ = domain.type_of();
        let carrier_type = domain.carrier_type_of();
        AnyDomain { type_, carrier_type, domain }
    }

    /// The descriptor of the domain's own type.
    pub fn type_(&self) -> (t: &Type)
        ensures
            t@ == self@.type_shape(),
            self@.wf(),
    {
        proof {
            use_type_invariant(self);
        }
        &self.type_
    }

    /// The descriptor of the type of the domain's members.
    pub fn carrier_type(&self) -> (t: &Type)
        ensures
            t@ == self@.carrier_shape(),
            self@.wf(),
    {
        proof {
            use_type_invariant(self);
        }
        &self.carrier_type
    }

    /// Borrows the domain as the type `expected`, which must equal the
    /// stored descriptor.
    pub fn downcast_ref(&self, expected: &Type) -> (r: Fallible<&Domain>)
        ensures
            self@.wf(),
            match r {
                Ok(d) => downcast_spec(self@.type_shape(), expected@, self@) == Ok::<
                    DomainView,
                    ErrorView,
                >(d@),
                Err(e) => downcast_spec(self@.type_shape(), expected@, self@) == Err::<
                    DomainView,
                    ErrorView,
                >(e@),
            },
    {
        proof {
            use_type_invariant(self);
        }
        match check_type(&self.type_, expected) {
            Ok(_) => Ok(&self.domain),
            Err(e) => Err(e),
        }
    }

    /// Whether the value behind `val` belongs to the domain. A value of
    /// another type than the domain's members is an error.
    pub fn member(&self, val: &AnyObject) -> (r: Fallible<bool>)
        ensures
            match r {
                Ok(b) => member_spec(self@, val@) == Ok::<bool, ErrorView>(b),
                Err(e) => member_spec(self@, val@) == Err::<bool, ErrorView>(e@),
            },
    {
        proof {
            use_type_invariant(self);
        }
        match val.downcast_ref(&self.carrier_type) {
            Ok(v) => Ok(self.domain.member(v)),
            Err(e) => Err(e),
        }
    }

    /// The text that describes the handle: both descriptors.
    pub fn debug_text(&self) -> (r: String)
        ensures
            r@ == debug_spec(self@),
    {
        proof {
            use_type_invariant(self);
        }
        let mut out = String::from_str("AnyDomain(");
        out.append(self.type_.to_text().as_str());
        out.append(", carrier=");
        out.append(self.carrier_type.to_text().as_str());
        out.append(")");
        out
    }
}

/// The text that describes a domain handle.
pub open spec fn debug_spec(domain: DomainView) -> Seq<char> {
    "AnyDomain("@ + domain.type_shape().text() + ", carrier="@ + domain.carrier_shape().text()
        + ")"@
}

} // verus!
