//! The boundary's entry points for domains.
use crate::any::AnyObject;
use crate::dispatch::{
    floats_spec, hashable_spec, integers_spec, lemma_declared_sets, lemma_leaves_contains,
    primitives_spec, CandidateSet,
};
use crate::domains::{
    debug_spec, lemma_bounds_errors_name_the_type, member_spec, new_closed_spec, AnyDomain, AtomDomain, AtomDomainView, Bounds,
    BoundsView, Domain, DomainView,
};
use crate::error::{occurs_in, Error, ErrorView, Fallible, FfiResult};
use crate::parse::parse_spec;
use crate::types::{Primitive, Shape, Type};
use crate::util::{c_bool, from_bool, into_owned, text_of, to_bool, to_str, try_as_ref, view_of};
use crate::value::{Atom, AtomView, Repr, ValueView};
use vstd::prelude::*;

verus! {

/// The descriptor of a pair of two values of one leaf type.
pub open spec fn pair_shape(p: Primitive) -> Shape {
    Shape::Tuple(seq![Shape::Primitive(p), Shape::Primitive(p)])
}

/// The interval that an optional bounds argument asks for: none where the
/// argument is absent; otherwise the argument must be a pair `(T,T)` whose
/// first member is not greater than its second.
pub open spec fn bounds_spec(p: Primitive, bounds: Option<ValueView>) -> Result<
    Option<BoundsView>,
    ErrorView,
> {
    match bounds {
        None => Ok(None),
        Some(v) => match v {
            ValueView::Pair(lower, upper) => if v.type_shape() == pair_shape(p) {
                match new_closed_spec(lower, upper) {
                    Ok(b) => Ok(Some(b)),
                    Err(e) => Err(e),
                }
            } else {
                Err(ErrorView::TypeMismatch { expected: pair_shape(p), actual: v.type_shape() })
            },
            _ => Err(ErrorView::TypeMismatch { expected: pair_shape(p), actual: v.type_shape() }),
        },
    }
}

/// Reads an optional bounds argument for a domain of the numbers of type
/// `p`.
fn read_bounds(p: Primitive, bounds: Option<&AnyObject>) -> (r: Fallible<Option<Bounds>>)
    requires
        p.is_float() || p.is_integer(),
    ensures
        match r {
            Ok(b) => bounds_spec(p, view_of(bounds)) == Ok::<Option<BoundsView>, ErrorView>(
                match b {
                    Some(b) => Some(b@),
                    None => None,
                },
            ) && (b matches Some(b) ==> b@.wf() && b@.lower.primitive() == p),
            Err(e) => bounds_spec(p, view_of(bounds)) == Err::<Option<BoundsView>, ErrorView>(e@),
        },
{
    match bounds {
        None => Ok(None),
        Some(object) => {
            let expected = Type::pair(Type::primitive(p), Type::primitive(p));
            match object.downcast_ref(&expected) {
                Err(e) => Err(e),
                Ok(value) => match value.repr() {
                    Repr::Pair(lower, upper) => match Bounds::new_closed(
                        lower.clone(),
                        upper.clone(),
                    ) {
                        Ok(b) => Ok(Some(b)),
                        Err(e) => Err(e),
                    },
                    _ => {
                        proof {
                            lemma_tuples_are_pairs();
                        }
                        Err(
                            Error::TypeMismatch { expected, actual: object.type_().clone() },
                        )
                    },
                },
            }
        },
    }
}

/// A value whose type is a tuple is a pair.
proof fn lemma_tuples_are_pairs()
    ensures
        forall|v: ValueView| v.type_shape() is Tuple ==> v is Pair,
{
}

/// The domain of the floats of type `p`.
pub open spec fn float_domain_spec(p: Primitive, bounds: Option<ValueView>, nullable: bool)
    -> Result<DomainView, ErrorView> {
    match bounds_spec(p, bounds) {
        Err(e) => Err(e),
        Ok(b) => Ok(DomainView::Atom(AtomDomainView { atom: p, bounds: b, nullable })),
    }
}

/// The domain of the integers of type `p`: no integer is null.
pub open spec fn integer_domain_spec(p: Primitive, bounds: Option<ValueView>, nullable: bool)
    -> Result<DomainView, ErrorView> {
    match bounds_spec(p, bounds) {
        Err(e) => Err(e),
        Ok(b) => if nullable {
            Err(
                ErrorView::DomainConstructionError {
                    reason: "integers cannot be null: "@ + p.name_spec(),
                },
            )
        } else {
            Ok(DomainView::Atom(AtomDomainView { atom: p, bounds: b, nullable: false }))
        },
    }
}

/// The domain of the values of a type that is no number: it takes no
/// bounds and holds no null.
pub open spec fn simple_domain_spec(p: Primitive, bounds: Option<ValueView>, nullable: bool)
    -> Result<DomainView, ErrorView> {
    if bounds is Some {
        Err(
            ErrorView::DomainConstructionError {
                reason: p.name_spec() + " cannot be bounded"@,
            },
        )
    } else if nullable {
        Err(ErrorView::DomainConstructionError { reason: p.name_spec() + " cannot be null"@ })
    } else {
        Ok(DomainView::Atom(AtomDomainView { atom: p, bounds: None, nullable: false }))
    }
}

/// What `opendp_domains__atom_domain` returns.
pub open spec fn atom_domain_spec(
    bounds: Option<ValueView>,
    nullable: c_bool,
    descriptor: Option<Seq<char>>,
) -> Result<DomainView, ErrorView> {
    match descriptor {
        None => Err(ErrorView::NullArgument { argument: "T"@ }),
        Some(name) => match parse_spec(name) {
            None => Err(ErrorView::TypeParseError { text: name }),
            Some(t) => match t {
                Shape::Primitive(p) => if p.is_float() {
                    float_domain_spec(p, bounds, nullable != 0)
                } else if p.is_integer() {
                    integer_domain_spec(p, bounds, nullable != 0)
                } else {
                    simple_domain_spec(p, bounds, nullable != 0)
                },
                _ => Err(
                    ErrorView::DispatchNotSupported { descriptor: t, operation: "atom_domain"@ },
                ),
            },
        },
    }
}

/// Whatever refuses the construction of an atom domain gives a reason
/// that names the type.
pub proof fn lemma_reasons_name_the_type(p: Primitive, bounds: Option<ValueView>, nullable: bool)
    ensures
        float_domain_spec(p, bounds, nullable) matches Err(
            ErrorView::DomainConstructionError { reason },
        ) ==> occurs_in(p.name_spec(), reason),
        integer_domain_spec(p, bounds, nullable) matches Err(
            ErrorView::DomainConstructionError { reason },
        ) ==> occurs_in(p.name_spec(), reason),
        simple_domain_spec(p, bounds, nullable) matches Err(
            ErrorView::DomainConstructionError { reason },
        ) ==> occurs_in(p.name_spec(), reason),
{
    let name = p.name_spec();
    if bounds_spec(p, bounds) is Err && bounds_spec(p, bounds)->Err_0 is DomainConstructionError {
        let v = bounds->Some_0;
        assert(v.type_shape()->Tuple_0[0] == pair_shape(p)->Tuple_0[0]);
        lemma_bounds_errors_name_the_type(v->Pair_0, v->Pair_1);
    }
    if bounds_spec(p, bounds) is Ok && integer_domain_spec(p, bounds, nullable) is Err {
        let reason = integer_domain_spec(p, bounds, nullable)->Err_0->DomainConstructionError_reason;
        let at = "integers cannot be null: "@.len() as int;
        assert(reason.subrange(at, at + name.len()) =~= name);
    }
    if simple_domain_spec(p, bounds, nullable) is Err {
        let reason = simple_domain_spec(p, bounds, nullable)->Err_0->DomainConstructionError_reason;
        let at = 0int;
        assert(reason.subrange(at, at + name.len()) =~= name);
    }
}

/// Builds an atom domain from arguments that have been checked.
fn atom_domain(atom: Primitive, bounds: Option<Bounds>, nullable: bool) -> (r: AtomDomain)
    ensures
        r.atom == atom,
        r.bounds == bounds,
        r.nullable == nullable,
{
    AtomDomain { atom, bounds, nullable }
}

fn monomorphize_float(p: Primitive, bounds: Option<&AnyObject>, nullable: bool) -> (r: Fallible<
    AnyDomain,
>)
    requires
        p.is_float(),
    ensures
        match r {
            Ok(d) => float_domain_spec(p, view_of(bounds), nullable) == Ok::<
                DomainView,
                ErrorView,
            >(d@),
            Err(e) => float_domain_spec(p, view_of(bounds), nullable) == Err::<
                DomainView,
                ErrorView,
            >(e@),
        },
{
    let bounds = match read_bounds(p, bounds) {
        Ok(b) => b,
        Err(e) => {
            return Err(e);
        },
    };
    Ok(AnyDomain::new(Domain::Atom(atom_domain(p, bounds, nullable))))
}

fn monomorphize_integer(p: Primitive, bounds: Option<&AnyObject>, nullable: bool) -> (r: Fallible<
    AnyDomain,
>)
    requires
        p.is_integer(),
    ensures
        match r {
            Ok(d) => integer_domain_spec(p, view_of(bounds), nullable) == Ok::<
                DomainView,
                ErrorView,
            >(d@),
            Err(e) => integer_domain_spec(p, view_of(bounds), nullable) == Err::<
                DomainView,
                ErrorView,
            >(e@),
        },
{
    let bounds = match read_bounds(p, bounds) {
        Ok(b) => b,
        Err(e) => {
            return Err(e);
        },
    };
    if nullable {
        let reason = String::from_str("integers cannot be null: ").concat(p.name());
        return Err(Error::DomainConstructionError { reason });
    }
    Ok(AnyDomain::new(Domain::Atom(atom_domain(p, bounds, false))))
}

fn monomorphize_simple(p: Primitive, bounds: Option<&AnyObject>, nullable: bool) -> (r: Fallible<
    AnyDomain,
>)
    requires
        !p.is_float(),
        !p.is_integer(),
    ensures
        match r {
            Ok(d) => simple_domain_spec(p, view_of(bounds), nullable) == Ok::<
                DomainView,
                ErrorView,
            >(d@),
            Err(e) => simple_domain_spec(p, view_of(bounds), nullable) == Err::<
                DomainView,
                ErrorView,
            >(e@),
        },
{
    if bounds.is_some() {
        let reason = String::from_str(p.name()).concat(" cannot be bounded");
        return Err(Error::DomainConstructionError { reason });
    }
    if nullable {
        let reason = String::from_str(p.name()).concat(" cannot be null");
        return Err(Error::DomainConstructionError { reason });
    }
    Ok(AnyDomain::new(Domain::Atom(atom_domain(p, None, false))))
}

/// Constructs an atom domain of the type that `T` names. The type is
/// looked up among the floats, then among the integers, then among `bool`
/// and `String`; each family has its own rules for bounds and nulls.
#[allow(non_snake_case)]
pub fn opendp_domains__atom_domain(
    bounds: Option<&AnyObject>,
    nullable: c_bool,
    T: Option<&str>,
) -> (r: FfiResult<AnyDomain>)
    ensures
        match r {
            FfiResult::Success(d) => atom_domain_spec(view_of(bounds), nullable, text_of(T))
                == Ok::<DomainView, ErrorView>(d@),
            FfiResult::Failure(e) => atom_domain_spec(view_of(bounds), nullable, text_of(T))
                == Err::<DomainView, ErrorView>(e@),
        },
{
    let name = match to_str(T, "T") {
        Ok(name) => name,
        Err(e) => {
            return FfiResult::Failure(e);
        },
    };
    let T = match Type::parse(name) {
        Ok(t) => t,
        Err(e) => {
            return FfiResult::Failure(e);
        },
    };
    let nullable = to_bool(nullable);
    let floats = CandidateSet::floats();
    let integers = CandidateSet::integers();
    let mut simple: Vec<Primitive> = Vec::new();
    simple.push(Primitive::Bool);
    simple.push(Primitive::String);
    assert(simple@ =~= seq![Primitive::Bool, Primitive::String]);
    let simple = CandidateSet::of_primitives(simple);
    proof {
        lemma_leaves_contains(floats_spec(), T@);
        lemma_leaves_contains(integers_spec(), T@);
        lemma_leaves_contains(seq![Primitive::Bool, Primitive::String], T@);
        if T@ is Primitive {
            lemma_declared_sets(T@->Primitive_0);
        }
    }
    let outcome = if let Some(p) = floats.leaf(&T) {
        monomorphize_float(p, bounds, nullable)
    } else if let Some(p) = integers.leaf(&T) {
        monomorphize_integer(p, bounds, nullable)
    } else {
        match simple.dispatch_leaf(&T, "atom_domain") {
            Ok(p) => monomorphize_simple(p, bounds, nullable),
            Err(e) => Err(e),
        }
    };
    FfiResult::from_fallible(outcome)
}


/// Frees the domain behind `this`: the handle is taken back and dropped.
pub fn opendp_domains___domain_free(this: Option<AnyDomain>) -> (r: FfiResult<()>)
    ensures
        match r {
            FfiResult::Success(_) => this is Some,
            FfiResult::Failure(e) => this is None && e@ == (ErrorView::NullArgument {
                argument: "this"@,
            }),
        },
{
    match into_owned(this, "this") {
        Ok(_) => FfiResult::Success(()),
        Err(e) => FfiResult::Failure(e),
    }
}

/// What `opendp_domains__member` returns.
pub open spec fn domain_member_spec(this: Option<DomainView>, val: Option<ValueView>) -> Result<
    c_bool,
    ErrorView,
> {
    match this {
        None => Err(ErrorView::NullArgument { argument: "this"@ }),
        Some(domain) => match val {
            None => Err(ErrorView::NullArgument { argument: "val"@ }),
            Some(v) => match member_spec(domain, v) {
                Ok(b) => Ok(
                    if b {
                        1u8
                    } else {
                        0u8
                    },
                ),
                Err(e) => Err(e),
            },
        },
    }
}

/// Checks whether the value behind `val` belongs to the domain behind
/// `this`. Neither is changed.
pub fn opendp_domains__member(this: Option<&AnyDomain>, val: Option<&AnyObject>) -> (r: FfiResult<
    c_bool,
>)
    ensures
        match r {
            FfiResult::Success(b) => domain_member_spec(view_of(this), view_of(val)) == Ok::<
                c_bool,
                ErrorView,
            >(b),
            FfiResult::Failure(e) => domain_member_spec(view_of(this), view_of(val)) == Err::<
                c_bool,
                ErrorView,
            >(e@),
        },
{
    let this = match try_as_ref(this, "this") {
        Ok(this) => this,
        Err(e) => {
            return FfiResult::Failure(e);
        },
    };
    let val = match try_as_ref(val, "val") {
        Ok(val) => val,
        Err(e) => {
            return FfiResult::Failure(e);
        },
    };
    let status = match this.member(val) {
        Ok(status) => status,
        Err(e) => {
            return FfiResult::Failure(e);
        },
    };
    FfiResult::Success(from_bool(status))
}

/// The text that describes the domain behind `this`.
pub fn opendp_domains__domain_debug(this: Option<&AnyDomain>) -> (r: FfiResult<String>)
    ensures
        match r {
            FfiResult::Success(text) => this matches Some(d) && text@ == debug_spec(d@),
            FfiResult::Failure(e) => this is None && e@ == (ErrorView::NullArgument {
                argument: "this"@,
            }),
        },
{
    let this = match try_as_ref(this, "this") {
        Ok(this) => this,
        Err(e) => {
            return FfiResult::Failure(e);
        },
    };
    FfiResult::Success(this.debug_text())
}

/// The canonical name of the type of the domain behind `this`.
pub fn opendp_domains__domain_type(this: Option<&AnyDomain>) -> (r: FfiResult<String>)
    ensures
        match r {
            FfiResult::Success(text) => this matches Some(d) && text@ == d@.type_shape().text(),
            FfiResult::Failure(e) => this is None && e@ == (ErrorView::NullArgument {
                argument: "this"@,
            }),
        },
{
    let this = match try_as_ref(this, "this") {
        Ok(this) => this,
        Err(e) => {
            return FfiResult::Failure(e);
        },
    };
    FfiResult::Success(this.type_().to_text())
}

/// The canonical name of the type of the members of the domain behind
/// `this`.
pub fn opendp_domains__domain_carrier_type(this: Option<&AnyDomain>) -> (r: FfiResult<String>)
    ensures
        match r {
            FfiResult::Success(text) => this matches Some(d) && text@
                == d@.carrier_shape().text(),
            FfiResult::Failure(e) => this is None && e@ == (ErrorView::NullArgument {
                argument: "this"@,
            }),
        },
{
    let this = match try_as_ref(this, "this") {
        Ok(this) => this,
        Err(e) => {
            return FfiResult::Failure(e);
        },
    };
    FfiResult::Success(this.carrier_type().to_text())
}

/// The descriptor `AtomDomain<T>`.
pub open spec fn atom_domain_shape(p: Primitive) -> Shape {
    Shape::Generic("AtomDomain"@, seq![Shape::Primitive(p)])
}

/// The descriptor `VectorDomain<AtomDomain<T>>`.
pub open spec fn vector_domain_shape(p: Primitive) -> Shape {
    Shape::Generic("VectorDomain"@, seq![atom_domain_shape(p)])
}

/// Only an atom domain has a type named `AtomDomain`.
pub proof fn lemma_domain_names(d: DomainView)
    ensures
        d.type_shape().has_name("AtomDomain"@) <==> d is Atom,
        forall|p: Primitive|
            d.type_shape() == atom_domain_shape(p) <==> (d matches DomainView::Atom(a) && a.atom
                == p),
{
    reveal_strlit("AtomDomain");
    reveal_strlit("OptionDomain");
    reveal_strlit("VectorDomain");
    reveal_strlit("MapDomain");
    assert("AtomDomain"@.len() == 10);
    assert("OptionDomain"@.len() == 12);
    assert("VectorDomain"@.len() == 12);
    assert("MapDomain"@.len() == 9);
    assert forall|p: Primitive|
        d.type_shape() == atom_domain_shape(p) <==> (d matches DomainView::Atom(a) && a.atom
            == p) by {
        if d.type_shape() == atom_domain_shape(p) {
            assert(d.type_shape()->Generic_1[0] == atom_domain_shape(p)->Generic_1[0]);
        }
    }
}

/// Borrows the atom domain of type `p` behind a handle.
fn downcast_atom_domain<'a>(domain: &'a AnyDomain, p: Primitive) -> (r: Fallible<&'a AtomDomain>)
    ensures
        domain@.wf(),
        match r {
            Ok(a) => domain@ == DomainView::Atom(a@) && a@.atom == p && a@.wf(),
            Err(e) => !(domain@ matches DomainView::Atom(a) && a.atom == p) && e@ == (
            ErrorView::TypeMismatch {
                expected: atom_domain_shape(p),
                actual: domain@.type_shape(),
            }),
        },
{
    let expected = Type::generic1("AtomDomain", Type::primitive(p));
    proof {
        lemma_domain_names(domain@);
    }
    match domain.downcast_ref(&expected) {
        Ok(Domain::Atom(a)) => Ok(a),
        Ok(_) => Err(Error::TypeMismatch { expected, actual: domain.type_().clone() }),
        Err(e) => Err(e),
    }
}

/// The optional domain over a domain that must be the atom domain of type
/// `p`.
pub open spec fn option_over_spec(p: Primitive, domain: DomainView) -> Result<
    DomainView,
    ErrorView,
> {
    match domain {
        DomainView::Atom(a) => if a.atom == p {
            Ok(DomainView::Optional(a))
        } else {
            Err(
                ErrorView::TypeMismatch {
                    expected: atom_domain_shape(p),
                    actual: domain.type_shape(),
                },
            )
        },
        _ => Err(
            ErrorView::TypeMismatch {
                expected: atom_domain_shape(p),
                actual: domain.type_shape(),
            },
        ),
    }
}

/// What `opendp_domains__option_domain` returns. The handle is borrowed
/// before the type name is read.
pub open spec fn option_domain_spec(element_domain: Option<DomainView>, descriptor: Option<Seq<char>>)
    -> Result<DomainView, ErrorView> {
    match element_domain {
        None => Err(ErrorView::NullArgument { argument: "element_domain"@ }),
        Some(domain) => match descriptor {
            None => Err(ErrorView::NullArgument { argument: "D"@ }),
            Some(name) => match parse_spec(name) {
                None => Err(ErrorView::TypeParseError { text: name }),
                Some(d) => match d.atom() {
                    None => Err(ErrorView::NotAContainer { descriptor: d }),
                    Some(t) => match t {
                        Shape::Primitive(p) => option_over_spec(p, domain),
                        _ => Err(
                            ErrorView::DispatchNotSupported {
                                descriptor: t,
                                operation: "option_domain"@,
                            },
                        ),
                    },
                },
            },
        },
    }
}

/// Builds an optional domain from an atom domain.
fn option_domain(element_domain: AtomDomain) -> (r: Domain)
    ensures
        r@ == DomainView::Optional(element_domain@),
{
    Domain::Optional(element_domain)
}

fn monomorphize_atom(p: Primitive, element_domain: &AnyDomain) -> (r: Fallible<AnyDomain>)
    ensures
        match r {
            Ok(d) => option_over_spec(p, element_domain@) == Ok::<DomainView, ErrorView>(d@),
            Err(e) => option_over_spec(p, element_domain@) == Err::<DomainView, ErrorView>(e@),
        },
{
    let element_domain = match downcast_atom_domain(element_domain, p) {
        Ok(a) => a.clone(),
        Err(e) => {
            return Err(e);
        },
    };
    Ok(AnyDomain::new(option_domain(element_domain)))
}

/// Constructs the domain of the optional values of an atom domain. `D`
/// names the type of the inner domain; its sole argument selects the
/// implementation.
#[allow(non_snake_case)]
pub fn opendp_domains__option_domain(element_domain: Option<&AnyDomain>, D: Option<&str>) -> (r:
    FfiResult<AnyDomain>)
    ensures
        match r {
            FfiResult::Success(d) => option_domain_spec(view_of(element_domain), text_of(D))
                == Ok::<DomainView, ErrorView>(d@),
            FfiResult::Failure(e) => option_domain_spec(view_of(element_domain), text_of(D))
                == Err::<DomainView, ErrorView>(e@),
        },
{
    let element_domain = match try_as_ref(element_domain, "element_domain") {
        Ok(d) => d,
        Err(e) => {
            return FfiResult::Failure(e);
        },
    };
    let name = match to_str(D, "D") {
        Ok(name) => name,
        Err(e) => {
            return FfiResult::Failure(e);
        },
    };
    let D = match Type::parse(name) {
        Ok(t) => t,
        Err(e) => {
            return FfiResult::Failure(e);
        },
    };
    let T = match D.get_atom() {
        Ok(t) => t,
        Err(e) => {
            return FfiResult::Failure(e);
        },
    };
    proof {
        lemma_leaves_contains(primitives_spec(), T@);
        if T@ is Primitive {
            lemma_declared_sets(T@->Primitive_0);
        }
    }
    let outcome = match CandidateSet::primitives().dispatch_leaf(&T, "option_domain") {
        Ok(p) => monomorphize_atom(p, element_domain),
        Err(e) => Err(e),
    };
    FfiResult::from_fallible(outcome)
}

/// The length that a 32-bit size argument asks for: a negative size wraps
/// around the range of lengths.
pub open spec fn size_spec(n: int) -> nat {
    if n >= 0 {
        n as nat
    } else {
        (n + usize::MAX + 1) as nat
    }
}

/// What `opendp_domains__vector_domain` returns.
pub open spec fn vector_domain_spec(atom_domain: Option<DomainView>, size: Option<ValueView>)
    -> Result<DomainView, ErrorView> {
    match atom_domain {
        None => Err(ErrorView::NullArgument { argument: "atom_domain"@ }),
        Some(domain) => match domain {
            DomainView::Atom(element) => match size {
                None => Ok(DomainView::Vector { element, size: None }),
                Some(v) => match v {
                    ValueView::Atom(AtomView::Integer(Primitive::I32, n)) => Ok(
                        DomainView::Vector { element, size: Some(size_spec(n)) },
                    ),
                    _ => Err(
                        ErrorView::TypeMismatch {
                            expected: Shape::Primitive(Primitive::I32),
                            actual: v.type_shape(),
                        },
                    ),
                },
            },
            _ => Err(
                ErrorView::ShapeMismatch {
                    expected_shape: "AtomDomain"@,
                    actual: domain.type_shape(),
                },
            ),
        },
    }
}

/// Reads a 32-bit size as a length.
fn to_size(n: i32) -> (r: usize)
    ensures
        r == size_spec(n as int),
{
    if n >= 0 {
        n as usize
    } else {
        let below: u32 = (-(n + 1)) as u32;
        usize::MAX - (below as usize)
    }
}

fn monomorphize_all(p: Primitive, atom_domain: &AnyDomain, size: Option<&AnyObject>) -> (r:
    Fallible<AnyDomain>)
    requires
        atom_domain@ matches DomainView::Atom(a) && a.atom == p,
    ensures
        match r {
            Ok(d) => vector_domain_spec(Some(atom_domain@), view_of(size)) == Ok::<
                DomainView,
                ErrorView,
            >(d@),
            Err(e) => vector_domain_spec(Some(atom_domain@), view_of(size)) == Err::<
                DomainView,
                ErrorView,
            >(e@),
        },
{
    let element = match downcast_atom_domain(atom_domain, p) {
        Ok(a) => a.clone(),
        Err(e) => {
            return Err(e);
        },
    };
    let mut length: Option<usize> = None;
    if let Some(size) = size {
        let expected = Type::primitive(Primitive::I32);
        match size.downcast_ref(&expected) {
            Ok(value) => match value.repr() {
                Repr::Atom(Atom::I32(n)) => {
                    length = Some(to_size(*n));
                },
                _ => {
                    return Err(Error::TypeMismatch { expected, actual: size.type_().clone() });
                },
            },
            Err(e) => {
                return Err(e);
            },
        }
    }
    Ok(AnyDomain::new(Domain::Vector { element, size: length }))
}

/// Constructs the domain of the vectors over an atom domain, of the
/// length that `size` gives where there is one. The inner handle's type
/// must be an `AtomDomain` before its carrier type is looked at.
pub fn opendp_domains__vector_domain(atom_domain: Option<&AnyDomain>, size: Option<&AnyObject>) -> (r:
    FfiResult<AnyDomain>)
    ensures
        match r {
            FfiResult::Success(d) => vector_domain_spec(view_of(atom_domain), view_of(size))
                == Ok::<DomainView, ErrorView>(d@),
            FfiResult::Failure(e) => vector_domain_spec(view_of(atom_domain), view_of(size))
                == Err::<DomainView, ErrorView>(e@),
        },
{
    let atom_domain = match try_as_ref(atom_domain, "atom_domain") {
        Ok(d) => d,
        Err(e) => {
            return FfiResult::Failure(e);
        },
    };
    proof {
        lemma_domain_names(atom_domain@);
    }
    let outcome = if atom_domain.type_().has_name("AtomDomain") {
        proof {
            lemma_leaves_contains(primitives_spec(), atom_domain@.carrier_shape());
            lemma_declared_sets(atom_domain@->Atom_0.atom);
        }
        match CandidateSet::primitives().dispatch_leaf(atom_domain.carrier_type(), "vector_domain") {
            Ok(p) => monomorphize_all(p, atom_domain, size),
            Err(e) => Err(e),
        }
    } else {
        Err(
            Error::ShapeMismatch {
                expected_shape: String::from_str("AtomDomain"),
                actual: atom_domain.type_().clone(),
            },
        )
    };
    FfiResult::from_fallible(outcome)
}

/// What `opendp_domains__map_domain` returns.
pub open spec fn map_domain_spec(key_domain: Option<DomainView>, value_domain: Option<DomainView>)
    -> Result<DomainView, ErrorView> {
    match key_domain {
        None => Err(ErrorView::NullArgument { argument: "key_domain"@ }),
        Some(k) => match value_domain {
            None => Err(ErrorView::NullArgument { argument: "value_domain"@ }),
            Some(v) => match (k, v) {
                (DomainView::Atom(key), DomainView::Atom(value)) => if key.atom.is_float() {
                    Err(
                        ErrorView::DispatchNotSupported {
                            descriptor: Shape::Primitive(key.atom),
                            operation: "map_domain"@,
                        },
                    )
                } else {
                    Ok(DomainView::Mapping { key, value })
                },
                (DomainView::Atom(_), _) => Err(
                    ErrorView::ShapeMismatch {
                        expected_shape: "AtomDomain"@,
                        actual: v.type_shape(),
                    },
                ),
                _ => Err(
                    ErrorView::ShapeMismatch {
                        expected_shape: "AtomDomain"@,
                        actual: k.type_shape(),
                    },
                ),
            },
        },
    }
}

fn monomorphize(k: Primitive, v: Primitive, key_domain: &AnyDomain, value_domain: &AnyDomain) -> (r:
    Fallible<AnyDomain>)
    requires
        key_domain@ matches DomainView::Atom(a) && a.atom == k,
        value_domain@ matches DomainView::Atom(a) && a.atom == v,
    ensures
        r matches Ok(d) && d@ == (DomainView::Mapping {
            key: key_domain@->Atom_0,
            value: value_domain@->Atom_0,
        }),
{
    let key = match downcast_atom_domain(key_domain, k) {
        Ok(a) => a.clone(),
        Err(e) => {
            return Err(e);
        },
    };
    let value = match downcast_atom_domain(value_domain, v) {
        Ok(a) => a.clone(),
        Err(e) => {
            return Err(e);
        },
    };
    Ok(AnyDomain::new(Domain::Mapping { key, value }))
}

/// Constructs the domain of the maps from one atom domain to another.
/// Both inner handles must be `AtomDomain`s before their carrier types are
/// looked at; the keys' type must be hashable.
pub fn opendp_domains__map_domain(
    key_domain: Option<&AnyDomain>,
    value_domain: Option<&AnyDomain>,
) -> (r: FfiResult<AnyDomain>)
    ensures
        match r {
            FfiResult::Success(d) => map_domain_spec(view_of(key_domain), view_of(value_domain))
                == Ok::<DomainView, ErrorView>(d@),
            FfiResult::Failure(e) => map_domain_spec(view_of(key_domain), view_of(value_domain))
                == Err::<DomainView, ErrorView>(e@),
        },
{
    let key_domain = match try_as_ref(key_domain, "key_domain") {
        Ok(d) => d,
        Err(e) => {
            return FfiResult::Failure(e);
        },
    };
    let value_domain = match try_as_ref(value_domain, "value_domain") {
        Ok(d) => d,
        Err(e) => {
            return FfiResult::Failure(e);
        },
    };
    proof {
        lemma_domain_names(key_domain@);
        lemma_domain_names(value_domain@);
    }
    let key_is_atom = key_domain.type_().has_name("AtomDomain");
    let value_is_atom = value_domain.type_().has_name("AtomDomain");
    let outcome = if key_is_atom && value_is_atom {
        proof {
            lemma_leaves_contains(hashable_spec(), key_domain@.carrier_shape());
            lemma_leaves_contains(primitives_spec(), value_domain@.carrier_shape());
            lemma_declared_sets(key_domain@->Atom_0.atom);
            lemma_declared_sets(value_domain@->Atom_0.atom);
        }
        match CandidateSet::hashable().dispatch_leaf(key_domain.carrier_type(), "map_domain") {
            Ok(k) => match CandidateSet::primitives().dispatch_leaf(
                value_domain.carrier_type(),
                "map_domain",
            ) {
                Ok(v) => monomorphize(k, v, key_domain, value_domain),
                Err(e) => Err(e),
            },
            Err(e) => Err(e),
        }
    } else if key_is_atom {
        Err(
            Error::ShapeMismatch {
                expected_shape: String::from_str("AtomDomain"),
                actual: value_domain.type_().clone(),
            },
        )
    } else {
        Err(
            Error::ShapeMismatch {
                expected_shape: String::from_str("AtomDomain"),
                actual: key_domain.type_().clone(),
            },
        )
    };
    FfiResult::from_fallible(outcome)
}

} // verus!
