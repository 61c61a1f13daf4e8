//! What holds of every entry point: a null handle is reported as such, and
//! the shape of an inner domain is checked before its element type is
//! looked at.
use crate::domains::ffi::{
    atom_domain_spec, domain_member_spec, lemma_domain_names, map_domain_spec,
    option_domain_spec, vector_domain_spec,
};
use crate::domains::DomainView;
use crate::error::ErrorView;
use crate::measurements::ffi::{make_base_discrete_exponential_spec, scores_spec};
use crate::measurements::{optimize_of, MeasurementView};
use crate::metrics::Metric;
use crate::parse::parse_spec;
use crate::trans::ffi::{
    make_bounded_int_monotonic_sum_spec, make_sized_bounded_int_monotonic_sum_spec,
    make_subset_by_spec,
};
use crate::transformations::ffi::make_sum_of_squared_deviations_spec;
use crate::transformations::TransformationView;
use crate::round_trip::lemma_parse_text;
use crate::types::{all_wf, is_name, Shape};
use crate::util::{c_bool, lowercase_of};
use crate::value::ValueView;
use vstd::prelude::*;

verus! {

/// The error for a null argument of the given name.
pub open spec fn null<T>(argument: Seq<char>) -> Result<T, ErrorView> {
    Err(ErrorView::NullArgument { argument })
}

/// A sequence domain over an inner domain whose type is not named
/// `AtomDomain` fails with a shape mismatch that names the inner type,
/// whatever the inner domain's element type and whatever the size
/// argument: no dispatch on the element type takes place.
pub proof fn lemma_shape_guard_precedes_dispatch(inner: DomainView, size: Option<ValueView>)
    requires
        !inner.type_shape().has_name("AtomDomain"@),
    ensures
        vector_domain_spec(Some(inner), size) == Err::<DomainView, ErrorView>(
            ErrorView::ShapeMismatch { expected_shape: "AtomDomain"@, actual: inner.type_shape() },
        ),
{
    lemma_domain_names(inner);
}

/// The same of a map domain, for either of its inner domains: the key
/// domain is looked at first.
pub proof fn lemma_shape_guard_of_maps(key: DomainView, value: DomainView)
    requires
        !key.type_shape().has_name("AtomDomain"@) || !value.type_shape().has_name("AtomDomain"@),
    ensures
        map_domain_spec(Some(key), Some(value)) == Err::<DomainView, ErrorView>(
            ErrorView::ShapeMismatch {
                expected_shape: "AtomDomain"@,
                actual: if !key.type_shape().has_name("AtomDomain"@) {
                    key.type_shape()
                } else {
                    value.type_shape()
                },
            },
        ),
{
    lemma_domain_names(key);
    lemma_domain_names(value);
}

/// Null safety: every entry point reports a null handle under its
/// argument's name, whatever the other arguments hold. Of two handles the
/// first is looked at first.
pub proof fn lemma_null_handles(
    domain: Option<DomainView>,
    other: DomainView,
    metric: Option<Metric>,
    some_metric: Metric,
    value: Option<ValueView>,
    some_value: ValueView,
    word: Option<Seq<char>>,
    name: Option<Seq<char>>,
    size: u32,
)
    ensures
        domain_member_spec(None, value) == null::<c_bool>("this"@),
        domain_member_spec(Some(other), None) == null::<c_bool>("val"@),
        option_domain_spec(None, name) == null::<DomainView>("element_domain"@),
        vector_domain_spec(None, value) == null::<DomainView>("atom_domain"@),
        map_domain_spec(None, domain) == null::<DomainView>("key_domain"@),
        map_domain_spec(Some(other), None) == null::<DomainView>("value_domain"@),
        make_base_discrete_exponential_spec(None, metric, value, word, name) == null::<
            MeasurementView,
        >("input_domain"@),
        make_base_discrete_exponential_spec(Some(other), None, value, word, name) == null::<
            MeasurementView,
        >("input_metric"@),
        make_base_discrete_exponential_spec(Some(other), Some(some_metric), None, word, name)
            == null::<MeasurementView>("temperature"@),
        make_subset_by_spec(None, value, name) == null::<TransformationView>(
            "indicator_column"@,
        ),
        make_subset_by_spec(Some(some_value), None, name) == null::<TransformationView>(
            "keep_columns"@,
        ),
        make_bounded_int_monotonic_sum_spec(None, name) == null::<TransformationView>("bounds"@),
        make_sized_bounded_int_monotonic_sum_spec(size, None, name) == null::<
            TransformationView,
        >("bounds"@),
        make_sum_of_squared_deviations_spec(None, metric, name) == null::<TransformationView>(
            "input_domain"@,
        ),
        make_sum_of_squared_deviations_spec(Some(other), None, name) == null::<
            TransformationView,
        >("input_metric"@),
{
}

/// Null safety of the type-name arguments: once the handles are borrowed,
/// a null type name is reported under its argument's name.
pub proof fn lemma_null_type_names(
    domain: DomainView,
    metric: Metric,
    bounds: Option<ValueView>,
    first: ValueView,
    second: ValueView,
    nullable: c_bool,
    size: u32,
)
    ensures
        atom_domain_spec(bounds, nullable, None) == null::<DomainView>("T"@),
        option_domain_spec(Some(domain), None) == null::<DomainView>("D"@),
        make_subset_by_spec(Some(first), Some(second), None) == null::<TransformationView>(
            "TK"@,
        ),
        make_bounded_int_monotonic_sum_spec(Some(first), None) == null::<TransformationView>(
            "T"@,
        ),
        make_sized_bounded_int_monotonic_sum_spec(size, Some(first), None) == null::<
            TransformationView,
        >("T"@),
        make_sum_of_squared_deviations_spec(Some(domain), Some(metric), None) == null::<
            TransformationView,
        >("S"@),
{
}

/// The leaf of a domain's own descriptor is the type of its atoms; a map
/// domain, with its two arguments, has none.
pub proof fn lemma_domain_leaf(domain: DomainView)
    ensures
        domain matches DomainView::Atom(a) ==> domain.type_shape().leaf() == Ok::<
            Shape,
            ErrorView,
        >(Shape::Primitive(a.atom)),
        domain matches DomainView::Optional(a) ==> domain.type_shape().leaf() == Ok::<
            Shape,
            ErrorView,
        >(Shape::Primitive(a.atom)),
        domain matches DomainView::Vector { element, .. } ==> domain.type_shape().leaf() == Ok::<
            Shape,
            ErrorView,
        >(Shape::Primitive(element.atom)),
        domain is Mapping ==> domain.type_shape().leaf() == Err::<Shape, ErrorView>(
            ErrorView::NotAContainer { descriptor: domain.type_shape() },
        ),
{
    reveal_with_fuel(Shape::leaf, 3);
}

/// The words and type names of the discrete exponential mechanism, in the
/// order in which they are read: on a domain that is no map domain, a null
/// word is reported; a word that names no end is refused; then a null
/// type name is reported; and a type name that the grammar accepts and
/// that is no float finds no match, with an error that names it, where the
/// scores' type is one of those declared.
pub proof fn lemma_exponential_order(
    domain: DomainView,
    metric: Metric,
    temperature: ValueView,
    word: Seq<char>,
    name: Seq<char>,
)
    requires
        !(domain is Mapping),
    ensures
        make_base_discrete_exponential_spec(
            Some(domain),
            Some(metric),
            Some(temperature),
            None,
            Some(name),
        ) == null::<MeasurementView>("optimize"@),
        optimize_of(lowercase_of(word)) matches Err(e) ==> make_base_discrete_exponential_spec(
            Some(domain),
            Some(metric),
            Some(temperature),
            Some(word),
            Some(name),
        ) == Err::<MeasurementView, ErrorView>(e),
        optimize_of(lowercase_of(word)) is Ok ==> make_base_discrete_exponential_spec(
            Some(domain),
            Some(metric),
            Some(temperature),
            Some(word),
            None,
        ) == null::<MeasurementView>("QO"@),
        ({
            &&& optimize_of(lowercase_of(word)) is Ok
            &&& domain.type_shape().leaf() matches Ok(Shape::Primitive(t))
            &&& scores_spec().contains(t)
            &&& parse_spec(name) matches Some(q)
            &&& !(q matches Shape::Primitive(o) && o.is_float())
        }) ==> make_base_discrete_exponential_spec(
            Some(domain),
            Some(metric),
            Some(temperature),
            Some(word),
            Some(name),
        ) == Err::<MeasurementView, ErrorView>(
            ErrorView::DispatchNotSupported {
                descriptor: parse_spec(name)->Some_0,
                operation: "make_base_discrete_exponential"@,
            },
        ),
{
    lemma_domain_leaf(domain);
}

/// The names that the library gives to generic types are names.
pub proof fn lemma_library_names()
    ensures
        is_name("AtomDomain"@),
        is_name("OptionDomain"@),
        is_name("VectorDomain"@),
        is_name("MapDomain"@),
        is_name("Vec"@),
        is_name("Option"@),
        is_name("HashMap"@),
        is_name("LInfDiffDistance"@),
{
    reveal_strlit("AtomDomain");
    assert("AtomDomain"@.len() == 10 && "AtomDomain"@[0] == 'A' && "AtomDomain"@[1] == 't' && "AtomDomain"@[2] == 'o' && "AtomDomain"@[3] == 'm' && "AtomDomain"@[4] == 'D' && "AtomDomain"@[5] == 'o' && "AtomDomain"@[6] == 'm' && "AtomDomain"@[7] == 'a' && "AtomDomain"@[8] == 'i' && "AtomDomain"@[9] == 'n');
    reveal_strlit("OptionDomain");
    assert("OptionDomain"@.len() == 12 && "OptionDomain"@[0] == 'O' && "OptionDomain"@[1] == 'p' && "OptionDomain"@[2] == 't' && "OptionDomain"@[3] == 'i' && "OptionDomain"@[4] == 'o' && "OptionDomain"@[5] == 'n' && "OptionDomain"@[6] == 'D' && "OptionDomain"@[7] == 'o' && "OptionDomain"@[8] == 'm' && "OptionDomain"@[9] == 'a' && "OptionDomain"@[10] == 'i' && "OptionDomain"@[11] == 'n');
    reveal_strlit("VectorDomain");
    assert("VectorDomain"@.len() == 12 && "VectorDomain"@[0] == 'V' && "VectorDomain"@[1] == 'e' && "VectorDomain"@[2] == 'c' && "VectorDomain"@[3] == 't' && "VectorDomain"@[4] == 'o' && "VectorDomain"@[5] == 'r' && "VectorDomain"@[6] == 'D' && "VectorDomain"@[7] == 'o' && "VectorDomain"@[8] == 'm' && "VectorDomain"@[9] == 'a' && "VectorDomain"@[10] == 'i' && "VectorDomain"@[11] == 'n');
    reveal_strlit("MapDomain");
    assert("MapDomain"@.len() == 9 && "MapDomain"@[0] == 'M' && "MapDomain"@[1] == 'a' && "MapDomain"@[2] == 'p' && "MapDomain"@[3] == 'D' && "MapDomain"@[4] == 'o' && "MapDomain"@[5] == 'm' && "MapDomain"@[6] == 'a' && "MapDomain"@[7] == 'i' && "MapDomain"@[8] == 'n');
    reveal_strlit("Vec");
    assert("Vec"@.len() == 3 && "Vec"@[0] == 'V' && "Vec"@[1] == 'e' && "Vec"@[2] == 'c');
    reveal_strlit("Option");
    assert("Option"@.len() == 6 && "Option"@[0] == 'O' && "Option"@[1] == 'p' && "Option"@[2] == 't' && "Option"@[3] == 'i' && "Option"@[4] == 'o' && "Option"@[5] == 'n');
    reveal_strlit("HashMap");
    assert("HashMap"@.len() == 7 && "HashMap"@[0] == 'H' && "HashMap"@[1] == 'a' && "HashMap"@[2] == 's' && "HashMap"@[3] == 'h' && "HashMap"@[4] == 'M' && "HashMap"@[5] == 'a' && "HashMap"@[6] == 'p');
    reveal_strlit("LInfDiffDistance");
    assert("LInfDiffDistance"@.len() == 16 && "LInfDiffDistance"@[0] == 'L' && "LInfDiffDistance"@[1] == 'I' && "LInfDiffDistance"@[2] == 'n' && "LInfDiffDistance"@[3] == 'f' && "LInfDiffDistance"@[4] == 'D' && "LInfDiffDistance"@[5] == 'i' && "LInfDiffDistance"@[6] == 'f' && "LInfDiffDistance"@[7] == 'f' && "LInfDiffDistance"@[8] == 'D' && "LInfDiffDistance"@[9] == 'i' && "LInfDiffDistance"@[10] == 's' && "LInfDiffDistance"@[11] == 't' && "LInfDiffDistance"@[12] == 'a' && "LInfDiffDistance"@[13] == 'n' && "LInfDiffDistance"@[14] == 'c' && "LInfDiffDistance"@[15] == 'e');
}

/// The descriptors that a domain handle carries are well formed, so their
/// canonical texts parse back to them.
pub proof fn lemma_domain_descriptors(domain: DomainView)
    ensures
        domain.type_shape().wf(),
        domain.carrier_shape().wf(),
        parse_spec(domain.type_shape().text()) == Some(domain.type_shape()),
        parse_spec(domain.carrier_shape().text()) == Some(domain.carrier_shape()),
{
    lemma_library_names();
    let t = domain.type_shape();
    let c = domain.carrier_shape();
    lemma_all_wf(t->Generic_1);
    if domain is Atom {
    } else if domain is Mapping {
        lemma_all_wf(t->Generic_1[0]->Generic_1);
        lemma_all_wf(t->Generic_1[1]->Generic_1);
        lemma_all_wf(c->Generic_1);
    } else {
        lemma_all_wf(t->Generic_1[0]->Generic_1);
        lemma_all_wf(c->Generic_1);
    }
    lemma_parse_text(t);
    lemma_parse_text(c);
}

/// The descriptor of a value's type is well formed, so its canonical text
/// parses back to it.
pub proof fn lemma_value_descriptors(value: ValueView)
    ensures
        value.type_shape().wf(),
        parse_spec(value.type_shape().text()) == Some(value.type_shape()),
{
    lemma_library_names();
    let t = value.type_shape();
    match value {
        ValueView::Atom(_) => {},
        ValueView::Pair(_, _) => {
            lemma_all_wf(t->Tuple_0);
        },
        _ => {
            lemma_all_wf(t->Generic_1);
        },
    }
    lemma_parse_text(t);
}

/// The descriptor of a metric's type is well formed, so its canonical text
/// parses back to it.
pub proof fn lemma_metric_descriptors(metric: Metric)
    ensures
        metric.type_shape().wf(),
        parse_spec(metric.type_shape().text()) == Some(metric.type_shape()),
{
    lemma_library_names();
    let t = metric.type_shape();
    if metric is LInfDiffDistance {
        lemma_all_wf(t->Generic_1);
    }
    lemma_parse_text(t);
}

/// A list is well formed exactly when each of its members is.
pub proof fn lemma_all_wf(items: Seq<Shape>)
    ensures
        all_wf(items) <==> forall|i: int| 0 <= i < items.len() ==> (#[trigger] items[i]).wf(),
    decreases items.len(),
{
    if items.len() > 0 {
        lemma_all_wf(items.drop_last());
        if all_wf(items) {
            assert forall|i: int| 0 <= i < items.len() implies (#[trigger] items[i]).wf() by {
                if i < items.len() - 1 {
                    assert(items.drop_last()[i] == items[i]);
                }
            }
        }
        if forall|i: int| 0 <= i < items.len() ==> (#[trigger] items[i]).wf() {
            assert forall|i: int| 0 <= i < items.drop_last().len() implies (
            #[trigger] items.drop_last()[i]).wf() by {
                assert(items.drop_last()[i] == items[i]);
            }
        }
    }
}

} // verus!
