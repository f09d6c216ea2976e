//! What holds of every registry and every resolution, proved from the
//! model.

use vstd::prelude::*;

use crate::error::ErrorView;
use crate::model::{
    all_of_type, bind, bind_qualified, binding_in, body_of, covered_names, first_at, first_place,
    lacks_body, lemma_first_place_exists, lemma_first_place_is, lemma_merged_names, merged,
    method_names, suppliers, supplies, table_capabilities, BindingView, BodyView, BoundView,
    MethodView, RegistryView, TableView,
};

verus! {

/// The empty registry is well formed.
pub proof fn law_empty_registry_is_well_formed<B>()
    ensures
        RegistryView::<B>::empty().well_formed(),
{
}

/// An attempt to declare a capability leaves a well-formed registry well
/// formed.
pub proof fn law_capability_keeps_well_formed<B>(
    registry: RegistryView<B>,
    name: Seq<char>,
    methods: Seq<MethodView<B>>,
)
    requires
        registry.well_formed(),
    ensures
        registry.after_capability(name, methods).well_formed(),
{
    let after = registry.after_capability(name, methods);
    assert forall|c: Seq<char>| #[trigger]
        after.capabilities.dom().contains(c) implies method_names(
        after.capabilities[c],
    ).no_duplicates() by {
        if c != name {
            assert(registry.capabilities.dom().contains(c));
        }
    }
    assert forall|t: Seq<char>, c: Seq<char>| #[trigger]
        after.conformances.dom().contains((t, c)) implies after.capabilities.dom().contains(c)
        && covered_names(after.conformances[(t, c)]) == method_names(after.capabilities[c]) by {
        assert(registry.conformances.dom().contains((t, c)));
    }
}

/// An attempt to declare a conformance leaves a well-formed registry well
/// formed.
pub proof fn law_conformance_keeps_well_formed<B>(
    registry: RegistryView<B>,
    concrete_type: Seq<char>,
    capability: Seq<char>,
    overrides: Seq<BodyView<B>>,
)
    requires
        registry.well_formed(),
    ensures
        registry.after_conformance(concrete_type, capability, overrides).well_formed(),
{
    let after = registry.after_conformance(concrete_type, capability, overrides);
    lemma_merged_names(registry.capabilities[capability], overrides);
    assert forall|c: Seq<char>| #[trigger]
        after.capabilities.dom().contains(c) implies method_names(
        after.capabilities[c],
    ).no_duplicates() by {
        assert(registry.capabilities.dom().contains(c));
    }
    assert forall|t: Seq<char>, c: Seq<char>| #[trigger]
        after.conformances.dom().contains((t, c)) implies after.capabilities.dom().contains(c)
        && covered_names(after.conformances[(t, c)]) == method_names(after.capabilities[c]) by {
        if (t, c) != (concrete_type, capability) {
            assert(registry.conformances.dom().contains((t, c)));
        }
    }
}

/// Sealing leaves a well-formed registry well formed.
pub proof fn law_seal_keeps_well_formed<B>(registry: RegistryView<B>)
    requires
        registry.well_formed(),
    ensures
        registry.seal().well_formed(),
{
    let after = registry.seal();
    assert forall|c: Seq<char>| #[trigger]
        after.capabilities.dom().contains(c) implies method_names(
        after.capabilities[c],
    ).no_duplicates() by {
        assert(registry.capabilities.dom().contains(c));
    }
    assert forall|t: Seq<char>, c: Seq<char>| #[trigger]
        after.conformances.dom().contains((t, c)) implies after.capabilities.dom().contains(c)
        && covered_names(after.conformances[(t, c)]) == method_names(after.capabilities[c]) by {
        assert(registry.conformances.dom().contains((t, c)));
    }
}

/// After a conformance is accepted, looking it up gives the table merged
/// from the capability's methods and the type's overrides.
pub proof fn law_lookup_after_declaration<B>(
    registry: RegistryView<B>,
    concrete_type: Seq<char>,
    capability: Seq<char>,
    overrides: Seq<BodyView<B>>,
)
    requires
        registry.conformance_refusal(concrete_type, capability, overrides) is None,
    ensures
        registry.after_conformance(concrete_type, capability, overrides).lookup(
            concrete_type,
            capability,
        ) == Ok::<TableView<B>, ErrorView>(
            TableView {
                concrete_type,
                capability,
                entries: merged(registry.capabilities[capability], overrides),
            },
        ),
{
}

/// Overrides shadow defaults, method by method: in the table that a lookup
/// gives after an accepted conformance, the entry of each method carries
/// the type's override where the type gave one, and the capability's
/// default where it gave none.
pub proof fn law_overrides_shadow_defaults<B>(
    registry: RegistryView<B>,
    concrete_type: Seq<char>,
    capability: Seq<char>,
    overrides: Seq<BodyView<B>>,
    place: int,
)
    requires
        registry.conformance_refusal(concrete_type, capability, overrides) is None,
        0 <= place < registry.capabilities[capability].len(),
    ensures
        ({
            let method = registry.capabilities[capability][place];
            let after = registry.after_conformance(concrete_type, capability, overrides);
            &&& after.lookup(concrete_type, capability) matches Ok(table)
            &&& table.entries.len() == registry.capabilities[capability].len()
            &&& table.entries[place].method == method.name
            &&& match body_of(overrides, method.name) {
                Some(body) => table.entries[place].body == body,
                None => method.default == Some(table.entries[place].body),
            }
        }),
{
    let method = registry.capabilities[capability][place];
    if body_of(overrides, method.name) is None {
        assert(!lacks_body(method, overrides));
    }
}

/// Where a type overrides every method of a capability, the table that a
/// lookup gives holds the overridden bodies and nothing else: there are as
/// many entries as overrides, each entry carries the type's override of its
/// method, and each override is the body that the table binds to its
/// method.
pub proof fn law_full_overrides_leave_no_default<B>(
    registry: RegistryView<B>,
    concrete_type: Seq<char>,
    capability: Seq<char>,
    overrides: Seq<BodyView<B>>,
)
    requires
        registry.well_formed(),
        registry.conformance_refusal(concrete_type, capability, overrides) is None,
        forall|i: int|
            0 <= i < registry.capabilities[capability].len() ==> covered_names(overrides).contains(
                #[trigger] method_names(registry.capabilities[capability])[i],
            ),
    ensures
        ({
            let after = registry.after_conformance(concrete_type, capability, overrides);
            &&& after.lookup(concrete_type, capability) matches Ok(table)
            &&& table.entries.len() == overrides.len()
            &&& forall|i: int|
                0 <= i < table.entries.len() ==> body_of(
                    overrides,
                    #[trigger] table.entries[i].method,
                ) == Some(table.entries[i].body)
            &&& forall|k: int|
                0 <= k < overrides.len() ==> body_of(table.entries, #[trigger] overrides[k].method)
                    == Some(overrides[k].body)
        }),
{
    let methods = registry.capabilities[capability];
    let names = method_names(methods);
    let covered = covered_names(overrides);
    let entries = merged(methods, overrides);
    assert(covered_names(entries) =~= names);
    assert(names.no_duplicates());
    assert(names.len() == covered.len()) by {
        assert(names.to_set() =~= covered.to_set()) by {
            assert forall|name: Seq<char>|
                names.to_set().contains(name) implies covered.to_set().contains(name) by {
                let i = choose|i: int| 0 <= i < names.len() && names[i] == name;
                assert(covered.contains(names[i]));
            }
            assert forall|name: Seq<char>|
                covered.to_set().contains(name) implies names.to_set().contains(name) by {
                let k = choose|k: int| 0 <= k < covered.len() && covered[k] == name;
                assert(names.contains(covered[k]));
            }
        }
        names.unique_seq_to_set();
        covered.unique_seq_to_set();
    }
    assert forall|i: int| 0 <= i < entries.len() implies body_of(
        overrides,
        #[trigger] entries[i].method,
    ) == Some(entries[i].body) by {
        assert(covered.contains(names[i]));
    }
    assert forall|k: int| 0 <= k < overrides.len() implies body_of(
        entries,
        #[trigger] overrides[k].method,
    ) == Some(overrides[k].body) by {
        let name = overrides[k].method;
        assert(covered[k] == name);
        assert(names.contains(covered[k]));
        lemma_first_place_exists(names, name);
        let i = first_place(names, name);
        assert(first_at(covered, name, k));
        lemma_first_place_is(covered, name, k);
        assert(entries[i].body == overrides[k].body);
    }
}

/// Declaring a conformance a second time fails with
/// `DuplicateConformance`, whatever the overrides of the second attempt,
/// and leaves the registry as the first declaration left it.
pub proof fn law_second_declaration_is_refused<B>(
    registry: RegistryView<B>,
    concrete_type: Seq<char>,
    capability: Seq<char>,
    first: Seq<BodyView<B>>,
    second: Seq<BodyView<B>>,
)
    requires
        registry.conformance_refusal(concrete_type, capability, first) is None,
    ensures
        ({
            let once = registry.after_conformance(concrete_type, capability, first);
            &&& once.conformance_refusal(concrete_type, capability, second) == Some(
                ErrorView::DuplicateConformance,
            )
            &&& once.after_conformance(concrete_type, capability, second) == once
        }),
{
}

/// A bound of one capability resolves as the lookup of that capability
/// does: to the one table, or to the lookup's failure.
pub proof fn law_single_bound_is_a_lookup<B>(
    registry: RegistryView<B>,
    capability: Seq<char>,
    concrete_type: Seq<char>,
    linked: Seq<Seq<char>>,
)
    ensures
        registry.resolve_fixed(BoundView::Single(capability), concrete_type, linked)
            == match registry.lookup(concrete_type, capability) {
            Ok(table) => Ok::<Seq<TableView<B>>, ErrorView>(seq![table]),
            Err(error) => Err::<Seq<TableView<B>>, ErrorView>(error),
        },
{
    let capabilities = seq![capability];
    let conformity = registry.conformity(concrete_type, capabilities);
    if registry.conforms(concrete_type, capability) {
        assert(conformity[0]);
        assert(registry.tables(concrete_type, capabilities) =~= seq![
            registry.table(concrete_type, capability),
        ]);
    } else {
        assert(first_at(conformity, false, 0));
        lemma_first_place_is(conformity, false, 0);
    }
}

/// Where no tie of types stands in the way, a bound fails with
/// `NotImplemented` for the first capability, in the order of the bound, to
/// which the type does not conform.
pub proof fn law_first_missing_capability_is_named<B>(
    registry: RegistryView<B>,
    bound: BoundView,
    concrete_type: Seq<char>,
    linked: Seq<Seq<char>>,
    place: int,
)
    requires
        !bound.ties_types() || all_of_type(linked, concrete_type),
        0 <= place < bound.capabilities().len(),
        !registry.conforms(concrete_type, bound.capabilities()[place]),
        forall|i: int|
            0 <= i < place ==> registry.conforms(concrete_type, #[trigger] bound.capabilities()[i]),
    ensures
        registry.resolve_fixed(bound, concrete_type, linked) == Err::<Seq<TableView<B>>, ErrorView>(
            ErrorView::NotImplemented { capability: bound.capabilities()[place] },
        ),
{
    let capabilities = bound.capabilities();
    let conformity = registry.conformity(concrete_type, capabilities);
    assert(first_at(conformity, false, place)) by {
        assert forall|j: int| 0 <= j < place implies conformity[j] != false by {
            assert(registry.conforms(concrete_type, capabilities[j]));
        }
    }
    lemma_first_place_is(conformity, false, place);
}

/// A method that tables of two capabilities supply cannot be called
/// without a qualifier: the unqualified call fails with `AmbiguousMethod`.
pub proof fn law_shared_method_is_ambiguous<B>(
    tables: Seq<TableView<B>>,
    method: Seq<char>,
    one: int,
    other: int,
)
    requires
        0 <= one < tables.len(),
        0 <= other < tables.len(),
        supplies(tables[one], method),
        supplies(tables[other], method),
        tables[one].capability != tables[other].capability,
    ensures
        bind(tables, method) == Err::<BindingView<B>, ErrorView>(ErrorView::AmbiguousMethod),
{
    assert(suppliers(tables, method)[one]);
}

/// Within the tables of one type, a call that names its capability binds
/// to the entry of that capability's table, however many other tables
/// supply a method of the same name.
pub proof fn law_qualified_call_binds<B>(
    registry: RegistryView<B>,
    concrete_type: Seq<char>,
    capabilities: Seq<Seq<char>>,
    method: Seq<char>,
    place: int,
)
    requires
        0 <= place < capabilities.len(),
        supplies(registry.table(concrete_type, capabilities[place]), method),
    ensures
        bind_qualified(registry.tables(concrete_type, capabilities), capabilities[place], method)
            == Ok::<BindingView<B>, ErrorView>(
            binding_in(registry.table(concrete_type, capabilities[place]), method),
        ),
{
    let tables = registry.tables(concrete_type, capabilities);
    let named = table_capabilities(tables);
    assert(named =~= capabilities);
    assert(named[place] == capabilities[place]);
    lemma_first_place_exists(named, capabilities[place]);
    let first = first_place(named, capabilities[place]);
    assert(tables[first] == registry.table(concrete_type, capabilities[place]));
}

/// A bound that ties types fails with `TypeMismatch` as soon as one of the
/// tied arguments is of another type, whatever the registry holds: it does
/// not matter whether the types conform to the bound's capabilities.
pub proof fn law_tied_types_must_agree<B>(
    registry: RegistryView<B>,
    capabilities: Seq<Seq<char>>,
    concrete_type: Seq<char>,
    linked: Seq<Seq<char>>,
)
    requires
        !all_of_type(linked, concrete_type),
    ensures
        registry.resolve_fixed(BoundView::SameType(capabilities), concrete_type, linked) == Err::<
            Seq<TableView<B>>,
            ErrorView,
        >(ErrorView::TypeMismatch),
{
}

/// Resolving through a handle never fails with `TypeMismatch`, whatever the
/// bound.
pub proof fn law_handles_are_never_mismatched<B>(
    registry: RegistryView<B>,
    bound: BoundView,
    type_tag: Seq<char>,
)
    ensures
        registry.resolve_indirect(bound, type_tag) != Err::<Seq<TableView<B>>, ErrorView>(
            ErrorView::TypeMismatch,
        ),
{
    assert(all_of_type(Seq::<Seq<char>>::empty(), type_tag));
}

/// Two handles whose types both conform to every capability of a bound are
/// both resolved, each to the tables of its own type, also where the types
/// differ and the bound ties types. Resolved together as one call with a
/// known type, under a bound that ties types, the same two types fail with
/// `TypeMismatch`.
pub proof fn law_handles_resolve_alone<B>(
    registry: RegistryView<B>,
    bound: BoundView,
    one: Seq<char>,
    other: Seq<char>,
)
    requires
        forall|i: int|
            0 <= i < bound.capabilities().len() ==> registry.conforms(
                one,
                #[trigger] bound.capabilities()[i],
            ) && registry.conforms(other, bound.capabilities()[i]),
    ensures
        registry.resolve_indirect(bound, one) == Ok::<Seq<TableView<B>>, ErrorView>(
            registry.tables(one, bound.capabilities()),
        ),
        registry.resolve_indirect(bound, other) == Ok::<Seq<TableView<B>>, ErrorView>(
            registry.tables(other, bound.capabilities()),
        ),
        bound.ties_types() && one != other ==> registry.resolve_fixed(bound, one, seq![other])
            == Err::<Seq<TableView<B>>, ErrorView>(ErrorView::TypeMismatch),
{
    assert(all_of_type(Seq::<Seq<char>>::empty(), one));
    assert(all_of_type(Seq::<Seq<char>>::empty(), other));
    let capabilities = bound.capabilities();
    assert(!registry.conformity(one, capabilities).contains(false)) by {
        assert forall|i: int| 0 <= i < capabilities.len() implies registry.conformity(
            one,
            capabilities,
        )[i] by {
            assert(registry.conforms(one, capabilities[i]));
        }
    }
    assert(!registry.conformity(other, capabilities).contains(false)) by {
        assert forall|i: int| 0 <= i < capabilities.len() implies registry.conformity(
            other,
            capabilities,
        )[i] by {
            assert(registry.conforms(other, capabilities[i]));
        }
    }
    if bound.ties_types() && one != other {
        assert(seq![other][0] != one);
    }
}

/// A sealed registry refuses every declaration with `RegistryClosed` and
/// stays as it is.
pub proof fn law_sealed_registry_is_closed<B>(
    registry: RegistryView<B>,
    name: Seq<char>,
    methods: Seq<MethodView<B>>,
    concrete_type: Seq<char>,
    capability: Seq<char>,
    overrides: Seq<BodyView<B>>,
)
    ensures
        ({
            let sealed = registry.seal();
            &&& sealed.capability_refusal(name, methods) == Some(ErrorView::RegistryClosed)
            &&& sealed.after_capability(name, methods) == sealed
            &&& sealed.conformance_refusal(concrete_type, capability, overrides) == Some(
                ErrorView::RegistryClosed,
            )
            &&& sealed.after_conformance(concrete_type, capability, overrides) == sealed
            &&& sealed.seal() == sealed
        }),
{
}

/// Whether `after` holds all that `before` holds, unchanged, and is sealed
/// if `before` is.
pub open spec fn keeps<B>(before: RegistryView<B>, after: RegistryView<B>) -> bool {
    &&& before.capabilities.submap_of(after.capabilities)
    &&& before.conformances.submap_of(after.conformances)
    &&& before.sealed ==> after.sealed
}

/// What is declared stays declared, unchanged: no declaration and no
/// sealing alters the methods of a declared capability or the table of a
/// declared conformance, and none reopens a sealed registry.
pub proof fn law_declarations_are_permanent<B>(
    registry: RegistryView<B>,
    name: Seq<char>,
    methods: Seq<MethodView<B>>,
    concrete_type: Seq<char>,
    capability: Seq<char>,
    overrides: Seq<BodyView<B>>,
)
    ensures
        keeps(registry, registry.after_capability(name, methods)),
        keeps(registry, registry.after_conformance(concrete_type, capability, overrides)),
        keeps(registry, registry.seal()),
{
}

} // verus!
