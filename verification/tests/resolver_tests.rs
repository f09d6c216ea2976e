use capability_dispatch::bound::Bound;
use capability_dispatch::error::DispatchError;
use capability_dispatch::registry::{MethodBody, MethodSignature, Registry};
use capability_dispatch::resolver::{resolve_fixed, resolve_indirect, Handle};

fn names(list: &[&str]) -> Vec<String> {
    list.iter().map(|name| name.to_string()).collect()
}

fn not_implemented(capability: &str) -> DispatchError {
    DispatchError::NotImplemented { capability: capability.to_string() }
}

/// Capabilities `A{m}` and `B{m}`, both with defaults, and `C{c}`; `X`
/// conforms to all three, `Y` to `A` and `B` with overrides, `Z` to `A`.
fn sealed_registry() -> Registry<&'static str> {
    let mut registry = Registry::new();
    let defaulted = |body| vec![MethodSignature::with_default("m", body)];
    registry.declare_capability("A", defaulted("A default")).unwrap();
    registry.declare_capability("B", defaulted("B default")).unwrap();
    registry
        .declare_capability(
            "C",
            vec![MethodSignature::with_default("c", "C default"), MethodSignature::required("d")],
        )
        .unwrap();
    registry.declare_conformance("X", "A", vec![]).unwrap();
    registry.declare_conformance("X", "B", vec![]).unwrap();
    registry.declare_conformance("X", "C", vec![MethodBody::new("d", "X d")]).unwrap();
    registry.declare_conformance("Y", "A", vec![MethodBody::new("m", "Y via A")]).unwrap();
    registry.declare_conformance("Y", "B", vec![MethodBody::new("m", "Y via B")]).unwrap();
    registry.declare_conformance("Z", "A", vec![]).unwrap();
    registry.seal();
    registry
}

#[test]
fn single_bound_resolves_to_the_table_of_the_lookup() {
    let registry = sealed_registry();
    let resolution = resolve_fixed(&registry, &Bound::Single("C".to_string()), "X", &[]).unwrap();
    assert_eq!(resolution.len(), 1);
    let table = resolution.table(0).unwrap();
    assert_eq!(table.concrete_type(), "X");
    assert_eq!(table.capability(), "C");
    assert_eq!(table.body("c"), Some("C default"));
    assert_eq!(table.body("d"), Some("X d"));
    assert!(resolution.table(1).is_none());
}

#[test]
fn single_bound_fails_where_the_type_does_not_conform() {
    let registry = sealed_registry();
    let resolved = resolve_fixed(&registry, &Bound::Single("C".to_string()), "Z", &[]);
    assert_eq!(resolved.unwrap_err(), not_implemented("C"));
    let resolved = resolve_fixed(&registry, &Bound::Single("Unknown".to_string()), "X", &[]);
    assert_eq!(resolved.unwrap_err(), not_implemented("Unknown"));
}

#[test]
fn conjunction_resolves_to_the_tables_in_the_order_of_the_bound() {
    let registry = sealed_registry();
    let bound = Bound::All(names(&["C", "A", "B"]));
    let resolution = resolve_fixed(&registry, &bound, "X", &[]).unwrap();
    assert_eq!(resolution.len(), 3);
    assert_eq!(resolution.table(0).unwrap().capability(), "C");
    assert_eq!(resolution.table(1).unwrap().capability(), "A");
    assert_eq!(resolution.table(2).unwrap().capability(), "B");
}

#[test]
fn conjunction_names_the_first_missing_capability() {
    let registry = sealed_registry();
    let resolved = resolve_fixed(&registry, &Bound::All(names(&["A", "B", "C"])), "Z", &[]);
    assert_eq!(resolved.unwrap_err(), not_implemented("B"));
    let resolved = resolve_fixed(&registry, &Bound::All(names(&["A", "C", "B"])), "Z", &[]);
    assert_eq!(resolved.unwrap_err(), not_implemented("C"));
    let resolved = resolve_fixed(&registry, &Bound::All(names(&["C", "A", "B"])), "Y", &[]);
    assert_eq!(resolved.unwrap_err(), not_implemented("C"));
    let resolved = resolve_fixed(&registry, &Bound::All(names(&["B", "A"])), "W", &[]);
    assert_eq!(resolved.unwrap_err(), not_implemented("B"));
}

#[test]
fn empty_conjunction_resolves_to_no_table() {
    let registry = sealed_registry();
    let resolution = resolve_fixed(&registry, &Bound::All(vec![]), "Nobody", &[]).unwrap();
    assert_eq!(resolution.len(), 0);
    assert_eq!(resolution.bind("m").unwrap_err(), DispatchError::MissingImplementation);
}

#[test]
fn tied_arguments_of_different_types_are_a_mismatch() {
    let registry = sealed_registry();
    let bound = Bound::SameType(names(&["A"]));
    let resolved = resolve_fixed(&registry, &bound, "X", &["Y"]);
    assert_eq!(resolved.unwrap_err(), DispatchError::TypeMismatch);
    let resolved = resolve_fixed(&registry, &bound, "X", &["X", "X", "Z"]);
    assert_eq!(resolved.unwrap_err(), DispatchError::TypeMismatch);
}

#[test]
fn mismatch_is_found_before_any_capability_is_looked_up() {
    let registry = sealed_registry();
    let resolved = resolve_fixed(&registry, &Bound::SameType(names(&["C"])), "Z", &["W"]);
    assert_eq!(resolved.unwrap_err(), DispatchError::TypeMismatch);
    let resolved = resolve_fixed(&registry, &Bound::SameType(names(&["Unknown"])), "V", &["W"]);
    assert_eq!(resolved.unwrap_err(), DispatchError::TypeMismatch);
}

#[test]
fn tied_arguments_of_one_type_resolve() {
    let registry = sealed_registry();
    let bound = Bound::SameType(names(&["A", "B"]));
    let resolution = resolve_fixed(&registry, &bound, "Y", &["Y", "Y"]).unwrap();
    assert_eq!(resolution.len(), 2);
    assert_eq!(resolution.table(0).unwrap().body("m"), Some("Y via A"));
    assert_eq!(resolution.table(1).unwrap().body("m"), Some("Y via B"));
    let resolved = resolve_fixed(&registry, &bound, "Z", &["Z"]);
    assert_eq!(resolved.unwrap_err(), not_implemented("B"));
}

#[test]
fn bounds_that_tie_nothing_ignore_the_further_types() {
    let registry = sealed_registry();
    let single = Bound::Single("A".to_string());
    let resolution = resolve_fixed(&registry, &single, "X", &["Y"]).unwrap();
    assert_eq!(resolution.table(0).unwrap().concrete_type(), "X");
    let resolution = resolve_fixed(&registry, &Bound::All(names(&["A", "B"])), "X", &["Nobody"]);
    assert!(resolution.is_ok());
}

#[test]
fn handles_of_different_types_resolve_independently() {
    let registry = sealed_registry();
    let bound = Bound::Single("A".to_string());
    let one = Handle::new("X", 1u8);
    let other = Handle::new("Y", 2u8);
    let first = resolve_indirect(&registry, &bound, &one).unwrap();
    let second = resolve_indirect(&registry, &bound, &other).unwrap();
    assert_eq!(first.bind("m").unwrap().body, "A default");
    assert_eq!(second.bind("m").unwrap().body, "Y via A");
}

#[test]
fn handles_are_not_tied_even_by_a_bound_that_ties_types() {
    let registry = sealed_registry();
    let bound = Bound::SameType(names(&["A"]));
    let one = Handle::new("X", ());
    let other = Handle::new("Y", ());
    assert!(resolve_indirect(&registry, &bound, &one).is_ok());
    assert!(resolve_indirect(&registry, &bound, &other).is_ok());
    assert_eq!(
        resolve_fixed(&registry, &bound, "X", &["Y"]).unwrap_err(),
        DispatchError::TypeMismatch
    );
}

#[test]
fn handle_resolves_as_its_tag_does() {
    let registry = sealed_registry();
    let bound = Bound::All(names(&["A", "C"]));
    let handle = Handle::new("Z", "payload");
    assert_eq!(resolve_indirect(&registry, &bound, &handle).unwrap_err(), not_implemented("C"));
    let handle = Handle::new("X", "payload");
    let resolution = resolve_indirect(&registry, &bound, &handle).unwrap();
    assert_eq!(resolution.len(), 2);
    assert_eq!(resolution.table(1).unwrap().body("d"), Some("X d"));
}

#[test]
fn handle_keeps_its_tag_and_payload() {
    let handle = Handle::new("Widget", vec![1, 2, 3]);
    assert_eq!(handle.type_tag, "Widget");
    assert_eq!(handle.payload, vec![1, 2, 3]);
}

#[test]
fn unqualified_call_of_a_shared_method_is_ambiguous() {
    let registry = sealed_registry();
    let bound = Bound::All(names(&["A", "B"]));
    let resolution = resolve_fixed(&registry, &bound, "X", &[]).unwrap();
    assert_eq!(resolution.bind("m").unwrap_err(), DispatchError::AmbiguousMethod);
}

#[test]
fn qualified_call_of_a_shared_method_binds() {
    let registry = sealed_registry();
    let bound = Bound::All(names(&["A", "B"]));
    let resolution = resolve_fixed(&registry, &bound, "X", &[]).unwrap();
    let binding = resolution.bind_qualified("A", "m").unwrap();
    assert_eq!(binding.concrete_type, "X");
    assert_eq!(binding.capability, "A");
    assert_eq!(binding.method, "m");
    assert_eq!(binding.body, "A default");
    assert_eq!(resolution.bind_qualified("B", "m").unwrap().body, "B default");
}

#[test]
fn shared_method_is_ambiguous_also_where_the_type_overrides_it() {
    let registry = sealed_registry();
    let bound = Bound::All(names(&["A", "B"]));
    let resolution = resolve_fixed(&registry, &bound, "Y", &[]).unwrap();
    assert_eq!(resolution.bind("m").unwrap_err(), DispatchError::AmbiguousMethod);
    assert_eq!(resolution.bind_qualified("A", "m").unwrap().body, "Y via A");
    assert_eq!(resolution.bind_qualified("B", "m").unwrap().body, "Y via B");
}

#[test]
fn method_of_one_capability_binds_without_qualifier() {
    let registry = sealed_registry();
    let bound = Bound::All(names(&["A", "B", "C"]));
    let resolution = resolve_fixed(&registry, &bound, "X", &[]).unwrap();
    let binding = resolution.bind("d").unwrap();
    assert_eq!(binding.concrete_type, "X");
    assert_eq!(binding.capability, "C");
    assert_eq!(binding.method, "d");
    assert_eq!(binding.body, "X d");
    assert_eq!(resolution.bind("c").unwrap().body, "C default");
    assert_eq!(resolution.bind("m").unwrap_err(), DispatchError::AmbiguousMethod);
}

#[test]
fn capability_listed_twice_is_not_ambiguous_with_itself() {
    let registry = sealed_registry();
    let bound = Bound::All(names(&["A", "A"]));
    let resolution = resolve_fixed(&registry, &bound, "Y", &[]).unwrap();
    assert_eq!(resolution.len(), 2);
    assert_eq!(resolution.bind("m").unwrap().body, "Y via A");
}

#[test]
fn single_bound_binds_its_methods() {
    let registry = sealed_registry();
    let resolution = resolve_fixed(&registry, &Bound::Single("B".to_string()), "Y", &[]).unwrap();
    let binding = resolution.bind("m").unwrap();
    assert_eq!(binding.capability, "B");
    assert_eq!(binding.body, "Y via B");
}

#[test]
fn call_of_a_method_that_no_table_supplies_fails() {
    let registry = sealed_registry();
    let bound = Bound::All(names(&["A", "B"]));
    let resolution = resolve_fixed(&registry, &bound, "X", &[]).unwrap();
    assert_eq!(resolution.bind("c").unwrap_err(), DispatchError::MissingImplementation);
    assert_eq!(resolution.bind("").unwrap_err(), DispatchError::MissingImplementation);
    assert_eq!(
        resolution.bind_qualified("A", "c").unwrap_err(),
        DispatchError::MissingImplementation
    );
}

#[test]
fn qualifier_outside_the_bound_is_not_implemented() {
    let registry = sealed_registry();
    let bound = Bound::All(names(&["A", "B"]));
    let resolution = resolve_fixed(&registry, &bound, "X", &[]).unwrap();
    assert_eq!(resolution.bind_qualified("C", "c").unwrap_err(), not_implemented("C"));
    assert_eq!(resolution.bind_qualified("a", "m").unwrap_err(), not_implemented("a"));
}

#[test]
fn resolution_works_on_an_open_registry_too() {
    let mut registry: Registry<u32> = Registry::new();
    registry.declare_capability("A", vec![MethodSignature::with_default("m", 1)]).unwrap();
    registry.declare_conformance("X", "A", vec![]).unwrap();
    let bound = Bound::Single("A".to_string());
    assert_eq!(resolve_fixed(&registry, &bound, "X", &[]).unwrap().bind("m").unwrap().body, 1);
}

#[test]
fn bound_tells_its_capabilities() {
    let single = Bound::Single("A".to_string());
    assert_eq!(single.count(), 1);
    assert_eq!(single.capability(0), Some("A"));
    assert_eq!(single.capability(1), None);
    assert!(!single.ties_types());
    let all = Bound::All(names(&["A", "B"]));
    assert_eq!(all.count(), 2);
    assert_eq!(all.capability(1), Some("B"));
    assert_eq!(all.capability(2), None);
    assert!(!all.ties_types());
    let tied = Bound::SameType(names(&["C"]));
    assert_eq!(tied.count(), 1);
    assert_eq!(tied.capability(0), Some("C"));
    assert!(tied.ties_types());
}
