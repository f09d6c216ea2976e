//! The mathematical model: what a registry holds, what a declaration does
//! to it, and what a resolution and a call bind to.

use vstd::prelude::*;

use crate::error::ErrorView;

verus! {

/// A method signature: its name and, where the capability supplies one, the
/// default body.
pub struct MethodView<B> {
    pub name: Seq<char>,
    pub default: Option<B>,
}

/// A method together with the body bound to it.
pub struct BodyView<B> {
    pub method: Seq<char>,
    pub body: B,
}

/// The effective method table of one type for one capability.
pub struct TableView<B> {
    pub concrete_type: Seq<char>,
    pub capability: Seq<char>,
    pub entries: Seq<BodyView<B>>,
}

/// The views of the elements of a sequence, in order.
pub open spec fn views<T: View>(items: Seq<T>) -> Seq<T::V> {
    Seq::new(items.len(), |i: int| items[i]@)
}

/// The names of the methods of a capability, in order.
pub open spec fn method_names<B>(methods: Seq<MethodView<B>>) -> Seq<Seq<char>> {
    Seq::new(methods.len(), |i: int| methods[i].name)
}

/// The names of the methods that a list of bodies covers, in order.
pub open spec fn covered_names<B>(bodies: Seq<BodyView<B>>) -> Seq<Seq<char>> {
    Seq::new(bodies.len(), |i: int| bodies[i].method)
}

/// Whether `i` is the first place at which `key` stands in `keys`.
pub open spec fn first_at<K>(keys: Seq<K>, key: K, i: int) -> bool {
    &&& 0 <= i < keys.len()
    &&& keys[i] == key
    &&& forall|j: int| 0 <= j < i ==> keys[j] != key
}

/// The first place at which `key` stands in `keys`. It says nothing where
/// `keys` does not contain `key`.
pub open spec fn first_place<K>(keys: Seq<K>, key: K) -> int {
    choose|i: int| first_at(keys, key, i)
}

/// A key has one first place at most.
pub proof fn lemma_first_at_unique<K>(keys: Seq<K>, key: K, i: int, j: int)
    requires
        first_at(keys, key, i),
        first_at(keys, key, j),
    ensures
        i == j,
{
}

/// Where `i` is the first place of `key`, `first_place` names it.
pub proof fn lemma_first_place_is<K>(keys: Seq<K>, key: K, i: int)
    requires
        first_at(keys, key, i),
    ensures
        first_place(keys, key) == i,
        keys.contains(key),
{
    lemma_first_at_unique(keys, key, i, first_place(keys, key));
}

/// A key that a sequence contains has a first place in it.
pub proof fn lemma_first_place_exists<K>(keys: Seq<K>, key: K)
    requires
        keys.contains(key),
    ensures
        first_at(keys, key, first_place(keys, key)),
    decreases keys.len(),
{
    let k = choose|k: int| 0 <= k < keys.len() && keys[k] == key;
    if exists|j: int| 0 <= j < k && keys[j] == key {
        let j = choose|j: int| 0 <= j < k && keys[j] == key;
        let shorter = keys.subrange(0, k);
        assert(shorter[j] == key);
        lemma_first_place_exists(shorter, key);
        let f = first_place(shorter, key);
        assert(first_at(keys, key, f)) by {
            assert(keys[f] == shorter[f]);
            assert forall|i: int| 0 <= i < f implies keys[i] != key by {
                assert(keys[i] == shorter[i]);
            }
        }
    } else {
        assert(first_at(keys, key, k));
    }
}

/// The body that `bodies` binds to `method`: that of the first entry of that
/// name, if there is one.
pub open spec fn body_of<B>(bodies: Seq<BodyView<B>>, method: Seq<char>) -> Option<B> {
    let names = covered_names(bodies);
    if names.contains(method) {
        Some(bodies[first_place(names, method)].body)
    } else {
        None
    }
}

/// Overrides fit a capability when none of them names a method twice and
/// each names a method of the capability.
pub open spec fn overrides_fit<B>(
    methods: Seq<MethodView<B>>,
    overrides: Seq<BodyView<B>>,
) -> bool {
    &&& covered_names(overrides).no_duplicates()
    &&& forall|k: int|
        0 <= k < overrides.len() ==> method_names(methods).contains(
            #[trigger] covered_names(overrides)[k],
        )
}

/// A method lacks a body when the type overrides it not and the capability
/// has no default for it.
pub open spec fn lacks_body<B>(method: MethodView<B>, overrides: Seq<BodyView<B>>) -> bool {
    method.default is None && !covered_names(overrides).contains(method.name)
}

/// Whether some method of the capability is left without a body.
pub open spec fn some_body_missing<B>(
    methods: Seq<MethodView<B>>,
    overrides: Seq<BodyView<B>>,
) -> bool {
    exists|i: int| 0 <= i < methods.len() && lacks_body(#[trigger] methods[i], overrides)
}

/// The body in force for a method: the override where there is one, the
/// default otherwise.
pub open spec fn effective_body<B>(method: MethodView<B>, overrides: Seq<BodyView<B>>) -> B {
    match body_of(overrides, method.name) {
        Some(body) => body,
        None => method.default->Some_0,
    }
}

/// The entries of the effective method table: one for each method of the
/// capability, in the capability's order, overrides laid over defaults.
pub open spec fn merged<B>(methods: Seq<MethodView<B>>, overrides: Seq<BodyView<B>>) -> Seq<
    BodyView<B>,
> {
    Seq::new(
        methods.len(),
        |i: int| BodyView { method: methods[i].name, body: effective_body(methods[i], overrides) },
    )
}

/// The registry as the contracts see it.
pub struct RegistryView<B> {
    /// The methods of each declared capability, by the capability's name.
    pub capabilities: Map<Seq<char>, Seq<MethodView<B>>>,
    /// The entries of each declared conformance, by type and capability.
    pub conformances: Map<(Seq<char>, Seq<char>), Seq<BodyView<B>>>,
    /// Whether the registry has stopped taking declarations.
    pub sealed: bool,
}

impl<B> RegistryView<B> {
    /// The registry that holds nothing and is open.
    pub open spec fn empty() -> Self {
        RegistryView { capabilities: Map::empty(), conformances: Map::empty(), sealed: false }
    }

    /// What every registry keeps true: method names are unique within a
    /// capability, and a conformance belongs to a declared capability and
    /// lists that capability's methods, each once, in its order.
    pub open spec fn well_formed(self) -> bool {
        &&& forall|c: Seq<char>| #[trigger]
            self.capabilities.dom().contains(c) ==> method_names(
                self.capabilities[c],
            ).no_duplicates()
        &&& forall|t: Seq<char>, c: Seq<char>| #[trigger]
            self.conformances.dom().contains((t, c)) ==> {
                &&& self.capabilities.dom().contains(c)
                &&& covered_names(self.conformances[(t, c)]) == method_names(self.capabilities[c])
            }
    }

    /// Why the declaration of a capability is refused, if it is.
    pub open spec fn capability_refusal(
        self,
        name: Seq<char>,
        methods: Seq<MethodView<B>>,
    ) -> Option<ErrorView> {
        if self.sealed {
            Some(ErrorView::RegistryClosed)
        } else if self.capabilities.dom().contains(name) {
            Some(ErrorView::DuplicateCapability)
        } else if !method_names(methods).no_duplicates() {
            Some(ErrorView::MalformedSignature)
        } else {
            None
        }
    }

    /// The registry with one more capability.
    pub open spec fn with_capability(self, name: Seq<char>, methods: Seq<MethodView<B>>) -> Self {
        RegistryView { capabilities: self.capabilities.insert(name, methods), ..self }
    }

    /// The registry after an attempt to declare a capability: with the
    /// capability where the declaration is accepted, unchanged where it is
    /// refused.
    pub open spec fn after_capability(self, name: Seq<char>, methods: Seq<MethodView<B>>) -> Self {
        if self.capability_refusal(name, methods) is None {
            self.with_capability(name, methods)
        } else {
            self
        }
    }

    /// Why the declaration of a conformance is refused, if it is.
    pub open spec fn conformance_refusal(
        self,
        concrete_type: Seq<char>,
        capability: Seq<char>,
        overrides: Seq<BodyView<B>>,
    ) -> Option<ErrorView> {
        if self.sealed {
            Some(ErrorView::RegistryClosed)
        } else if !self.capabilities.dom().contains(capability) {
            Some(ErrorView::UnknownCapability)
        } else if self.conformances.dom().contains((concrete_type, capability)) {
            Some(ErrorView::DuplicateConformance)
        } else if !overrides_fit(self.capabilities[capability], overrides) {
            Some(ErrorView::MalformedSignature)
        } else if some_body_missing(self.capabilities[capability], overrides) {
            Some(ErrorView::MissingImplementation)
        } else {
            None
        }
    }

    /// The registry with one more conformance, its table merged from the
    /// capability's methods and the overrides.
    pub open spec fn with_conformance(
        self,
        concrete_type: Seq<char>,
        capability: Seq<char>,
        overrides: Seq<BodyView<B>>,
    ) -> Self {
        RegistryView {
            conformances: self.conformances.insert(
                (concrete_type, capability),
                merged(self.capabilities[capability], overrides),
            ),
            ..self
        }
    }

    /// The registry after an attempt to declare a conformance: with the
    /// conformance where the declaration is accepted, unchanged where it is
    /// refused.
    pub open spec fn after_conformance(
        self,
        concrete_type: Seq<char>,
        capability: Seq<char>,
        overrides: Seq<BodyView<B>>,
    ) -> Self {
        if self.conformance_refusal(concrete_type, capability, overrides) is None {
            self.with_conformance(concrete_type, capability, overrides)
        } else {
            self
        }
    }

    /// The registry after sealing.
    pub open spec fn seal(self) -> Self {
        RegistryView { sealed: true, ..self }
    }

    /// Whether the type conforms to the capability.
    pub open spec fn conforms(self, concrete_type: Seq<char>, capability: Seq<char>) -> bool {
        self.conformances.dom().contains((concrete_type, capability))
    }

    /// The effective method table of a type that conforms to a capability.
    pub open spec fn table(self, concrete_type: Seq<char>, capability: Seq<char>) -> TableView<B> {
        TableView {
            concrete_type,
            capability,
            entries: self.conformances[(concrete_type, capability)],
        }
    }

    /// What a lookup gives: the table where the type conforms, and otherwise
    /// the failure that names the capability.
    pub open spec fn lookup(self, concrete_type: Seq<char>, capability: Seq<char>) -> Result<
        TableView<B>,
        ErrorView,
    > {
        if self.conforms(concrete_type, capability) {
            Ok(self.table(concrete_type, capability))
        } else {
            Err(ErrorView::NotImplemented { capability })
        }
    }
}

/// A bound as the contracts see it.
pub enum BoundView {
    /// Conformance to one capability.
    Single(Seq<char>),
    /// Conformance to every capability of the list.
    All(Seq<Seq<char>>),
    /// Conformance to every capability of the list, by arguments that all
    /// have one concrete type.
    SameType(Seq<Seq<char>>),
}

impl BoundView {
    /// The capabilities that the bound asks for, in the order of the bound.
    pub open spec fn capabilities(self) -> Seq<Seq<char>> {
        match self {
            BoundView::Single(capability) => seq![capability],
            BoundView::All(capabilities) => capabilities,
            BoundView::SameType(capabilities) => capabilities,
        }
    }

    /// Whether the bound ties its arguments to one concrete type.
    pub open spec fn ties_types(self) -> bool {
        self is SameType
    }
}

/// Whether every one of the types is `concrete_type`.
pub open spec fn all_of_type(types: Seq<Seq<char>>, concrete_type: Seq<char>) -> bool {
    forall|i: int| 0 <= i < types.len() ==> types[i] == concrete_type
}

/// The body to execute for one call: the association of a concrete type, a
/// capability and a method with a body.
pub struct BindingView<B> {
    pub concrete_type: Seq<char>,
    pub capability: Seq<char>,
    pub method: Seq<char>,
    pub body: B,
}

/// Whether the table has an entry for the method.
pub open spec fn supplies<B>(table: TableView<B>, method: Seq<char>) -> bool {
    covered_names(table.entries).contains(method)
}

/// For each table, whether it supplies the method.
pub open spec fn suppliers<B>(tables: Seq<TableView<B>>, method: Seq<char>) -> Seq<bool> {
    Seq::new(tables.len(), |i: int| supplies(tables[i], method))
}

/// The capabilities of the tables, in order.
pub open spec fn table_capabilities<B>(tables: Seq<TableView<B>>) -> Seq<Seq<char>> {
    Seq::new(tables.len(), |i: int| tables[i].capability)
}

/// Whether two tables of different capabilities both supply the method.
pub open spec fn ambiguous<B>(tables: Seq<TableView<B>>, method: Seq<char>) -> bool {
    exists|i: int, j: int|
        0 <= i < tables.len() && 0 <= j < tables.len() && supplies(#[trigger] tables[i], method)
            && supplies(#[trigger] tables[j], method) && tables[i].capability
            != tables[j].capability
}

/// The binding of a method within a table that supplies it.
pub open spec fn binding_in<B>(table: TableView<B>, method: Seq<char>) -> BindingView<B> {
    BindingView {
        concrete_type: table.concrete_type,
        capability: table.capability,
        method,
        body: body_of(table.entries, method)->Some_0,
    }
}

/// What an unqualified call of `method` binds to among the tables of a
/// resolution: nothing where no table supplies it, nothing where tables of
/// two capabilities do, and otherwise the entry of the first table that
/// supplies it.
pub open spec fn bind<B>(tables: Seq<TableView<B>>, method: Seq<char>) -> Result<
    BindingView<B>,
    ErrorView,
> {
    if !suppliers(tables, method).contains(true) {
        Err(ErrorView::MissingImplementation)
    } else if ambiguous(tables, method) {
        Err(ErrorView::AmbiguousMethod)
    } else {
        Ok(binding_in(tables[first_place(suppliers(tables, method), true)], method))
    }
}

/// What a call of `method` qualified by `capability` binds to: the entry of
/// the first table of that capability.
pub open spec fn bind_qualified<B>(
    tables: Seq<TableView<B>>,
    capability: Seq<char>,
    method: Seq<char>,
) -> Result<BindingView<B>, ErrorView> {
    let capabilities = table_capabilities(tables);
    if !capabilities.contains(capability) {
        Err(ErrorView::NotImplemented { capability })
    } else {
        let table = tables[first_place(capabilities, capability)];
        if supplies(table, method) {
            Ok(binding_in(table, method))
        } else {
            Err(ErrorView::MissingImplementation)
        }
    }
}

impl<B> RegistryView<B> {
    /// For each capability, whether the type conforms to it.
    pub open spec fn conformity(
        self,
        concrete_type: Seq<char>,
        capabilities: Seq<Seq<char>>,
    ) -> Seq<bool> {
        Seq::new(capabilities.len(), |i: int| self.conforms(concrete_type, capabilities[i]))
    }

    /// The tables of the type for the capabilities, in order.
    pub open spec fn tables(self, concrete_type: Seq<char>, capabilities: Seq<Seq<char>>) -> Seq<
        TableView<B>,
    > {
        Seq::new(capabilities.len(), |i: int| self.table(concrete_type, capabilities[i]))
    }

    /// What resolving a bound against a known concrete type gives.
    ///
    /// A bound that ties types fails with `TypeMismatch` where one of the
    /// `linked` types differs from `concrete_type`, whatever the registry
    /// holds. Otherwise the result is the type's tables for the bound's
    /// capabilities, or `NotImplemented` naming the first capability, in the
    /// bound's order, to which the type does not conform.
    pub open spec fn resolve_fixed(
        self,
        bound: BoundView,
        concrete_type: Seq<char>,
        linked: Seq<Seq<char>>,
    ) -> Result<Seq<TableView<B>>, ErrorView> {
        let capabilities = bound.capabilities();
        let conformity = self.conformity(concrete_type, capabilities);
        if bound.ties_types() && !all_of_type(linked, concrete_type) {
            Err(ErrorView::TypeMismatch)
        } else if conformity.contains(false) {
            Err(
                ErrorView::NotImplemented {
                    capability: capabilities[first_place(conformity, false)],
                },
            )
        } else {
            Ok(self.tables(concrete_type, capabilities))
        }
    }

    /// What resolving a bound against a handle gives: the handle's tag
    /// stands for the concrete type, and nothing is tied to it.
    pub open spec fn resolve_indirect(self, bound: BoundView, type_tag: Seq<char>) -> Result<
        Seq<TableView<B>>,
        ErrorView,
    > {
        self.resolve_fixed(bound, type_tag, Seq::empty())
    }
}

/// A merged table names the capability's methods, each once and in order.
pub proof fn lemma_merged_names<B>(methods: Seq<MethodView<B>>, overrides: Seq<BodyView<B>>)
    ensures
        covered_names(merged(methods, overrides)) == method_names(methods),
{
    assert(covered_names(merged(methods, overrides)) =~= method_names(methods));
}

} // verus!
