//! The capability registry: declarations of capabilities and of
//! conformances, and the lookup of effective method tables.

use vstd::prelude::*;
use vstd::string::*;

use crate::error::DispatchError;
use crate::laws::{
    law_capability_keeps_well_formed, law_conformance_keeps_well_formed,
    law_seal_keeps_well_formed,
};
use crate::index::{keyed, lemma_keyed_appended, lemma_keyed_at, names_of, position, repeats, Named};
use crate::model::{
    body_of, covered_names, effective_body, first_at, lacks_body, lemma_first_place_is, merged,
    method_names, overrides_fit, some_body_missing, views, BodyView, MethodView, RegistryView,
    TableView,
};
use crate::text::same_text;

verus! {

/// A method of a capability, with the default body where the capability
/// supplies one.
#[derive(Debug)]
pub struct MethodSignature<B> {
    pub name: String,
    pub default: Option<B>,
}

impl<B> View for MethodSignature<B> {
    type V = MethodView<B>;

    open spec fn view(&self) -> MethodView<B> {
        MethodView { name: self.name@, default: self.default }
    }
}

impl<B> MethodSignature<B> {
    /// A method without a default: every conforming type has to supply its
    /// body.
    pub fn required(name: &str) -> (signature: Self)
        ensures
            signature@ == (MethodView::<B> { name: name@, default: None }),
    {
        MethodSignature { name: name.to_owned(), default: None }
    }

    /// A method with a default body.
    pub fn with_default(name: &str, body: B) -> (signature: Self)
        ensures
            signature@ == (MethodView { name: name@, default: Some(body) }),
    {
        MethodSignature { name: name.to_owned(), default: Some(body) }
    }
}

impl<B> Named for MethodSignature<B> {
    open spec fn name_view(&self) -> Seq<char> {
        self.name@
    }

    fn name_text(&self) -> (name: &str) {
        self.name.as_str()
    }
}

/// A method together with the body bound to it: an override where a type
/// hands it in, an entry where a method table holds it.
#[derive(Debug)]
pub struct MethodBody<B> {
    pub method: String,
    pub body: B,
}

impl<B> View for MethodBody<B> {
    type V = BodyView<B>;

    open spec fn view(&self) -> BodyView<B> {
        BodyView { method: self.method@, body: self.body }
    }
}

impl<B> MethodBody<B> {
    /// The body bound to a method.
    pub fn new(method: &str, body: B) -> (entry: Self)
        ensures
            entry@ == (BodyView { method: method@, body }),
    {
        MethodBody { method: method.to_owned(), body }
    }
}

impl<B> Named for MethodBody<B> {
    open spec fn name_view(&self) -> Seq<char> {
        self.method@
    }

    fn name_text(&self) -> (name: &str) {
        self.method.as_str()
    }
}

/// The names of method signatures are the method names of their views.
proof fn lemma_signature_names<B>(methods: Seq<MethodSignature<B>>)
    ensures
        names_of(methods) == method_names(views(methods)),
{
    assert(names_of(methods) =~= method_names(views(methods)));
}

/// The names of bodies are the names that their views cover.
proof fn lemma_body_names<B>(bodies: Seq<MethodBody<B>>)
    ensures
        names_of(bodies) == covered_names(views(bodies)),
{
    assert(names_of(bodies) =~= covered_names(views(bodies)));
}

/// The effective method table of one type for one capability: an entry for
/// each method of the capability, in the capability's order.
#[derive(Debug)]
pub struct MethodTable<B> {
    concrete_type: String,
    capability: String,
    entries: Vec<MethodBody<B>>,
}

impl<B> View for MethodTable<B> {
    type V = TableView<B>;

    closed spec fn view(&self) -> TableView<B> {
        TableView {
            concrete_type: self.concrete_type@,
            capability: self.capability@,
            entries: views(self.entries@),
        }
    }
}

impl<B: Copy> MethodTable<B> {
    /// The type whose table this is.
    pub fn concrete_type(&self) -> (concrete_type: &str)
        ensures
            concrete_type@ == self@.concrete_type,
    {
        self.concrete_type.as_str()
    }

    /// The capability whose methods the table lists.
    pub fn capability(&self) -> (capability: &str)
        ensures
            capability@ == self@.capability,
    {
        self.capability.as_str()
    }

    /// How many methods the table lists.
    pub fn len(&self) -> (len: usize)
        ensures
            len == self@.entries.len(),
    {
        self.entries.len()
    }

    /// The entry at a place of the table, if the table reaches that far.
    pub fn entry(&self, place: usize) -> (entry: Option<&MethodBody<B>>)
        ensures
            match entry {
                Some(entry) => place < self@.entries.len() && entry@ == self@.entries[place as int],
                None => place >= self@.entries.len(),
            },
    {
        if place < self.entries.len() {
            Some(&self.entries[place])
        } else {
            None
        }
    }

    /// The body that the table binds to a method, if it lists the method.
    pub fn body(&self, method: &str) -> (body: Option<B>)
        ensures
            body == body_of(self@.entries, method@),
    {
        proof {
            lemma_body_names(self.entries@);
        }
        match position(&self.entries, method) {
            Some(place) => {
                proof {
                    lemma_first_place_is(covered_names(self@.entries), method@, place as int);
                }
                Some(self.entries[place].body)
            },
            None => None,
        }
    }
}

/// A declared capability.
struct Capability<B> {
    name: String,
    methods: Vec<MethodSignature<B>>,
}

impl<B> Named for Capability<B> {
    closed spec fn name_view(&self) -> Seq<char> {
        self.name@
    }

    fn name_text(&self) -> (name: &str) {
        self.name.as_str()
    }
}

/// The keys under which the tables stand, in order.
spec fn table_keys<B>(tables: Seq<MethodTable<B>>) -> Seq<(Seq<char>, Seq<char>)> {
    Seq::new(tables.len(), |i: int| (tables[i].concrete_type@, tables[i].capability@))
}

/// The entries of the tables, in order.
spec fn table_entries<B>(tables: Seq<MethodTable<B>>) -> Seq<Seq<BodyView<B>>> {
    Seq::new(tables.len(), |i: int| views(tables[i].entries@))
}

/// The methods of the capabilities, in order.
spec fn capability_methods<B>(capabilities: Seq<Capability<B>>) -> Seq<Seq<MethodView<B>>> {
    Seq::new(capabilities.len(), |i: int| views(capabilities[i].methods@))
}

/// Appending a capability appends its name and its methods.
proof fn lemma_capability_appended<B>(capabilities: Seq<Capability<B>>, added: Capability<B>)
    ensures
        names_of(capabilities.push(added)) == names_of(capabilities).push(added.name@),
        capability_methods(capabilities.push(added)) == capability_methods(capabilities).push(
            views(added.methods@),
        ),
{
    assert(names_of(capabilities.push(added)) =~= names_of(capabilities).push(added.name@));
    assert(capability_methods(capabilities.push(added)) =~= capability_methods(capabilities).push(
        views(added.methods@),
    ));
}

/// Appending a table appends its key and its entries.
proof fn lemma_table_appended<B>(tables: Seq<MethodTable<B>>, added: MethodTable<B>)
    ensures
        table_keys(tables.push(added)) == table_keys(tables).push(
            (added.concrete_type@, added.capability@),
        ),
        table_entries(tables.push(added)) == table_entries(tables).push(views(added.entries@)),
{
    assert(table_keys(tables.push(added)) =~= table_keys(tables).push(
        (added.concrete_type@, added.capability@),
    ));
    assert(table_entries(tables.push(added)) =~= table_entries(tables).push(
        views(added.entries@),
    ));
}

/// Whether the overrides fit the methods: no method is overridden twice, and
/// every overridden method is one of them.
fn fits<B>(methods: &Vec<MethodSignature<B>>, overrides: &Vec<MethodBody<B>>) -> (fit: bool)
    ensures
        fit == overrides_fit(views(methods@), views(overrides@)),
{
    proof {
        lemma_signature_names(methods@);
        lemma_body_names(overrides@);
    }
    if repeats(overrides) {
        return false;
    }
    let mut k: usize = 0;
    while k < overrides.len()
        invariant
            k <= overrides@.len(),
            names_of(methods@) == method_names(views(methods@)),
            names_of(overrides@) == covered_names(views(overrides@)),
            forall|j: int|
                0 <= j < k ==> method_names(views(methods@)).contains(
                    #[trigger] covered_names(views(overrides@))[j],
                ),
        decreases overrides@.len() - k,
    {
        if position(methods, overrides[k].method.as_str()).is_none() {
            assert(covered_names(views(overrides@))[k as int] == overrides@[k as int].method@);
            return false;
        }
        k += 1;
    }
    true
}

/// The entries of the effective method table, or nothing where a method is
/// left without a body.
fn merge<B: Copy>(methods: &Vec<MethodSignature<B>>, overrides: &Vec<MethodBody<B>>) -> (entries:
    Option<Vec<MethodBody<B>>>)
    ensures
        match entries {
            Some(entries) => !some_body_missing(views(methods@), views(overrides@)) && views(
                entries@,
            ) == merged(views(methods@), views(overrides@)),
            None => some_body_missing(views(methods@), views(overrides@)),
        },
{
    let ghost method_views = views(methods@);
    let ghost override_views = views(overrides@);
    proof {
        lemma_body_names(overrides@);
    }
    let mut entries: Vec<MethodBody<B>> = Vec::new();
    let mut i: usize = 0;
    while i < methods.len()
        invariant
            i <= methods@.len(),
            entries@.len() == i,
            method_views == views(methods@),
            override_views == views(overrides@),
            names_of(overrides@) == covered_names(override_views),
            forall|j: int| 0 <= j < i ==> !lacks_body(#[trigger] method_views[j], override_views),
            forall|j: int|
                0 <= j < i ==> (#[trigger] entries@[j])@ == merged(method_views, override_views)[j],
        decreases methods@.len() - i,
    {
        let method = &methods[i];
        let body = match position(overrides, method.name.as_str()) {
            Some(k) => {
                proof {
                    lemma_first_place_is(covered_names(override_views), method.name@, k as int);
                }
                overrides[k].body
            },
            None => match method.default {
                Some(default) => default,
                None => {
                    assert(lacks_body(method_views[i as int], override_views));
                    return None;
                },
            },
        };
        assert(body == effective_body(method_views[i as int], override_views));
        entries.push(MethodBody { method: method.name.clone(), body });
        i += 1;
    }
    assert(views(entries@) =~= merged(method_views, override_views));
    Some(entries)
}

/// The record of which types conform to which capabilities.
///
/// A registry starts open and takes declarations; once sealed it only
/// answers.
pub struct Registry<B> {
    capabilities: Vec<Capability<B>>,
    tables: Vec<MethodTable<B>>,
    sealed: bool,
}

impl<B> View for Registry<B> {
    type V = RegistryView<B>;

    closed spec fn view(&self) -> RegistryView<B> {
        RegistryView {
            capabilities: keyed(
                names_of(self.capabilities@),
                capability_methods(self.capabilities@),
            ),
            conformances: keyed(table_keys(self.tables@), table_entries(self.tables@)),
            sealed: self.sealed,
        }
    }
}

impl<B> Registry<B> {
    #[verifier::type_invariant]
    spec fn sound(self) -> bool {
        self.view().well_formed()
    }
}

impl<B: Copy> Registry<B> {
    /// An open registry that holds nothing.
    pub fn new() -> (registry: Self)
        ensures
            registry@ == RegistryView::<B>::empty(),
    {
        let registry = Registry { capabilities: Vec::new(), tables: Vec::new(), sealed: false };
        assert(registry@.capabilities =~= Map::empty());
        assert(registry@.conformances =~= Map::empty());
        registry
    }

    /// Stops the registry from taking declarations. Sealing a sealed
    /// registry changes nothing.
    pub fn seal(&mut self)
        ensures
            final(self)@ == old(self)@.seal(),
            final(self)@.well_formed(),
    {
        proof {
            use_type_invariant(&*self);
            law_seal_keeps_well_formed(self@);
        }
        self.sealed = true;
    }

    /// Whether the registry has been sealed.
    pub fn is_sealed(&self) -> (sealed: bool)
        ensures
            sealed == self@.sealed,
    {
        self.sealed
    }

    /// The first place at which the table of that type and capability
    /// stands, if there is one.
    fn find_table(&self, concrete_type: &str, capability: &str) -> (place: Option<usize>)
        ensures
            match place {
                Some(i) => first_at(
                    table_keys(self.tables@),
                    (concrete_type@, capability@),
                    i as int,
                ),
                None => !table_keys(self.tables@).contains((concrete_type@, capability@)),
            },
    {
        let mut i: usize = 0;
        while i < self.tables.len()
            invariant
                i <= self.tables@.len(),
                forall|j: int|
                    0 <= j < i ==> table_keys(self.tables@)[j] != (concrete_type@, capability@),
            decreases self.tables@.len() - i,
        {
            let table = &self.tables[i];
            if same_text(table.concrete_type.as_str(), concrete_type) && same_text(
                table.capability.as_str(),
                capability,
            ) {
                return Some(i);
            }
            i += 1;
        }
        None
    }

    /// The effective method table of a type for a capability: the type's
    /// overrides laid over the capability's defaults.
    ///
    /// Fails with `NotImplemented`, naming the capability, where no such
    /// conformance was declared.
    pub fn lookup(&self, concrete_type: &str, capability: &str) -> (found: Result<
        &MethodTable<B>,
        DispatchError,
    >)
        ensures
            self@.well_formed(),
            match self@.lookup(concrete_type@, capability@) {
                Ok(table) => found matches Ok(t) && t@ == table,
                Err(error) => found matches Err(e) && e@ == error,
            },
    {
        proof {
            use_type_invariant(self);
        }
        match self.find_table(concrete_type, capability) {
            Some(i) => {
                proof {
                    lemma_keyed_at(
                        table_keys(self.tables@),
                        table_entries(self.tables@),
                        (concrete_type@, capability@),
                        i as int,
                    );
                }
                Ok(&self.tables[i])
            },
            None => Err(DispatchError::NotImplemented { capability: capability.to_owned() }),
        }
    }

    /// Declares a capability with its methods, each with or without a
    /// default body.
    ///
    /// Fails with `RegistryClosed` on a sealed registry, else with
    /// `DuplicateCapability` where the name is taken, else with
    /// `MalformedSignature` where two methods share a name. A failure leaves
    /// the registry as it was.
    pub fn declare_capability(&mut self, name: &str, methods: Vec<MethodSignature<B>>) -> (declared:
        Result<(), DispatchError>)
        ensures
            final(self)@ == old(self)@.after_capability(name@, views(methods@)),
            final(self)@.well_formed(),
            match old(self)@.capability_refusal(name@, views(methods@)) {
                Some(error) => declared matches Err(e) && e@ == error,
                None => declared is Ok,
            },
    {
        proof {
            use_type_invariant(&*self);
            lemma_signature_names(methods@);
        }
        if self.sealed {
            return Err(DispatchError::RegistryClosed);
        }
        if position(&self.capabilities, name).is_some() {
            return Err(DispatchError::DuplicateCapability);
        }
        if repeats(&methods) {
            return Err(DispatchError::MalformedSignature);
        }
        let ghost before = self@;
        let ghost method_views = views(methods@);
        let added = Capability { name: name.to_owned(), methods };
        let mut tables: Vec<MethodTable<B>> = Vec::new();
        std::mem::swap(&mut tables, &mut self.tables);
        let mut capabilities: Vec<Capability<B>> = Vec::new();
        std::mem::swap(&mut capabilities, &mut self.capabilities);
        proof {
            lemma_capability_appended(capabilities@, added);
            lemma_keyed_appended(
                names_of(capabilities@),
                capability_methods(capabilities@),
                name@,
                method_views,
            );
            law_capability_keeps_well_formed(before, name@, method_views);
        }
        capabilities.push(added);
        self.capabilities = capabilities;
        self.tables = tables;
        Ok(())
    }

    /// Declares that a type conforms to a capability, with the bodies by
    /// which it overrides the capability's methods. A method that is not
    /// overridden gets the capability's default.
    ///
    /// Fails with `RegistryClosed` on a sealed registry, else with
    /// `UnknownCapability` where the capability is not declared, else with
    /// `DuplicateConformance` where the type conforms to it already, else
    /// with `MalformedSignature` where an override repeats a method or names
    /// none of the capability's, else with `MissingImplementation` where a
    /// method without a default is not overridden. A failure leaves the
    /// registry as it was.
    pub fn declare_conformance(
        &mut self,
        concrete_type: &str,
        capability: &str,
        overrides: Vec<MethodBody<B>>,
    ) -> (declared: Result<(), DispatchError>)
        ensures
            final(self)@ == old(self)@.after_conformance(
                concrete_type@,
                capability@,
                views(overrides@),
            ),
            final(self)@.well_formed(),
            match old(self)@.conformance_refusal(concrete_type@, capability@, views(overrides@)) {
                Some(error) => declared matches Err(e) && e@ == error,
                None => declared is Ok,
            },
    {
        proof {
            use_type_invariant(&*self);
        }
        if self.sealed {
            return Err(DispatchError::RegistryClosed);
        }
        let place = match position(&self.capabilities, capability) {
            Some(place) => place,
            None => {
                return Err(DispatchError::UnknownCapability);
            },
        };
        proof {
            lemma_keyed_at(
                names_of(self.capabilities@),
                capability_methods(self.capabilities@),
                capability@,
                place as int,
            );
        }
        if self.find_table(concrete_type, capability).is_some() {
            return Err(DispatchError::DuplicateConformance);
        }
        let methods = &self.capabilities[place].methods;
        if !fits(methods, &overrides) {
            return Err(DispatchError::MalformedSignature);
        }
        let entries = match merge(methods, &overrides) {
            Some(entries) => entries,
            None => {
                return Err(DispatchError::MissingImplementation);
            },
        };
        let ghost before = self@;
        let added = MethodTable {
            concrete_type: concrete_type.to_owned(),
            capability: capability.to_owned(),
            entries,
        };
        let mut tables: Vec<MethodTable<B>> = Vec::new();
        std::mem::swap(&mut tables, &mut self.tables);
        proof {
            lemma_table_appended(tables@, added);
            lemma_keyed_appended(
                table_keys(tables@),
                table_entries(tables@),
                (concrete_type@, capability@),
                views(added.entries@),
            );
            law_conformance_keeps_well_formed(
                before,
                concrete_type@,
                capability@,
                views(overrides@),
            );
        }
        tables.push(added);
        self.tables = tables;
        Ok(())
    }
}

} // verus!
