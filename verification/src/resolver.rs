//! The dispatch resolver: from a bound and a concrete type, or a handle, to
//! the method tables, and from a call to the body that it runs.

use vstd::prelude::*;
use vstd::string::*;

use crate::bound::Bound;
use crate::error::DispatchError;
use crate::model::{
    all_of_type, ambiguous, bind, bind_qualified, binding_in, body_of, first_at,
    lemma_first_place_is, suppliers, supplies, table_capabilities, views, BindingView, TableView,
};
use crate::registry::{MethodTable, Registry};
use crate::text::same_text;

verus! {

/// A value known only by the tag of its concrete type.
#[derive(Debug)]
pub struct Handle<P> {
    /// The name of the concrete type of the payload.
    pub type_tag: String,
    /// The value itself, which resolution never reads.
    pub payload: P,
}

impl<P> Handle<P> {
    /// A handle on a value of the named concrete type.
    pub fn new(type_tag: &str, payload: P) -> (handle: Self)
        ensures
            handle.type_tag@ == type_tag@,
            handle.payload == payload,
    {
        Handle { type_tag: type_tag.to_owned(), payload }
    }
}

/// The body to execute for one call.
#[derive(Debug)]
pub struct Binding<B> {
    pub concrete_type: String,
    pub capability: String,
    pub method: String,
    pub body: B,
}

impl<B> View for Binding<B> {
    type V = BindingView<B>;

    open spec fn view(&self) -> BindingView<B> {
        BindingView {
            concrete_type: self.concrete_type@,
            capability: self.capability@,
            method: self.method@,
            body: self.body,
        }
    }
}

/// A resolved bound: the method tables of one concrete type for the
/// capabilities of the bound, in the bound's order.
#[derive(Debug)]
pub struct Resolution<'r, B> {
    tables: Vec<&'r MethodTable<B>>,
}

impl<'r, B> View for Resolution<'r, B> {
    type V = Seq<TableView<B>>;

    closed spec fn view(&self) -> Seq<TableView<B>> {
        Seq::new(self.tables@.len(), |i: int| self.tables@[i]@)
    }
}

impl<'r, B: Copy> Resolution<'r, B> {
    /// How many tables the resolution holds.
    pub fn len(&self) -> (len: usize)
        ensures
            len == self@.len(),
    {
        self.tables.len()
    }

    /// The table at a place of the resolution, if it reaches that far.
    pub fn table(&self, place: usize) -> (table: Option<&'r MethodTable<B>>)
        ensures
            match table {
                Some(table) => place < self@.len() && table@ == self@[place as int],
                None => place >= self@.len(),
            },
    {
        if place < self.tables.len() {
            Some(self.tables[place])
        } else {
            None
        }
    }

    /// The binding of a method within one table of the resolution.
    fn binding_at(&self, place: usize, method: &str, body: B) -> (binding: Binding<B>)
        requires
            place < self@.len(),
            body_of(self@[place as int].entries, method@) == Some(body),
        ensures
            binding@ == binding_in(self@[place as int], method@),
    {
        let table = self.tables[place];
        Binding {
            concrete_type: table.concrete_type().to_owned(),
            capability: table.capability().to_owned(),
            method: method.to_owned(),
            body,
        }
    }

    /// The first table that supplies the method, with the body it binds to
    /// the method.
    fn first_supplier(&self, method: &str) -> (found: Option<(usize, B)>)
        ensures
            match found {
                Some((place, body)) => first_at(suppliers(self@, method@), true, place as int)
                    && body_of(self@[place as int].entries, method@) == Some(body),
                None => !suppliers(self@, method@).contains(true),
            },
    {
        let mut place: usize = 0;
        while place < self.tables.len()
            invariant
                place <= self@.len(),
                self@.len() == self.tables@.len(),
                forall|j: int| 0 <= j < place ==> !suppliers(self@, method@)[j],
            decreases self@.len() - place,
        {
            match self.tables[place].body(method) {
                Some(body) => {
                    assert(suppliers(self@, method@)[place as int]);
                    return Some((place, body));
                },
                None => {
                    assert(!suppliers(self@, method@)[place as int]);
                },
            }
            place += 1;
        }
        None
    }

    /// Binds an unqualified call of a method.
    ///
    /// Fails with `MissingImplementation` where no table supplies the
    /// method, and with `AmbiguousMethod` where tables of two capabilities
    /// do: such a call has to name its capability.
    pub fn bind(&self, method: &str) -> (binding: Result<Binding<B>, DispatchError>)
        ensures
            match bind(self@, method@) {
                Ok(view) => binding matches Ok(b) && b@ == view,
                Err(error) => binding matches Err(e) && e@ == error,
            },
    {
        let ghost supplied = suppliers(self@, method@);
        let (first, body) = match self.first_supplier(method) {
            Some(found) => found,
            None => {
                return Err(DispatchError::MissingImplementation);
            },
        };
        proof {
            lemma_first_place_is(supplied, true, first as int);
        }
        let count = self.tables.len();
        assert(first < count == self@.len());
        let mut other: usize = first + 1;
        while other < count
            invariant
                first < other <= count == self@.len(),
                self@.len() == self.tables@.len(),
                supplied == suppliers(self@, method@),
                supplied[first as int],
                forall|j: int|
                    first < j < other && supplied[j] ==> self@[j].capability
                        == self@[first as int].capability,
            decreases count - other,
        {
            assert(self@[other as int] == self.tables@[other as int]@);
            assert(self@[first as int] == self.tables@[first as int]@);
            if self.tables[other].body(method).is_some() && !same_text(
                self.tables[other].capability(),
                self.tables[first].capability(),
            ) {
                assert(supplies(self@[other as int], method@));
                assert(supplies(self@[first as int], method@));
                return Err(DispatchError::AmbiguousMethod);
            }
            assert(supplied[other as int] ==> self@[other as int].capability
                == self@[first as int].capability);
            other += 1;
        }
        proof {
            assert(!ambiguous(self@, method@)) by {
                assert forall|i: int, j: int|
                    0 <= i < self@.len() && 0 <= j < self@.len() && supplies(self@[i], method@)
                        && supplies(self@[j], method@) implies self@[i].capability
                    == self@[j].capability by {
                    assert(supplied[i] && supplied[j]);
                }
            }
        }
        Ok(self.binding_at(first, method, body))
    }

    /// Binds a call of a method that names its capability.
    ///
    /// Fails with `NotImplemented`, naming the capability, where the
    /// resolution holds no table of it, and with `MissingImplementation`
    /// where that table does not supply the method.
    pub fn bind_qualified(&self, capability: &str, method: &str) -> (binding: Result<
        Binding<B>,
        DispatchError,
    >)
        ensures
            match bind_qualified(self@, capability@, method@) {
                Ok(view) => binding matches Ok(b) && b@ == view,
                Err(error) => binding matches Err(e) && e@ == error,
            },
    {
        let ghost capabilities = table_capabilities(self@);
        let mut place: usize = 0;
        while place < self.tables.len()
            invariant
                place <= self@.len(),
                self@.len() == self.tables@.len(),
                capabilities == table_capabilities(self@),
                forall|j: int| 0 <= j < place ==> capabilities[j] != capability@,
            decreases self@.len() - place,
        {
            if same_text(self.tables[place].capability(), capability) {
                proof {
                    assert(capabilities[place as int] == capability@);
                    lemma_first_place_is(capabilities, capability@, place as int);
                }
                return match self.tables[place].body(method) {
                    Some(body) => Ok(self.binding_at(place, method, body)),
                    None => Err(DispatchError::MissingImplementation),
                };
            }
            place += 1;
        }
        Err(DispatchError::NotImplemented { capability: capability.to_owned() })
    }
}

/// Whether every one of the types is the given one.
fn all_same(types: &[&str], concrete_type: &str) -> (same: bool)
    ensures
        same == all_of_type(views(types@), concrete_type@),
{
    let mut i: usize = 0;
    while i < types.len()
        invariant
            i <= types@.len(),
            forall|j: int| 0 <= j < i ==> views(types@)[j] == concrete_type@,
        decreases types@.len() - i,
    {
        if !same_text(types[i], concrete_type) {
            assert(views(types@)[i as int] != concrete_type@);
            return false;
        }
        i += 1;
    }
    true
}

/// Resolves a bound for arguments whose concrete type the call site knows.
///
/// `concrete_type` is the type of the argument; `linked` holds the types of
/// the further arguments that the call site passes under the same bound.
/// Only a bound that ties types looks at them: it fails with `TypeMismatch`
/// where one of them differs from `concrete_type`, before any table is
/// looked up. Then the type has to conform to each capability of the bound;
/// the failure is `NotImplemented` and names the first, in the bound's
/// order, to which it does not.
pub fn resolve_fixed<'r, B: Copy>(
    registry: &'r Registry<B>,
    bound: &Bound,
    concrete_type: &str,
    linked: &[&str],
) -> (resolved: Result<Resolution<'r, B>, DispatchError>)
    ensures
        match registry@.resolve_fixed(bound@, concrete_type@, views(linked@)) {
            Ok(tables) => resolved matches Ok(r) && r@ == tables,
            Err(error) => resolved matches Err(e) && e@ == error,
        },
{
    if bound.ties_types() && !all_same(linked, concrete_type) {
        return Err(DispatchError::TypeMismatch);
    }
    let ghost capabilities = bound@.capabilities();
    let ghost conformity = registry@.conformity(concrete_type@, capabilities);
    let count = bound.count();
    let mut tables: Vec<&'r MethodTable<B>> = Vec::new();
    let mut place: usize = 0;
    while place < count
        invariant
            place <= count == capabilities.len(),
            tables@.len() == place,
            capabilities == bound@.capabilities(),
            conformity == registry@.conformity(concrete_type@, capabilities),
            !(bound@.ties_types() && !all_of_type(views(linked@), concrete_type@)),
            forall|j: int| 0 <= j < place ==> conformity[j],
            forall|j: int|
                0 <= j < place ==> (#[trigger] tables@[j])@ == registry@.table(
                    concrete_type@,
                    capabilities[j],
                ),
        decreases count - place,
    {
        match registry.lookup(concrete_type, bound.capability_at(place)) {
            Ok(table) => {
                assert(conformity[place as int]);
                tables.push(table);
            },
            Err(error) => {
                proof {
                    assert(!conformity[place as int]);
                    lemma_first_place_is(conformity, false, place as int);
                }
                return Err(error);
            },
        }
        place += 1;
    }
    let resolution = Resolution { tables };
    proof {
        assert(!conformity.contains(false));
        assert(resolution@ =~= registry@.tables(concrete_type@, capabilities));
    }
    Ok(resolution)
}

/// Resolves a bound for a value known only through its handle.
///
/// The handle's tag stands for the concrete type. Each handle is resolved by
/// itself: nothing is tied to it, so this never fails with `TypeMismatch`,
/// whatever the bound.
pub fn resolve_indirect<'r, B: Copy, P>(
    registry: &'r Registry<B>,
    bound: &Bound,
    handle: &Handle<P>,
) -> (resolved: Result<Resolution<'r, B>, DispatchError>)
    ensures
        match registry@.resolve_indirect(bound@, handle.type_tag@) {
            Ok(tables) => resolved matches Ok(r) && r@ == tables,
            Err(error) => resolved matches Err(e) && e@ == error,
        },
{
    let alone: Vec<&str> = Vec::new();
    proof {
        assert(views(alone@) =~= Seq::<Seq<char>>::empty());
    }
    resolve_fixed(registry, bound, handle.type_tag.as_str(), alone.as_slice())
}

} // verus!
