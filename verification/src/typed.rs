//! Dispatch that the compiler decides: a capability as a trait, conformance
//! as an impl, and call sites under the three kinds of bound.

use vstd::prelude::*;
use vstd::string::*;

verus! {

/// A capability with one method, which has a default body.
pub trait TraitName {
    /// The name that the value answers with. A type that gives no body of
    /// its own answers with a fixed text.
    fn function_name(&self) -> (name: String)
        default_ensures
            name@ == "(Default implementation...)"@,
        {
            String::from_str("(Default implementation...)")
        }
}

/// A second capability, with no method of its own.
pub trait OtherTrait {

}

/// A type that conforms to `TraitName` with a body of its own, and to
/// `OtherTrait`.
#[derive(Debug)]
pub struct StructName {
    pub struct_field: String,
}

impl TraitName for StructName {
    /// Answers with the text of the field.
    fn function_name(&self) -> (name: String)
        ensures
            name@ == self.struct_field@,
    {
        self.struct_field.clone()
    }
}

impl OtherTrait for StructName {

}

/// A type that conforms to `TraitName` and keeps the default body.
#[derive(Debug)]
pub struct Unnamed {}

impl TraitName for Unnamed {

}

/// Whether `name` is a text with which `item` may answer `function_name`.
pub open spec fn answers<T: TraitName>(item: &T, name: Seq<char>) -> bool {
    exists|answer: String| call_ensures(T::function_name, (item,), answer) && answer@ == name
}

/// The line that reports one value: a fixed opening, then the value's
/// answer.
pub open spec fn report_of_one(name: Seq<char>) -> Seq<char> {
    "This type implement the trait! "@ + name
}

/// The line that reports two values: a fixed opening, then the two answers
/// with a blank between them.
pub open spec fn report_of_two(first: Seq<char>, second: Seq<char>) -> Seq<char> {
    "This types implement the trait! "@ + first + " "@ + second
}

/// Reports a value that conforms to `TraitName`; the bound is written with
/// `impl`.
pub fn function_a(item: &impl TraitName) -> (line: String)
    ensures
        exists|name: Seq<char>| #[trigger] answers(item, name) && line@ == report_of_one(name),
{
    let name = item.function_name();
    assert(answers(item, name@));
    let mut line = String::from_str("This type implement the trait! ");
    line.append(name.as_str());
    line
}

/// Reports a value that conforms to `TraitName`; the bound is written on a
/// type parameter.
pub fn function_b<T: TraitName>(item: &T) -> (line: String)
    ensures
        exists|name: Seq<char>| #[trigger] answers(item, name) && line@ == report_of_one(name),
{
    function_a(item)
}

/// Reports two values that conform to `TraitName`. Each is bound by itself,
/// so the two may be of different types.
pub fn function_c(item1: &impl TraitName, item2: &impl TraitName) -> (line: String)
    ensures
        exists|first: Seq<char>, second: Seq<char>|
            #[trigger] answers(item1, first) && #[trigger] answers(item2, second) && line@
                == report_of_two(first, second),
{
    let first = item1.function_name();
    let second = item2.function_name();
    assert(answers(item1, first@) && answers(item2, second@));
    let mut line = String::from_str("This types implement the trait! ");
    line.append(first.as_str());
    line.append(" ");
    line.append(second.as_str());
    line
}

/// Reports two values that conform to `TraitName` and are of one type: the
/// one type parameter ties them.
pub fn function_d<T: TraitName>(item1: &T, item2: &T) -> (line: String)
    ensures
        exists|first: Seq<char>, second: Seq<char>|
            #[trigger] answers(item1, first) && #[trigger] answers(item2, second) && line@
                == report_of_two(first, second),
{
    function_c(item1, item2)
}

/// Takes a value that conforms to both capabilities and does nothing with
/// it: the bound is all that the call states. The bound is written with
/// `impl`.
pub fn function_e(item: &(impl TraitName + OtherTrait)) {
}

/// Takes a value that conforms to both capabilities and does nothing with
/// it: the bound is all that the call states. The bound is written on a
/// type parameter.
pub fn function_f<T: TraitName + OtherTrait>(item: &T) {
}

/// A value that conforms to `TraitName`, for a call site that has none at
/// hand: a `StructName` with nothing in its field.
pub fn some_function_a() -> (item: StructName)
    ensures
        item.struct_field@ == Seq::<char>::empty(),
{
    StructName { struct_field: String::new() }
}

} // verus!
