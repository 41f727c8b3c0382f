//! The names of the methods of the remote API.
//!
//! A method is called `category.methodName`, with the method's name in
//! mixed case; the function that calls it is named in snake case.

use vstd::prelude::*;
use vstd::string::StringExecFns;

verus! {

/// What `heck`'s `MixedCase::to_mixed_case` makes of a text.
pub uninterp spec fn mixed_case(name: Seq<char>) -> Seq<char>;

/// `heck`'s `MixedCase::to_mixed_case` for `str`: the words of `name` run
/// together, the first in lower case and each later one capitalised.
#[verifier::external_body]
fn to_mixed_case(name: &str) -> (mixed: String)
    ensures
        mixed@ == mixed_case(name@),
{
    heck::MixedCase::to_mixed_case(name)
}

/// The name of the method `method` of the category `category`.
pub open spec fn qualified_name(category: Seq<char>, method: Seq<char>) -> Seq<char> {
    category + "."@ + method
}

/// Joins a category and the name of one of its methods.
pub fn qualify(category: &str, method: &str) -> (name: String)
    ensures
        name@ == qualified_name(category@, method@),
{
    let mut name = String::from_str(category);
    name.append(".");
    name.append(method);
    name
}

/// The name of the method of `category` that the function called
/// `function` calls.
pub fn method_name(category: &str, function: &str) -> (name: String)
    ensures
        name@ == qualified_name(category@, mixed_case(function@)),
{
    let mixed = to_mixed_case(function);
    qualify(category, mixed.as_str())
}

} // verus!
