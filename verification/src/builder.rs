//! What the generated call surface of an aggregate is made of: the names of
//! its items and the types that its two entry points return.

use crate::function::{Function, FunctionResult, FunctionResultType};
use crate::function::{FunctionResultTypeView, FunctionResultView, FunctionView};
use vstd::prelude::*;
use vstd::string::StringExecFns;

verus! {

/// `text` in upper case, as `str::to_uppercase` gives it.
pub uninterp spec fn uppercase_of(text: Seq<char>) -> Seq<char>;

/// `str::to_uppercase`: `text` with every character in upper case.
#[verifier::external_body]
fn to_uppercase(text: &str) -> (upper: String)
    ensures
        upper@ == uppercase_of(text@),
{
    text.to_uppercase()
}

/// The names of the items that are generated for one aggregate.
pub struct Identifiers {
    /// The entry point for one item: the name of the aggregate itself.
    pub public_interface: String,
    /// The entry point for several items.
    pub public_interface_multiple: String,
    /// The aggregate as the caller wrote it.
    pub inner_batched: String,
    /// The cell that holds the submission channel of the executor.
    pub executor_producer_channel: String,
    /// The function that starts the executor.
    pub executor_background_fn: String,
}

/// The names as values.
pub struct IdentifiersView {
    pub public_interface: Seq<char>,
    pub public_interface_multiple: Seq<char>,
    pub inner_batched: Seq<char>,
    pub executor_producer_channel: Seq<char>,
    pub executor_background_fn: Seq<char>,
}

impl DeepView for Identifiers {
    type V = IdentifiersView;

    open spec fn deep_view(&self) -> IdentifiersView {
        IdentifiersView {
            public_interface: self.public_interface@,
            public_interface_multiple: self.public_interface_multiple@,
            inner_batched: self.inner_batched@,
            executor_producer_channel: self.executor_producer_channel@,
            executor_background_fn: self.executor_background_fn@,
        }
    }
}

/// The names that belong to the aggregate `id`, whose name in upper case is
/// `upper`.
pub open spec fn identifiers_with(id: Seq<char>, upper: Seq<char>) -> IdentifiersView {
    IdentifiersView {
        public_interface: id,
        public_interface_multiple: id + "_multiple"@,
        inner_batched: id + "__batched"@,
        executor_producer_channel: "BATCHED_"@ + upper,
        executor_background_fn: "spawn_executor_"@ + id,
    }
}

/// The names that belong to the aggregate `id`.
pub open spec fn identifiers_of(id: Seq<char>) -> IdentifiersView {
    identifiers_with(id, uppercase_of(id))
}

/// `first` with `second` behind it.
fn joined(first: &str, second: &str) -> (text: String)
    ensures
        text@ == first@ + second@,
{
    String::from_str(first).concat(second)
}

/// The names of the items that are generated for the aggregate `id`, whose
/// name in upper case is `upper`.
pub fn identifiers_from(id: &str, upper: &str) -> (identifiers: Identifiers)
    ensures
        identifiers.deep_view() == identifiers_with(id@, upper@),
{
    Identifiers {
        public_interface: String::from_str(id),
        public_interface_multiple: joined(id, "_multiple"),
        inner_batched: joined(id, "__batched"),
        executor_producer_channel: joined("BATCHED_", upper),
        executor_background_fn: joined("spawn_executor_", id),
    }
}

/// The names of the items that are generated for `function`.
pub fn build_identifiers(function: &Function) -> (identifiers: Identifiers)
    ensures
        identifiers.deep_view() == identifiers_of(function.identifier@),
{
    let id = function.identifier.as_str();
    let upper = to_uppercase(id);
    identifiers_from(id, upper.as_str())
}

/// `Result<value, error>` as a type.
pub open spec fn result_type_of(value: Seq<char>, error: Seq<char>) -> Seq<char> {
    "Result<"@ + value + ", "@ + error + ">"@
}

/// `Vec<item>` as a type.
pub open spec fn vec_type_of(item: Seq<char>) -> Seq<char> {
    "Vec<"@ + item + ">"@
}

/// What a call with one item returns: the value as it is for the scalar
/// shapes, one output for the vector shapes.
pub open spec fn singular_type_of(returned: FunctionResultView) -> Seq<char> {
    match returned.result_type {
        FunctionResultTypeView::Raw(tokens) => tokens,
        FunctionResultTypeView::VectorRaw(item) => item,
        FunctionResultTypeView::Result(output, error, _) => match output.result_type {
            FunctionResultTypeView::VectorRaw(item) => result_type_of(item, error),
            _ => result_type_of(output.tokens, error),
        },
    }
}

/// What a call with several items returns: the value as it is for the
/// scalar shapes, the outputs of its own items for the vector shapes.
pub open spec fn plural_type_of(returned: FunctionResultView) -> Seq<char> {
    match returned.result_type {
        FunctionResultTypeView::Raw(tokens) => tokens,
        FunctionResultTypeView::VectorRaw(item) => vec_type_of(item),
        FunctionResultTypeView::Result(output, error, _) => match output.result_type {
            FunctionResultTypeView::VectorRaw(item) => result_type_of(vec_type_of(item), error),
            _ => result_type_of(output.tokens, error),
        },
    }
}

/// The type of the error that the aggregate itself returns, where that
/// error is put into a `SharedError` before it is handed on.
pub open spec fn wrapped_error_of(returned: FunctionResultView) -> Option<Seq<char>> {
    match returned.result_type {
        FunctionResultTypeView::Result(_, _, shared) => shared,
        _ => None,
    }
}

fn result_type(value: &str, error: &str) -> (ty: String)
    ensures
        ty@ == result_type_of(value@, error@),
{
    String::from_str("Result<").concat(value).concat(", ").concat(error).concat(">")
}

fn vec_type(item: &str) -> (ty: String)
    ensures
        ty@ == vec_type_of(item@),
{
    String::from_str("Vec<").concat(item).concat(">")
}

/// The return type of the entry point for one item.
pub fn singular_type(returned: &FunctionResult) -> (ty: String)
    ensures
        ty@ == singular_type_of(returned.deep_view()),
{
    proof {
        reveal_with_fuel(crate::function::result_view, 3);
    }
    match &returned.result_type {
        FunctionResultType::Raw(tokens) => tokens.clone(),
        FunctionResultType::VectorRaw(item) => item.clone(),
        FunctionResultType::Result(output, error, _) => match &output.result_type {
            FunctionResultType::VectorRaw(item) => result_type(item.as_str(), error.as_str()),
            _ => result_type(output.tokens.as_str(), error.as_str()),
        },
    }
}

/// The return type of the entry point for several items.
pub fn plural_type(returned: &FunctionResult) -> (ty: String)
    ensures
        ty@ == plural_type_of(returned.deep_view()),
{
    proof {
        reveal_with_fuel(crate::function::result_view, 3);
    }
    match &returned.result_type {
        FunctionResultType::Raw(tokens) => tokens.clone(),
        FunctionResultType::VectorRaw(item) => vec_type(item.as_str()),
        FunctionResultType::Result(output, error, _) => match &output.result_type {
            FunctionResultType::VectorRaw(item) => {
                let outputs = vec_type(item.as_str());
                result_type(outputs.as_str(), error.as_str())
            },
            _ => result_type(output.tokens.as_str(), error.as_str()),
        },
    }
}

/// The type of the aggregate's own error, where it is to be put into a
/// `SharedError`.
pub fn wrapped_error(returned: &FunctionResult) -> (inner: Option<String>)
    ensures
        inner.deep_view() == wrapped_error_of(returned.deep_view()),
{
    match &returned.result_type {
        FunctionResultType::Result(_, _, Some(inner)) => Some(inner.clone()),
        _ => None,
    }
}

} // verus!
