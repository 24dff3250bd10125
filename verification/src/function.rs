//! The declaration of an aggregate: the function that the caller wrote, and
//! what its signature says of the shape of its result.

use crate::syntax::{parse_fn_arg, parse_item_fn, parse_type_path};
use crate::syntax::{syn_fn_arg, syn_item_fn, syn_type_path};
use crate::syntax::{RawArg, RawArgView, RawFn, RawFnView, RawSegment, RawSegmentView};
use crate::text::same;
use vstd::prelude::*;

verus! {

/// Why a function cannot be declared an aggregate.
#[derive(Debug, Clone, Copy, PartialEq, Eq, Structural)]
pub enum FunctionError {
    /// The text is no free-standing function.
    InvalidFunction,
    /// The function takes `self`.
    SelfReference,
    /// The function takes more than one argument.
    TooManyArguments,
    /// The argument is no plain name.
    UnsupportedArgumentName,
    /// The argument is no `Vec<T>`.
    ArgumentNotVec,
    /// The function takes no argument.
    MissingArgument,
    /// A `Vec`, a `Result` or a `SharedError` of the signature is written in
    /// a form that is not provided for: without its type arguments between
    /// angle brackets, or with an error that is no path.
    Unsupported,
}

/// The shape of what an aggregate returns.
#[derive(Debug, Clone, Copy, PartialEq, Eq, Structural)]
pub enum Shape {
    /// One value, shared by all submitters.
    Scalar,
    /// One output for each item.
    Vector,
    /// One value or one error.
    FallibleScalar,
    /// One output for each item, or one error.
    FallibleVector,
}

/// A return type and what it is taken for.
#[derive(Debug)]
pub struct FunctionResult {
    pub result_type: FunctionResultType,
    /// The type as it stands.
    pub tokens: String,
}

/// What a return type is taken for.
#[derive(Debug)]
pub enum FunctionResultType {
    /// Any type but the two below, with the type as it stands.
    Raw(String),
    /// A `Vec`, with its item type.
    VectorRaw(String),
    /// A `Result`, with what its value is taken for, its error type, and,
    /// where the error is a `SharedError`, the type of the error inside.
    Result(Box<FunctionResult>, String, Option<String>),
}

/// A return type as a value.
pub struct FunctionResultView {
    pub result_type: FunctionResultTypeView,
    pub tokens: Seq<char>,
}

/// What a return type is taken for, as a value.
pub enum FunctionResultTypeView {
    Raw(Seq<char>),
    VectorRaw(Seq<char>),
    Result(Box<FunctionResultView>, Seq<char>, Option<Seq<char>>),
}

/// A return type taken as a value.
pub open spec fn result_view(returned: FunctionResult) -> FunctionResultView
    decreases returned,
{
    FunctionResultView {
        result_type: match returned.result_type {
            FunctionResultType::Raw(tokens) => FunctionResultTypeView::Raw(tokens@),
            FunctionResultType::VectorRaw(item) => FunctionResultTypeView::VectorRaw(item@),
            FunctionResultType::Result(output, error, shared) => FunctionResultTypeView::Result(
                Box::new(result_view(*output)),
                error@,
                shared.deep_view(),
            ),
        },
        tokens: returned.tokens@,
    }
}

impl DeepView for FunctionResult {
    type V = FunctionResultView;

    open spec fn deep_view(&self) -> FunctionResultView {
        result_view(*self)
    }
}

/// The shape that a return type stands for. Only the outermost `Result` and
/// the `Vec` directly inside it count.
pub open spec fn shape_of(returned: FunctionResultView) -> Shape {
    match returned.result_type {
        FunctionResultTypeView::Raw(_) => Shape::Scalar,
        FunctionResultTypeView::VectorRaw(_) => Shape::Vector,
        FunctionResultTypeView::Result(output, _, _) => match output.result_type {
            FunctionResultTypeView::VectorRaw(_) => Shape::FallibleVector,
            _ => Shape::FallibleScalar,
        },
    }
}

impl FunctionResult {
    /// The shape that the return type stands for.
    pub fn shape(&self) -> (shape: Shape)
        ensures
            shape == shape_of(self.deep_view()),
    {
        proof {
            reveal_with_fuel(result_view, 3);
        }
        match &self.result_type {
            FunctionResultType::Raw(_) => Shape::Scalar,
            FunctionResultType::VectorRaw(_) => Shape::Vector,
            FunctionResultType::Result(output, _, _) => match &output.result_type {
                FunctionResultType::VectorRaw(_) => Shape::FallibleVector,
                _ => Shape::FallibleScalar,
            },
        }
    }
}

impl Shape {
    /// Whether the aggregate may fail.
    pub fn is_result(self) -> (fallible: bool)
        ensures
            fallible == (self == Shape::FallibleScalar || self == Shape::FallibleVector),
    {
        match self {
            Shape::FallibleScalar | Shape::FallibleVector => true,
            _ => false,
        }
    }

    /// Whether the aggregate returns one output for each item.
    pub fn is_vec(self) -> (vector: bool)
        ensures
            vector == (self == Shape::Vector || self == Shape::FallibleVector),
    {
        match self {
            Shape::Vector | Shape::FallibleVector => true,
            _ => false,
        }
    }
}

/// What the outermost path of a return type says.
pub enum ReturnKind {
    /// Neither of the two below.
    Raw,
    /// A `Vec`, with its item type.
    Vector(String),
    /// A `Result`, with its value type and its error type.
    Fallible(String, String),
}

/// A return kind as a value.
pub enum ReturnKindView {
    Raw,
    Vector(Seq<char>),
    Fallible(Seq<char>, Seq<char>),
}

impl DeepView for ReturnKind {
    type V = ReturnKindView;

    open spec fn deep_view(&self) -> ReturnKindView {
        match self {
            ReturnKind::Raw => ReturnKindView::Raw,
            ReturnKind::Vector(item) => ReturnKindView::Vector(item@),
            ReturnKind::Fallible(output, error) => ReturnKindView::Fallible(output@, error@),
        }
    }
}

/// What a return type says, by the first segment of its path: a `Vec` with
/// its arguments, a `Result` with its first two arguments, both types, or
/// neither. A type that is no path is neither.
pub open spec fn return_kind_of(path: Option<Seq<RawSegmentView>>) -> Result<
    ReturnKindView,
    FunctionError,
> {
    match path {
        None => Ok(ReturnKindView::Raw),
        Some(segments) => if segments.len() == 0 {
            Ok(ReturnKindView::Raw)
        } else if segments[0].ident == "Vec"@ {
            match segments[0].arguments {
                Some(generics) => Ok(ReturnKindView::Vector(generics.all)),
                None => Err(FunctionError::Unsupported),
            }
        } else if segments[0].ident == "Result"@ {
            match segments[0].arguments {
                Some(generics) => if generics.args.len() >= 2 && generics.args[0].is_type
                    && generics.args[1].is_type {
                    Ok(ReturnKindView::Fallible(generics.args[0].text, generics.args[1].text))
                } else {
                    Err(FunctionError::Unsupported)
                },
                None => Err(FunctionError::Unsupported),
            }
        } else {
            Ok(ReturnKindView::Raw)
        },
    }
}

/// The type of the error inside, where an error type is a `SharedError` by
/// the last segment of its path; `None` for any other path.
pub open spec fn inner_shared_error_of(path: Option<Seq<RawSegmentView>>) -> Result<
    Option<Seq<char>>,
    FunctionError,
> {
    match path {
        None => Err(FunctionError::Unsupported),
        Some(segments) => if segments.len() == 0 {
            Err(FunctionError::Unsupported)
        } else if segments.last().ident != "SharedError"@ {
            Ok(None)
        } else {
            match segments.last().arguments {
                Some(generics) => Ok(Some(generics.all)),
                None => Err(FunctionError::Unsupported),
            }
        },
    }
}

/// An outcome taken as a value.
pub open spec fn deep_outcome<T: DeepView>(outcome: Result<T, FunctionError>) -> Result<
    T::V,
    FunctionError,
> {
    match outcome {
        Ok(value) => Ok(value.deep_view()),
        Err(error) => Err(error),
    }
}

/// Computes [`return_kind_of`].
pub fn return_kind(path: &Option<Vec<RawSegment>>) -> (kind: Result<ReturnKind, FunctionError>)
    ensures
        deep_outcome(kind) == return_kind_of(path.deep_view()),
{
    let segments = match path {
        Some(segments) => segments,
        None => { return Ok(ReturnKind::Raw); },
    };
    if segments.len() == 0 {
        return Ok(ReturnKind::Raw);
    }
    let first = &segments[0];
    assert(path.deep_view()->0[0] == first.deep_view());
    if same(first.ident.as_str(), "Vec") {
        match &first.arguments {
            Some(generics) => Ok(ReturnKind::Vector(generics.all.clone())),
            None => Err(FunctionError::Unsupported),
        }
    } else if same(first.ident.as_str(), "Result") {
        match &first.arguments {
            Some(generics) => {
                if generics.args.len() >= 2 && generics.args[0].is_type && generics.args[1].is_type {
                    assert(generics.deep_view().args[0] == generics.args@[0].deep_view());
                    assert(generics.deep_view().args[1] == generics.args@[1].deep_view());
                    Ok(
                        ReturnKind::Fallible(
                            generics.args[0].text.clone(),
                            generics.args[1].text.clone(),
                        ),
                    )
                } else {
                    assert(generics.args@.len() >= 2 ==> generics.deep_view().args[0]
                        == generics.args@[0].deep_view() && generics.deep_view().args[1]
                        == generics.args@[1].deep_view());
                    Err(FunctionError::Unsupported)
                }
            },
            None => Err(FunctionError::Unsupported),
        }
    } else {
        Ok(ReturnKind::Raw)
    }
}

/// Computes [`inner_shared_error_of`].
pub fn inner_shared_error(path: &Option<Vec<RawSegment>>) -> (inner: Result<
    Option<String>,
    FunctionError,
>)
    ensures
        deep_outcome(inner) == inner_shared_error_of(path.deep_view()),
{
    let segments = match path {
        Some(segments) => segments,
        None => { return Err(FunctionError::Unsupported); },
    };
    if segments.len() == 0 {
        return Err(FunctionError::Unsupported);
    }
    let last = &segments[segments.len() - 1];
    assert(path.deep_view()->0.last() == last.deep_view());
    if !same(last.ident.as_str(), "SharedError") {
        return Ok(None);
    }
    match &last.arguments {
        Some(generics) => Ok(Some(generics.all.clone())),
        None => Err(FunctionError::Unsupported),
    }
}

/// What a `Result` with the text `tokens` is taken for, where its value
/// type is taken for `value`, its error type has the text `error`, and
/// `error_path` is the path of that error type.
pub open spec fn fallible_of(
    tokens: Seq<char>,
    value: FunctionResultView,
    error: Seq<char>,
    error_path: Option<Seq<RawSegmentView>>,
) -> Result<FunctionResultView, FunctionError> {
    match inner_shared_error_of(error_path) {
        Err(refused) => Err(refused),
        Ok(shared) => Ok(
            FunctionResultView {
                result_type: FunctionResultTypeView::Result(Box::new(value), error, shared),
                tokens,
            },
        ),
    }
}

/// What the return type `ty` is taken for, where a `Result` may stand in a
/// `Result` up to `depth` times.
pub open spec fn returned_within(ty: Seq<char>, depth: nat) -> Result<
    FunctionResultView,
    FunctionError,
>
    decreases depth,
{
    match return_kind_of(syn_type_path(ty)) {
        Err(error) => Err(error),
        Ok(ReturnKindView::Raw) => Ok(
            FunctionResultView { result_type: FunctionResultTypeView::Raw(ty), tokens: ty },
        ),
        Ok(ReturnKindView::Vector(item)) => Ok(
            FunctionResultView { result_type: FunctionResultTypeView::VectorRaw(item), tokens: ty },
        ),
        Ok(ReturnKindView::Fallible(output, error)) => if depth == 0 {
            Err(FunctionError::Unsupported)
        } else {
            match returned_within(output, (depth - 1) as nat) {
                Err(refused) => Err(refused),
                Ok(value) => fallible_of(ty, value, error, syn_type_path(error)),
            }
        },
    }
}

/// What the return type `ty` is taken for. The value type of a `Result` is
/// read in the same way, and so on inwards, as many times as `ty` has
/// characters: more than any type of that length can nest.
pub open spec fn returned_of(ty: Seq<char>) -> Result<FunctionResultView, FunctionError> {
    returned_within(ty, ty.len())
}

impl FunctionResult {
    /// A return type that is taken as it stands.
    pub fn raw(tokens: String) -> (returned: FunctionResult)
        ensures
            returned.deep_view() == (FunctionResultView {
                result_type: FunctionResultTypeView::Raw(tokens@),
                tokens: tokens@,
            }),
    {
        FunctionResult { result_type: FunctionResultType::Raw(tokens.clone()), tokens }
    }

    /// A `Vec` with the text `tokens` and the item type `item`.
    pub fn vector(tokens: String, item: String) -> (returned: FunctionResult)
        ensures
            returned.deep_view() == (FunctionResultView {
                result_type: FunctionResultTypeView::VectorRaw(item@),
                tokens: tokens@,
            }),
    {
        FunctionResult { result_type: FunctionResultType::VectorRaw(item), tokens }
    }

    /// A `Result` with the text `tokens`, whose value type was read as
    /// `value` and whose error type has the text `error` and the path
    /// `error_path`. It is refused where the error type is no path, and where
    /// it is a `SharedError` without its argument between angle brackets.
    pub fn fallible(
        tokens: String,
        value: FunctionResult,
        error: String,
        error_path: &Option<Vec<RawSegment>>,
    ) -> (returned: Result<FunctionResult, FunctionError>)
        ensures
            deep_outcome(returned) == fallible_of(
                tokens@,
                value.deep_view(),
                error@,
                error_path.deep_view(),
            ),
    {
        match inner_shared_error(error_path) {
            Ok(shared) => Ok(
                FunctionResult {
                    result_type: FunctionResultType::Result(Box::new(value), error, shared),
                    tokens,
                },
            ),
            Err(refused) => Err(refused),
        }
    }
}

/// Reads the return type `ty`, with `depth` levels of `Result` in `Result`
/// to go.
fn read_returned(ty: &str, depth: usize) -> (returned: Result<FunctionResult, FunctionError>)
    ensures
        deep_outcome(returned) == returned_within(ty@, depth as nat),
    decreases depth,
{
    let path = parse_type_path(ty);
    match return_kind(&path) {
        Err(error) => Err(error),
        Ok(ReturnKind::Raw) => Ok(FunctionResult::raw(ty.to_owned())),
        Ok(ReturnKind::Vector(item)) => Ok(FunctionResult::vector(ty.to_owned(), item)),
        Ok(ReturnKind::Fallible(output, error)) => {
            if depth == 0 {
                return Err(FunctionError::Unsupported);
            }
            let value = match read_returned(output.as_str(), depth - 1) {
                Ok(value) => value,
                Err(refused) => { return Err(refused); },
            };
            let error_path = parse_type_path(error.as_str());
            FunctionResult::fallible(ty.to_owned(), value, error, &error_path)
        },
    }
}

/// Reads the return type `ty`.
pub fn parsed_returned(ty: &str) -> (returned: Result<FunctionResult, FunctionError>)
    ensures
        deep_outcome(returned) == returned_of(ty@),
{
    read_returned(ty, ty.unicode_len())
}

/// One argument of a function as it was read: its text, what the text
/// holds, and the path of its type where the type is a path.
pub struct ParsedArg {
    pub text: String,
    pub parts: Option<RawArg>,
    pub path: Option<Vec<RawSegment>>,
}

/// A read argument as a value.
pub struct ParsedArgView {
    pub text: Seq<char>,
    pub parts: Option<RawArgView>,
    pub path: Option<Seq<RawSegmentView>>,
}

impl DeepView for ParsedArg {
    type V = ParsedArgView;

    open spec fn deep_view(&self) -> ParsedArgView {
        ParsedArgView {
            text: self.text@,
            parts: self.parts.deep_view(),
            path: self.path.deep_view(),
        }
    }
}

/// The one argument of an aggregate.
pub struct BatchedArgument {
    /// The argument as it stands.
    pub tokens: String,
    /// Its name.
    pub name: String,
    /// The type of one item: the `T` of `Vec<T>`.
    pub item_type: String,
}

/// The argument of an aggregate as a value.
pub struct BatchedArgumentView {
    pub tokens: Seq<char>,
    pub name: Seq<char>,
    pub item_type: Seq<char>,
}

impl DeepView for BatchedArgument {
    type V = BatchedArgumentView;

    open spec fn deep_view(&self) -> BatchedArgumentView {
        BatchedArgumentView { tokens: self.tokens@, name: self.name@, item_type: self.item_type@ }
    }
}

/// A typed argument as the argument of an aggregate: it has a plain name,
/// and its type is a path whose last segment is a `Vec` with at least one
/// argument between angle brackets, the item type.
pub open spec fn as_batched(
    text: Seq<char>,
    name: Option<Seq<char>>,
    path: Option<Seq<RawSegmentView>>,
) -> Result<BatchedArgumentView, FunctionError> {
    match name {
        None => Err(FunctionError::UnsupportedArgumentName),
        Some(name) => match path {
            None => Err(FunctionError::ArgumentNotVec),
            Some(segments) => if segments.len() == 0 || segments.last().ident != "Vec"@ {
                Err(FunctionError::ArgumentNotVec)
            } else {
                match segments.last().arguments {
                    None => Err(FunctionError::Unsupported),
                    Some(generics) => if generics.args.len() == 0 {
                        Err(FunctionError::Unsupported)
                    } else {
                        Ok(
                            BatchedArgumentView {
                                tokens: text,
                                name,
                                item_type: generics.args[0].text,
                            },
                        )
                    },
                }
            },
        },
    }
}

/// The argument found in `args`, read from first to last up to the first
/// that is refused: `self` is refused, and so is a second argument.
pub open spec fn select(args: Seq<ParsedArgView>) -> Result<
    Option<BatchedArgumentView>,
    FunctionError,
>
    decreases args.len(),
{
    if args.len() == 0 {
        Ok(None)
    } else {
        match select(args.drop_last()) {
            Err(error) => Err(error),
            Ok(found) => match args.last().parts {
                None => Err(FunctionError::InvalidFunction),
                Some(RawArgView::Receiver) => Err(FunctionError::SelfReference),
                Some(RawArgView::Typed { name, ty }) => if found is Some {
                    Err(FunctionError::TooManyArguments)
                } else {
                    match as_batched(args.last().text, name, args.last().path) {
                        Ok(argument) => Ok(Some(argument)),
                        Err(error) => Err(error),
                    }
                },
            },
        }
    }
}

/// The one argument that `args` declare.
pub open spec fn batched_argument_of(args: Seq<ParsedArgView>) -> Result<
    BatchedArgumentView,
    FunctionError,
> {
    match select(args) {
        Err(error) => Err(error),
        Ok(None) => Err(FunctionError::MissingArgument),
        Ok(Some(argument)) => Ok(argument),
    }
}

proof fn lemma_refused_stays_refused(args: Seq<ParsedArgView>, n: int)
    requires
        0 <= n <= args.len(),
        select(args.take(n)) is Err,
    ensures
        select(args) == select(args.take(n)),
    decreases args.len() - n,
{
    if n < args.len() {
        assert(args.take(n + 1).drop_last() =~= args.take(n));
        lemma_refused_stays_refused(args, n + 1);
    } else {
        assert(args.take(n) =~= args);
    }
}

/// Reads one typed argument as the argument of an aggregate.
fn read_batched(text: &String, name: &Option<String>, path: &Option<Vec<RawSegment>>) -> (argument:
    Result<BatchedArgument, FunctionError>)
    ensures
        deep_outcome(argument) == as_batched(text@, name.deep_view(), path.deep_view()),
{
    let name = match name {
        Some(name) => name.clone(),
        None => { return Err(FunctionError::UnsupportedArgumentName); },
    };
    let segments = match path {
        Some(segments) => segments,
        None => { return Err(FunctionError::ArgumentNotVec); },
    };
    if segments.len() == 0 {
        return Err(FunctionError::ArgumentNotVec);
    }
    let last = &segments[segments.len() - 1];
    assert(path.deep_view()->0.last() == last.deep_view());
    if !same(last.ident.as_str(), "Vec") {
        return Err(FunctionError::ArgumentNotVec);
    }
    let generics = match &last.arguments {
        Some(generics) => generics,
        None => { return Err(FunctionError::Unsupported); },
    };
    if generics.args.len() == 0 {
        return Err(FunctionError::Unsupported);
    }
    assert(generics.deep_view().args[0] == generics.args@[0].deep_view());
    Ok(BatchedArgument { tokens: text.clone(), name, item_type: generics.args[0].text.clone() })
}

/// The one argument that `args` declare, or why they are refused.
pub fn batched_argument(args: &Vec<ParsedArg>) -> (argument: Result<
    BatchedArgument,
    FunctionError,
>)
    ensures
        deep_outcome(argument) == batched_argument_of(args.deep_view()),
{
    let mut found: Option<BatchedArgument> = None;
    let mut i: usize = 0;
    while i < args.len()
        invariant
            i <= args@.len(),
            select(args.deep_view().take(i as int)) == Ok::<
                Option<BatchedArgumentView>,
                FunctionError,
            >(found.deep_view()),
        decreases args@.len() - i,
    {
        proof {
            assert(args.deep_view().take(i + 1).drop_last() =~= args.deep_view().take(i as int));
            assert(args.deep_view().take(i + 1).last() == args@[i as int].deep_view());
        }
        let read = match &args[i].parts {
            None => Err(FunctionError::InvalidFunction),
            Some(RawArg::Receiver) => Err(FunctionError::SelfReference),
            Some(RawArg::Typed { name, ty }) => {
                if found.is_some() {
                    Err(FunctionError::TooManyArguments)
                } else {
                    read_batched(&args[i].text, name, &args[i].path)
                }
            },
        };
        match read {
            Ok(argument) => {
                found = Some(argument);
            },
            Err(error) => {
                proof {
                    lemma_refused_stays_refused(args.deep_view(), i + 1);
                }
                return Err(error);
            },
        }
        i += 1;
    }
    proof {
        assert(args.deep_view().take(i as int) =~= args.deep_view());
    }
    match found {
        Some(argument) => Ok(argument),
        None => Err(FunctionError::MissingArgument),
    }
}

/// A function declared an aggregate.
#[derive(Debug)]
pub struct Function {
    /// The attributes above the function.
    pub macros: Vec<String>,
    /// The function's name.
    pub identifier: String,
    /// Its visibility.
    pub visibility: String,
    /// Its body.
    pub inner: String,
    /// Its one argument, as it stands.
    pub batched_arg: String,
    /// The argument's name.
    pub batched_arg_name: String,
    /// The type of one item.
    pub batched_arg_type: String,
    /// What it returns.
    pub returned: FunctionResult,
}

/// A declared aggregate as a value.
pub struct FunctionView {
    pub macros: Seq<Seq<char>>,
    pub identifier: Seq<char>,
    pub visibility: Seq<char>,
    pub inner: Seq<char>,
    pub batched_arg: Seq<char>,
    pub batched_arg_name: Seq<char>,
    pub batched_arg_type: Seq<char>,
    pub returned: FunctionResultView,
}

impl DeepView for Function {
    type V = FunctionView;

    open spec fn deep_view(&self) -> FunctionView {
        FunctionView {
            macros: self.macros.deep_view(),
            identifier: self.identifier@,
            visibility: self.visibility@,
            inner: self.inner@,
            batched_arg: self.batched_arg@,
            batched_arg_name: self.batched_arg_name@,
            batched_arg_type: self.batched_arg_type@,
            returned: self.returned.deep_view(),
        }
    }
}

/// The argument with the text `text`, as it is read.
pub open spec fn parsed_arg_of(text: Seq<char>) -> ParsedArgView {
    ParsedArgView {
        text,
        parts: syn_fn_arg(text),
        path: match syn_fn_arg(text) {
            Some(RawArgView::Typed { name, ty }) => syn_type_path(ty),
            _ => None,
        },
    }
}

/// What a function returns that names no return type.
pub open spec fn unit_returned() -> FunctionResultView {
    FunctionResultView { result_type: FunctionResultTypeView::Raw("()"@), tokens: "()"@ }
}

/// The aggregate that is made of the parts of a function, of what its
/// return type was read as, and of its arguments as they were read.
pub open spec fn assembled(
    parts: RawFnView,
    returned: FunctionResultView,
    args: Seq<ParsedArgView>,
) -> Result<FunctionView, FunctionError> {
    match batched_argument_of(args) {
        Err(error) => Err(error),
        Ok(argument) => Ok(
            FunctionView {
                macros: parts.macros,
                identifier: parts.identifier,
                visibility: parts.visibility,
                inner: parts.inner,
                batched_arg: argument.tokens,
                batched_arg_name: argument.name,
                batched_arg_type: argument.item_type,
                returned,
            },
        ),
    }
}

/// The aggregate that the parts of a function declare: the return type is
/// read first, then the arguments.
pub open spec fn function_from(parts: RawFnView) -> Result<FunctionView, FunctionError> {
    let returned = match parts.output {
        Some(ty) => returned_of(ty),
        None => Ok(unit_returned()),
    };
    match returned {
        Err(error) => Err(error),
        Ok(returned) => assembled(
            parts,
            returned,
            parts.inputs.map_values(|text: Seq<char>| parsed_arg_of(text)),
        ),
    }
}

/// The aggregate that `item` declares.
pub open spec fn function_of(item: Seq<char>) -> Result<FunctionView, FunctionError> {
    match syn_item_fn(item) {
        Some(parts) => function_from(parts),
        None => Err(FunctionError::InvalidFunction),
    }
}

/// Reads every argument of `inputs`.
fn read_args(inputs: &Vec<String>) -> (args: Vec<ParsedArg>)
    ensures
        args.deep_view() == inputs.deep_view().map_values(|text: Seq<char>| parsed_arg_of(text)),
{
    let mut args: Vec<ParsedArg> = Vec::new();
    let mut i: usize = 0;
    while i < inputs.len()
        invariant
            i <= inputs@.len(),
            args@.len() == i,
            forall|j: int|
                0 <= j < i ==> (#[trigger] args@[j]).deep_view() == parsed_arg_of(inputs@[j]@),
        decreases inputs@.len() - i,
    {
        let parts = parse_fn_arg(inputs[i].as_str());
        let path = match &parts {
            Some(RawArg::Typed { name, ty }) => parse_type_path(ty.as_str()),
            _ => None,
        };
        args.push(ParsedArg { text: inputs[i].clone(), parts, path });
        i += 1;
    }
    proof {
        assert(args.deep_view() =~= inputs.deep_view().map_values(
            |text: Seq<char>| parsed_arg_of(text),
        ));
    }
    args
}

impl Function {
    /// The aggregate that is made of the parts of a function, of what its
    /// return type was read as, and of its arguments as they were read. It
    /// is refused where the arguments are not the one `Vec<T>` with a plain
    /// name that an aggregate takes.
    pub fn from_parts(parts: RawFn, returned: FunctionResult, args: &Vec<ParsedArg>) -> (function:
        Result<Function, FunctionError>)
        ensures
            deep_outcome(function) == assembled(
                parts.deep_view(),
                returned.deep_view(),
                args.deep_view(),
            ),
    {
        let RawFn { macros, visibility, identifier, inner, inputs, output } = parts;
        match batched_argument(args) {
            Ok(argument) => Ok(
                Function {
                    macros,
                    identifier,
                    visibility,
                    inner,
                    batched_arg: argument.tokens,
                    batched_arg_name: argument.name,
                    batched_arg_type: argument.item_type,
                    returned,
                },
            ),
            Err(error) => Err(error),
        }
    }

    /// The aggregate that `item` declares, or why it is refused. `item` is
    /// the text of a function such as
    /// `fn add(numbers: Vec<u32>) -> u32 { numbers.iter().sum() }`.
    pub fn parse(item: &str) -> (function: Result<Function, FunctionError>)
        ensures
            deep_outcome(function) == function_of(item@),
    {
        let parts = match parse_item_fn(item) {
            Some(parts) => parts,
            None => { return Err(FunctionError::InvalidFunction); },
        };
        let returned = match &parts.output {
            Some(ty) => parsed_returned(ty.as_str()),
            None => Ok(FunctionResult::raw("()".to_owned())),
        };
        let returned = match returned {
            Ok(returned) => returned,
            Err(error) => { return Err(error); },
        };
        let args = read_args(&parts.inputs);
        Function::from_parts(parts, returned, &args)
    }
}

/// Whether `function` may fail, and whether it returns one output for each
/// item.
pub fn function_flags(function: &Function) -> (flags: (bool, bool))
    ensures
        flags.0 == (shape_of(function.returned.deep_view()) == Shape::FallibleScalar || shape_of(
            function.returned.deep_view(),
        ) == Shape::FallibleVector),
        flags.1 == (shape_of(function.returned.deep_view()) == Shape::Vector || shape_of(
            function.returned.deep_view(),
        ) == Shape::FallibleVector),
{
    let shape = function.returned.shape();
    (shape.is_result(), shape.is_vec())
}

} // verus!
