//! What the parsers read of Rust syntax. The syntax itself is read by `syn`;
//! this module hands its findings on as plain values.

use quote::ToTokens;
use syn::parse::Parser;
use syn::punctuated::Punctuated;
use syn::token::Comma;
use syn::{Expr, ExprLit, FnArg, GenericArgument, ItemFn, Lit, Meta, Pat};
use syn::{PathArguments, ReturnType, Type};
use vstd::prelude::*;

verus! {

/// The form of one entry of an attribute list.
#[derive(Debug, Clone, Copy, PartialEq, Eq, Structural)]
pub enum MetaForm {
    /// A bare path, like `asynchronous`.
    Path,
    /// A path with a parenthesised list, like `derive(Clone)`.
    List,
    /// A name and a value, like `limit = 1000`.
    NameValue,
}

/// One entry of an attribute list.
pub struct RawMeta {
    /// The entry's name, where its path is a single identifier.
    pub name: Option<String>,
    /// The entry's form.
    pub form: MetaForm,
    /// The text of the value of a name and value entry, and no text for
    /// the other forms.
    pub value: String,
}

/// An entry as a value.
pub struct RawMetaView {
    pub name: Option<Seq<char>>,
    pub form: MetaForm,
    pub value: Seq<char>,
}

impl DeepView for RawMeta {
    type V = RawMetaView;

    open spec fn deep_view(&self) -> RawMetaView {
        RawMetaView { name: self.name.deep_view(), form: self.form, value: self.value@ }
    }
}

/// The entries that `syn` reads in `tokens` as a comma separated list of
/// attribute entries, where it reads one, with `proc-macro2`'s own lexer and
/// printer.
pub uninterp spec fn syn_meta_list(tokens: Seq<char>) -> Option<Seq<RawMetaView>>;

/// The number that `syn` reads in `expr`, where `expr` is an integer literal
/// whose value fits in a `u64`.
pub uninterp spec fn syn_expr_u64(expr: Seq<char>) -> Option<u64>;

/// `Punctuated::<Meta, Comma>::parse_separated_nonempty`, run on `tokens`
/// as text. Each entry that it finds is handed on with its name, its form
/// and the text of its value; `None` where it finds no such list. The text
/// is read and printed by the lexer and printer of `proc-macro2` itself,
/// which `proc_macro2::fallback::force` selects, so that it is the same in
/// every process.
#[verifier::external_body]
pub(crate) fn parse_meta_list(tokens: &str) -> (entries: Option<Vec<RawMeta>>)
    ensures
        entries.deep_view() == syn_meta_list(tokens@),
{
    proc_macro2::fallback::force();
    let entry = |meta: &Meta| RawMeta {
        name: meta.path().get_ident().map(|ident| ident.to_string()),
        form: match meta {
            Meta::Path(_) => MetaForm::Path,
            Meta::List(_) => MetaForm::List,
            Meta::NameValue(_) => MetaForm::NameValue,
        },
        value: if let Meta::NameValue(pair) = meta { pair.value.to_token_stream().to_string() } else { String::new() },
    };
    let list = Punctuated::<Meta, Comma>::parse_separated_nonempty.parse_str(tokens).ok();
    let entries = list.map(|list| list.iter().map(entry).collect());
    proc_macro2::fallback::unforce();
    entries
}

/// `LitInt::base10_parse::<u64>`, run on `expr` where it is the text of an
/// integer literal; `None` for any other expression, and for a literal that
/// does not fit. The text is read by the lexer of `proc-macro2` itself.
#[verifier::external_body]
pub fn expr_to_u64(expr: &str) -> (number: Option<u64>)
    ensures
        number == syn_expr_u64(expr@),
{
    proc_macro2::fallback::force();
    let number = match syn::parse_str::<Expr>(expr) {
        Ok(Expr::Lit(ExprLit { lit: Lit::Int(literal), .. })) => literal.base10_parse::<u64>().ok(),
        _ => None,
    };
    proc_macro2::fallback::unforce();
    number
}

/// What the parser reads of a function item: each part as its text.
pub struct RawFn {
    /// The attributes above the function, each as it stands.
    pub macros: Vec<String>,
    /// The visibility, and no text where none is written.
    pub visibility: String,
    /// The function's name.
    pub identifier: String,
    /// The body, braces included.
    pub inner: String,
    /// The arguments, each as it stands.
    pub inputs: Vec<String>,
    /// The return type, where one is written.
    pub output: Option<String>,
}

/// A function item as a value.
pub struct RawFnView {
    pub macros: Seq<Seq<char>>,
    pub visibility: Seq<char>,
    pub identifier: Seq<char>,
    pub inner: Seq<char>,
    pub inputs: Seq<Seq<char>>,
    pub output: Option<Seq<char>>,
}

impl DeepView for RawFn {
    type V = RawFnView;

    open spec fn deep_view(&self) -> RawFnView {
        RawFnView {
            macros: self.macros.deep_view(),
            visibility: self.visibility@,
            identifier: self.identifier@,
            inner: self.inner@,
            inputs: self.inputs.deep_view(),
            output: self.output.deep_view(),
        }
    }
}

/// What the parser reads of one argument of a function.
pub enum RawArg {
    /// `self` in one of its forms.
    Receiver,
    /// A pattern and a type.
    Typed {
        /// The argument's name, where the pattern is a plain identifier.
        name: Option<String>,
        /// The text of the type.
        ty: String,
    },
}

/// An argument as a value.
pub enum RawArgView {
    Receiver,
    Typed { name: Option<Seq<char>>, ty: Seq<char> },
}

impl DeepView for RawArg {
    type V = RawArgView;

    open spec fn deep_view(&self) -> RawArgView {
        match self {
            RawArg::Receiver => RawArgView::Receiver,
            RawArg::Typed { name, ty } => RawArgView::Typed { name: name.deep_view(), ty: ty@ },
        }
    }
}

/// One generic argument of a path segment.
pub struct RawGeneric {
    /// The argument as it stands.
    pub text: String,
    /// Whether the argument is a type.
    pub is_type: bool,
}

/// A generic argument as a value.
pub struct RawGenericView {
    pub text: Seq<char>,
    pub is_type: bool,
}

impl DeepView for RawGeneric {
    type V = RawGenericView;

    open spec fn deep_view(&self) -> RawGenericView {
        RawGenericView { text: self.text@, is_type: self.is_type }
    }
}

/// The arguments that a path segment has between angle brackets.
pub struct RawGenerics {
    /// All of them as they stand, commas included.
    pub all: String,
    /// Each of them.
    pub args: Vec<RawGeneric>,
}

/// Angle bracketed arguments as a value.
pub struct RawGenericsView {
    pub all: Seq<char>,
    pub args: Seq<RawGenericView>,
}

impl DeepView for RawGenerics {
    type V = RawGenericsView;

    open spec fn deep_view(&self) -> RawGenericsView {
        RawGenericsView { all: self.all@, args: self.args.deep_view() }
    }
}

/// One segment of a type path, like the `Vec<u32>` of `std::vec::Vec<u32>`.
pub struct RawSegment {
    /// The segment's name.
    pub ident: String,
    /// Its angle bracketed arguments, where it has any.
    pub arguments: Option<RawGenerics>,
}

/// A path segment as a value.
pub struct RawSegmentView {
    pub ident: Seq<char>,
    pub arguments: Option<RawGenericsView>,
}

impl DeepView for RawSegment {
    type V = RawSegmentView;

    open spec fn deep_view(&self) -> RawSegmentView {
        RawSegmentView { ident: self.ident@, arguments: self.arguments.deep_view() }
    }
}

/// The parts that `syn` reads in `item` as a free-standing function, where
/// it reads one, with `proc-macro2`'s own lexer and printer.
pub uninterp spec fn syn_item_fn(item: Seq<char>) -> Option<RawFnView>;

/// What `syn` reads in `arg` as an argument of a function, where it reads
/// one, with `proc-macro2`'s own lexer and printer.
pub uninterp spec fn syn_fn_arg(arg: Seq<char>) -> Option<RawArgView>;

/// The segments of the path that `syn` reads in `ty`, where it reads `ty` as
/// a type and that type is a path, with `proc-macro2`'s own lexer and
/// printer.
pub uninterp spec fn syn_type_path(ty: Seq<char>) -> Option<Seq<RawSegmentView>>;

/// `syn::parse_str::<ItemFn>`, run on `item`. The function that it finds is
/// handed on part by part, each part as the text of its tokens; `None`
/// where it finds no function. The text is read and printed by the lexer and
/// printer of `proc-macro2` itself, which `proc_macro2::fallback::force`
/// selects, so that it is the same in every process.
#[verifier::external_body]
pub(crate) fn parse_item_fn(item: &str) -> (parts: Option<RawFn>)
    ensures
        parts.deep_view() == syn_item_fn(item@),
{
    proc_macro2::fallback::force();
    let text = |tokens: &dyn ToTokens| tokens.to_token_stream().to_string();
    let parts = syn::parse_str::<ItemFn>(item).ok().map(|f| RawFn {
        macros: f.attrs.iter().map(|a| text(a)).collect(),
        visibility: text(&f.vis),
        identifier: f.sig.ident.to_string(),
        inner: text(&f.block),
        inputs: f.sig.inputs.iter().map(|a| text(a)).collect(),
        output: match &f.sig.output {
            ReturnType::Default => None,
            ReturnType::Type(_, ty) => Some(text(ty)),
        },
    });
    proc_macro2::fallback::unforce();
    parts
}

/// `syn::parse_str::<FnArg>`, run on `arg`. A typed argument is handed on
/// with the name of its pattern, where that is a plain identifier, and the
/// text of its type; `None` where it finds no argument. The text is read
/// and printed by the lexer and printer of `proc-macro2` itself.
#[verifier::external_body]
pub(crate) fn parse_fn_arg(arg: &str) -> (parts: Option<RawArg>)
    ensures
        parts.deep_view() == syn_fn_arg(arg@),
{
    proc_macro2::fallback::force();
    let parts = match syn::parse_str::<FnArg>(arg) {
        Ok(FnArg::Receiver(_)) => Some(RawArg::Receiver),
        Ok(FnArg::Typed(typed)) => Some(RawArg::Typed {
            name: match &*typed.pat {
                Pat::Ident(pattern) => Some(pattern.ident.to_string()),
                _ => None,
            },
            ty: typed.ty.to_token_stream().to_string(),
        }),
        Err(_) => None,
    };
    proc_macro2::fallback::unforce();
    parts
}

/// `syn::parse_str::<Type>`, run on `ty`. Of a path type the segments are
/// handed on, each with its name and its angle bracketed arguments; `None`
/// for any other type, and where it finds no type. The text is read and
/// printed by the lexer and printer of `proc-macro2` itself.
#[verifier::external_body]
pub(crate) fn parse_type_path(ty: &str) -> (segments: Option<Vec<RawSegment>>)
    ensures
        segments.deep_view() == syn_type_path(ty@),
{
    proc_macro2::fallback::force();
    let text = |tokens: &dyn ToTokens| tokens.to_token_stream().to_string();
    let segments = match syn::parse_str::<Type>(ty) {
        Ok(Type::Path(path)) => Some(path.path.segments.iter().map(|s| RawSegment {
            ident: s.ident.to_string(),
            arguments: if let PathArguments::AngleBracketed(l) = &s.arguments {
                let generic = |a: &GenericArgument| RawGeneric { text: text(a), is_type: matches!(a, GenericArgument::Type(_)) };
                Some(RawGenerics { all: text(&l.args), args: l.args.iter().map(generic).collect() })
            } else { None },
        }).collect()),
        _ => None,
    };
    proc_macro2::fallback::unforce();
    segments
}

} // verus!
