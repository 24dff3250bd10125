use batched::builder::{
    build_identifiers, identifiers_from, plural_type, singular_type, wrapped_error,
};
use batched::function::{
    function_flags, parsed_returned, Function, FunctionError, FunctionResult, FunctionResultType,
    ParsedArg, Shape,
};
use batched::syntax::{RawArg, RawFn, RawGeneric, RawGenerics, RawSegment};

#[test]
fn reads_scalar_aggregate() {
    let function =
        Function::parse("fn add(numbers: Vec<u32>) -> u32 { numbers.iter().sum() }").unwrap();
    assert_eq!(function.identifier, "add");
    assert_eq!(function.batched_arg_name, "numbers");
    assert_eq!(function.batched_arg_type, "u32");
    assert_eq!(function.visibility, "");
    assert_eq!(function.returned.tokens, "u32");
    assert!(matches!(&function.returned.result_type, FunctionResultType::Raw(t) if t == "u32"));
    assert_eq!(function.returned.shape(), Shape::Scalar);
    assert_eq!(function_flags(&function), (false, false));
}

#[test]
fn reads_vector_aggregate() {
    let function = Function::parse(
        "pub fn add_each(numbers: Vec<u32>) -> Vec<u32> { numbers.into_iter().map(|n| n + 1).collect() }",
    )
    .unwrap();
    assert_eq!(function.visibility, "pub");
    assert!(matches!(&function.returned.result_type, FunctionResultType::VectorRaw(t) if t == "u32"));
    assert_eq!(function_flags(&function), (false, true));
}

#[test]
fn reads_fallible_vector_aggregate() {
    let function = Function::parse(
        "fn add_each(numbers: Vec<u32>) -> Result<Vec<u32>, SharedError<()>> { Ok(numbers) }",
    )
    .unwrap();
    match &function.returned.result_type {
        FunctionResultType::Result(output, error, shared) => {
            assert!(matches!(&output.result_type, FunctionResultType::VectorRaw(t) if t == "u32"));
            assert_eq!(error.replace(' ', ""), "SharedError<()>");
            assert_eq!(shared.as_deref(), Some("()"));
        }
        other => panic!("not a result: {other:?}"),
    }
    assert_eq!(function_flags(&function), (true, true));
}

#[test]
fn reads_fallible_scalar_aggregate() {
    let function =
        Function::parse("fn error(_a: Vec<()>) -> Result<(), std::io::Error> { Ok(()) }").unwrap();
    match &function.returned.result_type {
        FunctionResultType::Result(_, _, shared) => assert_eq!(shared, &None),
        other => panic!("not a result: {other:?}"),
    }
    assert_eq!(function.returned.shape(), Shape::FallibleScalar);
}

#[test]
fn reads_unit_aggregate() {
    let function = Function::parse("fn call(numbers: Vec<u32>) { }").unwrap();
    assert_eq!(function.returned.tokens, "()");
    assert_eq!(function.returned.shape(), Shape::Scalar);
}

#[test]
fn refuses_other_functions() {
    let refused = |item: &str| Function::parse(item).unwrap_err();
    assert_eq!(refused("struct S;"), FunctionError::InvalidFunction);
    assert_eq!(refused("fn f(&self, a: Vec<u8>) {}"), FunctionError::SelfReference);
    assert_eq!(refused("fn f(a: Vec<u8>, b: Vec<u8>) {}"), FunctionError::TooManyArguments);
    assert_eq!(refused("fn f((a, b): Vec<u8>) {}"), FunctionError::UnsupportedArgumentName);
    assert_eq!(refused("fn f(a: u8) {}"), FunctionError::ArgumentNotVec);
    assert_eq!(refused("fn f() {}"), FunctionError::MissingArgument);
    assert_eq!(refused("fn f(a: Vec<u8>) -> Vec {}"), FunctionError::Unsupported);
    assert_eq!(refused("fn f(a: Vec<u8>) -> Result<u8> {}"), FunctionError::Unsupported);
}

#[test]
fn names_the_generated_items() {
    let function = Function::parse("fn add_each(numbers: Vec<u32>) -> u32 { 0 }").unwrap();
    let names = build_identifiers(&function);
    assert_eq!(names.public_interface, "add_each");
    assert_eq!(names.public_interface_multiple, "add_each_multiple");
    assert_eq!(names.inner_batched, "add_each__batched");
    assert_eq!(names.executor_producer_channel, "BATCHED_ADD_EACH");
    assert_eq!(names.executor_background_fn, "spawn_executor_add_each");
}

#[test]
fn types_the_entry_points_by_shape() {
    let types = |item: &str| {
        let function = Function::parse(item).unwrap();
        let plain = |text: String| text.replace(' ', "");
        (
            plain(singular_type(&function.returned)),
            plain(plural_type(&function.returned)),
            wrapped_error(&function.returned).map(plain),
        )
    };
    let typed = |singular: &str, plural: &str, wrapped: Option<&str>| {
        (singular.to_string(), plural.to_string(), wrapped.map(str::to_string))
    };
    assert_eq!(types("fn f(a: Vec<u8>) -> u32 {}"), typed("u32", "u32", None));
    assert_eq!(types("fn f(a: Vec<u8>) {}"), typed("()", "()", None));
    assert_eq!(types("fn f(a: Vec<u8>) -> Vec<i8> {}"), typed("i8", "Vec<i8>", None));
    assert_eq!(
        types("fn f(a: Vec<u8>) -> Result<u32, E> {}"),
        typed("Result<u32,E>", "Result<u32,E>", None)
    );
    assert_eq!(
        types("fn f(a: Vec<u8>) -> Result<Vec<i8>, SharedError<io::Error>> {}"),
        typed(
            "Result<i8,SharedError<io::Error>>",
            "Result<Vec<i8>,SharedError<io::Error>>",
            Some("io::Error")
        )
    );
}

#[test]
fn reads_nested_results() {
    let function =
        Function::parse("fn f(a: Vec<u8>) -> Result<Result<Vec<u8>, A>, B> { Ok(Ok(a)) }").unwrap();
    assert_eq!(function.returned.shape(), Shape::FallibleScalar);
    match &function.returned.result_type {
        FunctionResultType::Result(output, error, None) => {
            assert_eq!(error, "B");
            assert!(matches!(&output.result_type, FunctionResultType::Result(..)));
            assert_eq!(output.shape(), Shape::FallibleVector);
        }
        other => panic!("not a result: {other:?}"),
    }
}

#[test]
fn keeps_attributes_and_body() {
    let function = Function::parse(
        "#[inline] #[doc = \"x\"] pub(crate) fn f(mut a: Vec<std::string::String>) { a.clear() }",
    )
    .unwrap();
    assert_eq!(function.macros.len(), 2);
    assert_eq!(function.macros[0].replace(' ', ""), "#[inline]");
    assert_eq!(function.visibility.replace(' ', ""), "pub(crate)");
    assert_eq!(function.batched_arg_name, "a");
    assert_eq!(function.batched_arg_type.replace(' ', ""), "std::string::String");
    assert_eq!(function.batched_arg.replace(' ', ""), "muta:Vec<std::string::String>");
    assert_eq!(function.inner.replace(' ', ""), "{a.clear()}");
}

#[test]
fn reads_deeply_nested_types() {
    let returned = parsed_returned("Result<A<B<C<D<E>>>>,X>").unwrap();
    assert_eq!(returned.shape(), Shape::FallibleScalar);
    match &returned.result_type {
        FunctionResultType::Result(output, error, None) => {
            assert_eq!(output.tokens, "A < B < C < D < E > > > >");
            assert_eq!(error, "X");
            assert!(matches!(&output.result_type, FunctionResultType::Raw(_)));
        }
        other => panic!("not a result: {other:?}"),
    }
    let deep = parsed_returned("Result<Result<Result<Result<Vec<u8>,A>,B>,C>,D>").unwrap();
    let mut depth = 0;
    let mut level = &deep;
    while let FunctionResultType::Result(output, _, _) = &level.result_type {
        depth += 1;
        level = output;
    }
    assert_eq!(depth, 4);
    assert!(matches!(&level.result_type, FunctionResultType::VectorRaw(item) if item == "u8"));
}

#[test]
fn prints_tokens_in_one_way() {
    let function = Function::parse(
        "pub(crate) fn f(a:Vec<(u8,u16)>)->Result<Vec<u8>,SharedError<io::Error>>{a.len();a}",
    );
    let function = function.unwrap();
    assert_eq!(function.visibility, "pub (crate)");
    assert_eq!(function.batched_arg, "a : Vec < (u8 , u16) >");
    assert_eq!(function.batched_arg_type, "(u8 , u16)");
    assert_eq!(function.inner, "{ a . len () ; a }");
    assert_eq!(function.returned.tokens, "Result < Vec < u8 > , SharedError < io :: Error > >");
    assert_eq!(wrapped_error(&function.returned), Some("io :: Error".to_string()));
}

fn vec_of(item: &str) -> Option<Vec<RawSegment>> {
    let item = RawGeneric { text: item.to_string(), is_type: true };
    let arguments = Some(RawGenerics { all: item.text.clone(), args: vec![item] });
    Some(vec![RawSegment { ident: "Vec".to_string(), arguments }])
}

fn parts_of(identifier: &str) -> RawFn {
    RawFn {
        macros: vec!["# [inline]".to_string()],
        visibility: "pub".to_string(),
        identifier: identifier.to_string(),
        inner: "{ }".to_string(),
        inputs: vec![],
        output: None,
    }
}

fn typed(name: Option<&str>, path: Option<Vec<RawSegment>>) -> ParsedArg {
    let parts = RawArg::Typed { name: name.map(str::to_string), ty: "T".to_string() };
    ParsedArg { text: "a : T".to_string(), parts: Some(parts), path }
}

#[test]
fn assembles_a_declaration_from_its_parts() {
    let returned = FunctionResult::vector("Vec < u8 >".to_string(), "u8".to_string());
    let args = vec![typed(Some("numbers"), vec_of("u32"))];
    let function = Function::from_parts(parts_of("add"), returned, &args).unwrap();
    assert_eq!(function.identifier, "add");
    assert_eq!(function.macros, vec!["# [inline]"]);
    assert_eq!(function.visibility, "pub");
    assert_eq!(function.inner, "{ }");
    assert_eq!(function.batched_arg, "a : T");
    assert_eq!(function.batched_arg_name, "numbers");
    assert_eq!(function.batched_arg_type, "u32");
    assert_eq!(function.returned.shape(), Shape::Vector);
}

#[test]
fn refuses_parts_that_make_no_aggregate() {
    let refused = |args: Vec<ParsedArg>| {
        let returned = FunctionResult::raw("u8".to_string());
        Function::from_parts(parts_of("f"), returned, &args).unwrap_err()
    };
    let receiver = || ParsedArg { text: "self".into(), parts: Some(RawArg::Receiver), path: None };
    let unread = || ParsedArg { text: "?".into(), parts: None, path: None };
    let plain = || vec![RawSegment { ident: "Vec".to_string(), arguments: None }];
    assert_eq!(refused(vec![]), FunctionError::MissingArgument);
    assert_eq!(refused(vec![unread()]), FunctionError::InvalidFunction);
    assert_eq!(refused(vec![receiver()]), FunctionError::SelfReference);
    assert_eq!(
        refused(vec![typed(Some("a"), vec_of("u8")), typed(Some("b"), vec_of("u8"))]),
        FunctionError::TooManyArguments
    );
    assert_eq!(
        refused(vec![typed(Some("a"), vec_of("u8")), receiver()]),
        FunctionError::SelfReference
    );
    assert_eq!(refused(vec![typed(None, vec_of("u8"))]), FunctionError::UnsupportedArgumentName);
    assert_eq!(refused(vec![typed(Some("a"), None)]), FunctionError::ArgumentNotVec);
    assert_eq!(refused(vec![typed(Some("a"), Some(vec![]))]), FunctionError::ArgumentNotVec);
    assert_eq!(refused(vec![typed(Some("a"), Some(plain()))]), FunctionError::Unsupported);
}

#[test]
fn builds_return_types_from_their_parts() {
    let raw = FunctionResult::raw("u8".to_string());
    assert!(matches!(&raw.result_type, FunctionResultType::Raw(tokens) if tokens == "u8"));
    assert_eq!(raw.tokens, "u8");
    let shared = vec![RawSegment {
        ident: "SharedError".to_string(),
        arguments: Some(RawGenerics { all: "E".to_string(), args: vec![] }),
    }];
    let value = FunctionResult::vector("Vec < u8 >".to_string(), "u8".to_string());
    let fallible = FunctionResult::fallible(
        "Result < Vec < u8 > , SharedError < E > >".to_string(),
        value,
        "SharedError < E >".to_string(),
        &Some(shared),
    )
    .unwrap();
    assert_eq!(fallible.shape(), Shape::FallibleVector);
    assert_eq!(wrapped_error(&fallible), Some("E".to_string()));
    let bare = vec![RawSegment { ident: "SharedError".to_string(), arguments: None }];
    let refused = |path: Option<Vec<RawSegment>>| {
        let value = FunctionResult::raw("u8".to_string());
        FunctionResult::fallible("R".to_string(), value, "E".to_string(), &path).unwrap_err()
    };
    assert_eq!(refused(None), FunctionError::Unsupported);
    assert_eq!(refused(Some(vec![])), FunctionError::Unsupported);
    assert_eq!(refused(Some(bare)), FunctionError::Unsupported);
}

#[test]
fn names_the_items_from_the_upper_case_name() {
    let names = identifiers_from("add", "ADD");
    assert_eq!(names.public_interface, "add");
    assert_eq!(names.public_interface_multiple, "add_multiple");
    assert_eq!(names.inner_batched, "add__batched");
    assert_eq!(names.executor_producer_channel, "BATCHED_ADD");
    assert_eq!(names.executor_background_fn, "spawn_executor_add");
}
