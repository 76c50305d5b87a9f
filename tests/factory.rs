use ballista_python::factory::{CreateFunction, FactoryError, FunctionBody, PythonFunctionFactory};

const SOURCE: &str = "
import pyarrow.compute as pc
conversation_rate_multiplier = 0.62137119
def to_miles(km_data):
    return pc.multiply(km_data, conversation_rate_multiplier)
";

fn statement(args: Option<Vec<&'static str>>, ret: Option<&'static str>, body: FunctionBody) -> CreateFunction<&'static str> {
    CreateFunction { name: "to_miles".to_string(), args, return_type: ret, body }
}

#[test]
fn creates_function_from_source() {
    let f = PythonFunctionFactory::new()
        .create(statement(Some(vec!["DOUBLE"]), Some("DOUBLE"), FunctionBody::Source(SOURCE.to_string())))
        .expect("accepted");
    assert_eq!(f.name, "to_miles");
    assert_eq!(f.code, SOURCE);
    assert_eq!(f.input_types, vec!["DOUBLE"]);
    assert_eq!(f.return_type, "DOUBLE");
}

#[test]
fn no_argument_list_means_no_arguments() {
    let f = PythonFunctionFactory::default()
        .create(statement(None, Some("BIGINT"), FunctionBody::Source("def f(): return 1".to_string())))
        .expect("accepted");
    assert!(f.input_types.is_empty());
    assert_eq!(f.return_type, "BIGINT");
}

#[test]
fn missing_body_is_refused() {
    let r = PythonFunctionFactory::new().create(statement(None, Some("DOUBLE"), FunctionBody::Missing));
    assert!(matches!(r, Err(FactoryError::MissingDefinition)));
}

#[test]
fn non_literal_body_is_refused() {
    let r = PythonFunctionFactory::new().create(statement(None, Some("DOUBLE"), FunctionBody::Other));
    assert!(matches!(r, Err(FactoryError::InvalidDefinition)));
}

#[test]
fn missing_return_type_is_refused() {
    let r = PythonFunctionFactory::new().create(statement(None, None, FunctionBody::Source(SOURCE.to_string())));
    assert!(matches!(r, Err(FactoryError::MissingReturnType)));
    let r = PythonFunctionFactory::new().create(statement(None, None, FunctionBody::Missing));
    assert!(matches!(r, Err(FactoryError::MissingDefinition)));
}
