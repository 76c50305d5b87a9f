//! Handling of `CREATE FUNCTION <name>(<types>) RETURNS <type> LANGUAGE ... AS
//! '<source>'`: what the statement must hold before its source is compiled.
use vstd::prelude::*;

verus! {

/// The body of a `CREATE FUNCTION` statement.
pub enum FunctionBody {
    /// No `AS` clause.
    Missing,
    /// A string literal holding the source text.
    Source(String),
    /// Any other expression.
    Other,
}

/// What a `CREATE FUNCTION` statement says, with `T` the host's type descriptor.
pub struct CreateFunction<T> {
    pub name: String,
    pub args: Option<Vec<T>>,
    pub return_type: Option<T>,
    pub body: FunctionBody,
}

/// A function to compile: its name, source text and declared types.
pub struct FunctionSource<T> {
    pub name: String,
    pub code: String,
    pub input_types: Vec<T>,
    pub return_type: T,
}

/// Why a `CREATE FUNCTION` statement was refused.
#[derive(Clone, Copy, Debug, PartialEq, Eq, Structural)]
pub enum FactoryError {
    /// The statement has no body.
    MissingDefinition,
    /// The body is not a string literal.
    InvalidDefinition,
    /// The statement has no `RETURNS` clause.
    MissingReturnType,
}

/// Builds foreign functions from `CREATE FUNCTION` statements.
#[derive(Debug, Default)]
pub struct PythonFunctionFactory {}

impl PythonFunctionFactory {
    pub fn new() -> (r: PythonFunctionFactory) {
        PythonFunctionFactory {  }
    }

    /// The function that `statement` defines: its name, the source text of its
    /// body, its argument types (none when the statement lists none) and its
    /// result type. A missing body, a body that is not a string literal, and a
    /// missing result type are refused, checked in that order.
    pub fn create<T>(&self, statement: CreateFunction<T>) -> (r: Result<
        FunctionSource<T>,
        FactoryError,
    >)
        ensures
            match statement.body {
                FunctionBody::Missing => r == Err::<FunctionSource<T>, FactoryError>(
                    FactoryError::MissingDefinition,
                ),
                FunctionBody::Other => r == Err::<FunctionSource<T>, FactoryError>(
                    FactoryError::InvalidDefinition,
                ),
                FunctionBody::Source(code) => match statement.return_type {
                    None => r == Err::<FunctionSource<T>, FactoryError>(
                        FactoryError::MissingReturnType,
                    ),
                    Some(t) => r matches Ok(f) && f.name@ == statement.name@ && f.code@ == code@
                        && f.return_type == t && f.input_types@ == match statement.args {
                        None => Seq::<T>::empty(),
                        Some(a) => a@,
                    },
                },
            },
    {
        match statement.body {
            FunctionBody::Missing => Err(FactoryError::MissingDefinition),
            FunctionBody::Other => Err(FactoryError::InvalidDefinition),
            FunctionBody::Source(code) => match statement.return_type {
                None => Err(FactoryError::MissingReturnType),
                Some(return_type) => {
                    let input_types = match statement.args {
                        None => Vec::new(),
                        Some(a) => a,
                    };
                    Ok(FunctionSource { name: statement.name, code, input_types, return_type })
                },
            },
        }
    }
}

} // verus!
