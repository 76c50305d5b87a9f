//! The metadata of a foreign scalar function: name, exact signature, result
//! type and the callable it wraps. `T` is the host's type descriptor, `F` the
//! handle to the callable in the embedded interpreter.
use vstd::prelude::*;
use crate::wire::Volatility;

verus! {

/// An exact signature: one argument of each listed type, in order.
pub struct Signature<T> {
    pub input_types: Vec<T>,
    pub volatility: Volatility,
}

impl<T> Signature<T> {
    pub fn exact(input_types: Vec<T>, volatility: Volatility) -> (r: Signature<T>)
        ensures
            r.input_types@ == input_types@,
            r.volatility == volatility,
    {
        Signature { input_types, volatility }
    }

    pub fn arity(&self) -> (r: usize)
        ensures
            r == self.input_types@.len(),
    {
        self.input_types.len()
    }
}

/// A foreign scalar function with one exact signature and one result type.
pub struct PythonUDF<T, F> {
    pub name: String,
    pub signature: Signature<T>,
    pub return_type: T,
    pub func: F,
}

impl<T, F> PythonUDF<T, F> {
    /// A function of the given name, argument types, result type, volatility
    /// and callable.
    pub fn new(
        name: String,
        input_types: Vec<T>,
        return_type: T,
        volatility: Volatility,
        func: F,
    ) -> (r: PythonUDF<T, F>)
        ensures
            r.name@ == name@,
            r.signature.input_types@ == input_types@,
            r.signature.volatility == volatility,
            r.return_type == return_type,
            r.func == func,
    {
        PythonUDF::new_with_signature(
            name,
            Signature::exact(input_types, volatility),
            return_type,
            func,
        )
    }

    /// A function of the given name, signature, result type and callable.
    pub fn new_with_signature(
        name: String,
        signature: Signature<T>,
        return_type: T,
        func: F,
    ) -> (r: PythonUDF<T, F>)
        ensures
            r.name@ == name@,
            r.signature == signature,
            r.return_type == return_type,
            r.func == func,
    {
        PythonUDF { name, signature, return_type, func }
    }

    pub fn name(&self) -> (r: &str)
        ensures
            r@ == self.name@,
    {
        self.name.as_str()
    }

    pub fn signature(&self) -> (r: &Signature<T>)
        ensures
            r == &self.signature,
    {
        &self.signature
    }

    pub fn input_types(&self) -> (r: &[T])
        ensures
            r@ == self.signature.input_types@,
    {
        self.signature.input_types.as_slice()
    }

    pub fn volatility(&self) -> (r: Volatility)
        ensures
            r == self.signature.volatility,
    {
        self.signature.volatility
    }

    pub fn return_type(&self) -> (r: &T)
        ensures
            r == &self.return_type,
    {
        &self.return_type
    }

    pub fn func(&self) -> (r: &F)
        ensures
            r == &self.func,
    {
        &self.func
    }
}

} // verus!
