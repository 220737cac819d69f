use vstd::prelude::*;

verus! {

/// A compiled block of embedded code, with the closure that binds the host
/// variables it captures, ready to be run later.
pub struct PythonBlock<F> {
    bytecode: &'static [u8],
    set_vars: F,
}

impl<F> PythonBlock<F> {
    pub closed spec fn spec_bytecode(&self) -> Seq<u8> {
        self.bytecode@
    }

    pub closed spec fn spec_set_vars(&self) -> F {
        self.set_vars
    }

    pub fn new(bytecode: &'static [u8], set_vars: F) -> (r: PythonBlock<F>)
        ensures
            r.spec_bytecode() == bytecode@,
            r.spec_set_vars() == set_vars,
    {
        PythonBlock { bytecode, set_vars }
    }

    /// The compiled code and the binding closure, to run the block.
    pub fn into_parts(self) -> (r: (&'static [u8], F))
        ensures
            r.0@ == self.spec_bytecode(),
            r.1 == self.spec_set_vars(),
    {
        (self.bytecode, self.set_vars)
    }
}

/// What a `python!{}` block expands to: a conversion from its compiled code and
/// binding closure into the value the block is used as.
pub trait FromInlinePython<F>: Sized {
    fn from_python_macro(bytecode: &'static [u8], set_vars: F) -> Self;
}

/// Using a block as a `PythonBlock` keeps it, unrun.
impl<F> FromInlinePython<F> for PythonBlock<F> {
    fn from_python_macro(bytecode: &'static [u8], set_vars: F) -> Self {
        PythonBlock::new(bytecode, set_vars)
    }
}

} // verus!
