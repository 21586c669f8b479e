use vstd::prelude::*;

verus! {

/// One fuzzing input together with what is known about it.
pub struct Testcase<I> {
    /// The input itself, when it is held in memory.
    pub input: Option<I>,
    /// How long the input took to run, in nanoseconds, once measured.
    pub exec_time_nanos: Option<u64>,
}

impl<I> Testcase<I> {
    /// A test case holding `input`, with nothing measured yet.
    pub fn new(input: I) -> (r: Testcase<I>)
        ensures
            r.input == Some(input),
            r.exec_time_nanos == None::<u64>,
    {
        Testcase { input: Some(input), exec_time_nanos: None }
    }

    /// The input held by this test case.
    pub fn input(&self) -> (r: &Option<I>)
        ensures
            *r == self.input,
    {
        &self.input
    }

    /// The measured execution time, if any.
    pub fn exec_time_nanos(&self) -> (r: Option<u64>)
        ensures
            r == self.exec_time_nanos,
    {
        self.exec_time_nanos
    }

    /// Records the execution time; the input is left as it is.
    pub fn set_exec_time_nanos(&mut self, nanos: u64)
        ensures
            final(self).exec_time_nanos == Some(nanos),
            final(self).input == old(self).input,
    {
        self.exec_time_nanos = Some(nanos);
    }
}

/// An input made of raw bytes.
pub struct BytesInput {
    pub bytes: Vec<u8>,
}

impl BytesInput {
    /// An input holding `bytes`.
    pub fn new(bytes: Vec<u8>) -> (r: BytesInput)
        ensures
            r.bytes@ == bytes@,
    {
        BytesInput { bytes }
    }

    /// The bytes of this input.
    pub fn mutator_bytes(&self) -> (r: &Vec<u8>)
        ensures
            r@ == self.bytes@,
    {
        &self.bytes
    }
}

} // verus!
