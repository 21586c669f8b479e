use vstd::prelude::*;

use crate::error::Error;

verus! {

/// Whether `data` starts with `abcd`, the objective that the fuzz target guards.
pub open spec fn is_objective(data: Seq<u8>) -> bool {
    &&& data.len() >= 4
    &&& data[0] == 0x61u8
    &&& data[1] == 0x62u8
    &&& data[2] == 0x63u8
    &&& data[3] == 0x64u8
}

/// The fuzz target: it reaches its objective on inputs starting with `abcd`, which
/// callers must keep from it.
pub fn do_thing(data: &[u8])
    requires
        !is_objective(data@),
{
    if data.len() >= 4 && data[0] == 0x61 && data[1] == 0x62 && data[2] == 0x63 && data[3] == 0x64 {
        assert(is_objective(data@));
    }
}

/// Runs the fuzzing of a single node: hands the initial state and the event manager
/// to `fuzz_single`, as client 0, and returns what it returns.
pub fn start_fuzzing_single<F, S, EM>(mut fuzz_single: F, initial_state: Option<S>, mgr: EM) -> (r:
    Result<(), Error>) where F: FnMut(Option<S>, EM, usize) -> Result<(), Error>
    requires
        call_requires(fuzz_single, (initial_state, mgr, 0usize)),
    ensures
        call_ensures(fuzz_single, (initial_state, mgr, 0usize), r),
{
    fuzz_single(initial_state, mgr, 0)
}

} // verus!
