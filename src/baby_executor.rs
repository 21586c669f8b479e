use vstd::prelude::*;

use core::marker::PhantomData;

verus! {

/// How a run of the target ended.
#[derive(Clone, Copy, Debug, PartialEq, Eq, Structural)]
pub enum ExitKind {
    /// The run ended normally.
    Normal,
    /// The target crashed.
    Crash,
}

/// How many of the bytes `a`, `b`, `c` the input starts with.
pub open spec fn depth(input: Seq<u8>) -> nat {
    if input.len() > 0 && input[0] == 0x61u8 {
        if input.len() > 1 && input[1] == 0x62u8 {
            if input.len() > 2 && input[2] == 0x63u8 {
                3
            } else {
                2
            }
        } else {
            1
        }
    } else {
        0
    }
}

/// The signal map after a run on `input`: entry 0 is set always, entries 1 and 2
/// once the input starts with `a` and with `ab`.
pub open spec fn signals_after(before: Seq<u8>, input: Seq<u8>) -> Seq<u8> {
    Seq::new(before.len(), |i: int| if i <= depth(input) && i <= 2 { 1u8 } else { before[i] })
}

/// An executor that runs a target written out in the executor itself: it crashes on
/// inputs starting with `abc`.
#[verifier::reject_recursive_types(S)]
pub struct CustomExecutor<S> {
    phantom: PhantomData<S>,
}

impl<S> CustomExecutor<S> {
    /// An executor for fuzzer states of type `S`.
    pub fn new(_state: &S) -> (r: CustomExecutor<S>) {
        CustomExecutor { phantom: PhantomData }
    }

    /// Runs the target on `input`: counts the run in `executions`, marks in `signals`
    /// how far the input got, and reports a crash for inputs starting with `abc`.
    pub fn run_target(&mut self, executions: &mut u64, signals: &mut Vec<u8>, input: &[u8]) -> (r:
        ExitKind)
        requires
            *old(executions) < u64::MAX,
            old(signals)@.len() >= 3,
        ensures
            *final(executions) == *old(executions) + 1,
            final(signals)@ == signals_after(old(signals)@, input@),
            r == (if depth(input@) == 3 {
                ExitKind::Crash
            } else {
                ExitKind::Normal
            }),
    {
        *executions = *executions + 1;
        let ghost before = signals@;
        signals.set(0, 1);
        let mut kind = ExitKind::Normal;
        if input.len() > 0 && input[0] == 0x61 {
            signals.set(1, 1);
            if input.len() > 1 && input[1] == 0x62 {
                signals.set(2, 1);
                if input.len() > 2 && input[2] == 0x63 {
                    kind = ExitKind::Crash;
                }
            }
        }
        assert(signals@ =~= signals_after(before, input@));
        kind
    }
}

} // verus!
