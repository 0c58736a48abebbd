use vstd::prelude::*;
use crate::object::{Context, PyError, Value};

verus! {

/// An argument meets the constraint of its slot: any value where the slot has
/// none, else an instance of the slot's type.
pub open spec fn slot_ok(ctx: &Context, v: Value, c: Option<usize>) -> bool {
    match c {
        Some(t) => ctx.is_instance(v, t as nat),
        None => true,
    }
}

/// The number of arguments lies between the required slots and all slots.
pub open spec fn arity_ok(n: nat, required: nat, optional: nat) -> bool {
    required <= n <= required + optional
}

/// What validation of `args` against the required and optional slots yields:
/// an arity error when the count is off; else a type error at the first
/// argument that breaks its slot's constraint; else success.
pub open spec fn check_result(
    ctx: &Context,
    args: Seq<Value>,
    required: Seq<Option<usize>>,
    optional: Seq<Option<usize>>,
    r: Result<(), PyError>,
) -> bool {
    let slots = required + optional;
    if !arity_ok(args.len(), required.len(), optional.len()) {
        r == Err::<(), PyError>(
            PyError::Arity {
                min: required.len() as usize,
                max: (required.len() + optional.len()) as usize,
                got: args.len() as usize,
            },
        )
    } else {
        match r {
            Ok(_) => forall|i: int| 0 <= i < args.len() ==> slot_ok(ctx, #[trigger] args[i], slots[i]),
            Err(e) => match e {
                PyError::ArgType { position, expected } => {
                    &&& position < args.len()
                    &&& slots[position as int] == Some(expected)
                    &&& !slot_ok(ctx, args[position as int], slots[position as int])
                    &&& forall|j: int|
                        0 <= j < position ==> slot_ok(ctx, #[trigger] args[j], slots[j])
                },
                _ => false,
            },
        }
    }
}

/// Validates a call's positional arguments before the callee runs: their
/// count against the required and optional slots, then each against its
/// slot's type constraint, in order.
pub fn check_args(
    ctx: &Context,
    args: &Vec<Value>,
    required: &Vec<Option<usize>>,
    optional: &Vec<Option<usize>>,
) -> (r: Result<(), PyError>)
    requires
        ctx.wf(),
        forall|i: int| 0 <= i < args@.len() ==> (#[trigger] args@[i]).typ < ctx.types@.len(),
        required@.len() + optional@.len() <= usize::MAX,
    ensures
        check_result(ctx, args@, required@, optional@, r),
{
    let n = args.len();
    let nreq = required.len();
    let nall = nreq + optional.len();
    if n < nreq || n > nall {
        return Err(PyError::Arity { min: nreq, max: nall, got: n });
    }
    let ghost slots = required@ + optional@;
    let mut i: usize = 0;
    while i < n
        invariant
            ctx.wf(),
            forall|k: int| 0 <= k < args@.len() ==> (#[trigger] args@[k]).typ < ctx.types@.len(),
            n == args@.len(),
            nreq == required@.len(),
            nall == slots.len(),
            slots == required@ + optional@,
            nreq <= n <= nall,
            i <= n,
            forall|j: int| 0 <= j < i ==> slot_ok(ctx, #[trigger] args@[j], slots[j]),
        decreases n - i,
    {
        let c = if i < nreq {
            required[i]
        } else {
            optional[i - nreq]
        };
        assert(c == slots[i as int]);
        if let Some(t) = c {
            if !ctx.isinstance(&args[i], t) {
                return Err(PyError::ArgType { position: i, expected: t });
            }
        }
        i = i + 1;
    }
    Ok(())
}

} // verus!
