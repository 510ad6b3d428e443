//! A guest program: reads an iteration count and commits the value that the
//! Fibonacci recurrence reaches after that many steps, in 64-bit wrapping
//! arithmetic.
use vstd::prelude::*;
use vstd::wrapping::u64_specs::wrapping_add;

use crate::codec::u64_encoding;
use crate::env::{u64_read_at, GuestEnv};
use crate::violation::ContractViolation;

verus! {

/// The pair `(a, b)` after `n` steps of `(a, b) -> (b, a + b)` from `(0, 1)`.
pub open spec fn fib_pair(n: nat) -> (u64, u64)
    decreases n,
{
    if n == 0 {
        (0, 1)
    } else {
        let p = fib_pair((n - 1) as nat);
        (p.1, wrapping_add(p.0, p.1))
    }
}

/// The last sum computed after `n` steps, `0` when there were none.
pub open spec fn fib_value(n: nat) -> u64 {
    if n == 0 {
        0
    } else {
        fib_pair(n).1
    }
}

/// Runs the recurrence `iter` times.
pub fn fibonacci(iter: u64) -> (r: u64)
    ensures
        r == fib_value(iter as nat),
{
    let mut a: u64 = 0;
    let mut b: u64 = 1;
    let mut res: u64 = 0;
    let mut i: u64 = 0;
    while i < iter
        invariant
            i <= iter,
            (a, b) == fib_pair(i as nat),
            res == fib_value(i as nat),
        decreases iter - i,
    {
        res = a.wrapping_add(b);
        a = b;
        b = res;
        i = i + 1;
    }
    res
}

/// The guest's body: reads the iteration count and commits the result.
pub fn fibonacci_guest(env: &mut GuestEnv) -> (r: Result<(), ContractViolation>)
    requires
        old(env).wf(),
    ensures
        final(env).wf(),
        final(env).inputs() == old(env).inputs(),
        match u64_read_at(old(env).inputs(), old(env).position()) {
            Ok(n) => r is Ok && final(env).journal() == old(env).journal() + u64_encoding(
                fib_value(n as nat),
            ),
            Err(e) => r == Err::<(), ContractViolation>(e),
        },
{
    let iter = env.read_u64()?;
    let product = fibonacci(iter);
    env.commit_u64(product);
    Ok(())
}

} // verus!
