//! The chain of challenges that every scheme shares.
//!
//! A ring of `n` members has `n` rounds. Round `i` takes the challenge `c_i` to the challenge
//! `c_{i+1}`, through a hash that depends on the member and on its response. A signature is
//! valid when the chain closes: the rounds 0, 1, …, n−1, run from the challenge of the
//! signature, lead back to it.
//!
//! A signer opens the chain behind the secret index π with a commitment of its own, runs the
//! rounds π+1, …, n−1, 0, …, π−1 with arbitrary responses, and then picks the one response at π
//! that sends `c_π` to the challenge it started from.
use vstd::prelude::*;

verus! {

/// The challenge reached from `c` by the rounds `lo`, `lo + 1`, …, `hi − 1`.
pub open spec fn run(round: spec_fn(int, nat) -> nat, lo: int, hi: int, c: nat) -> nat
    decreases hi - lo,
{
    if hi <= lo {
        c
    } else {
        round(hi - 1, run(round, lo, hi - 1, c))
    }
}

/// Whether the rounds of a ring of `n` members lead from `c` back to `c`.
pub open spec fn closes(round: spec_fn(int, nat) -> nat, n: int, c: nat) -> bool {
    run(round, 0, n, c) == c
}

/// The challenge `c_0` of a signer who opens the chain with `seed` behind the index `secret`.
pub open spec fn first_challenge(round: spec_fn(int, nat) -> nat, n: int, secret: int, seed: nat) -> nat {
    run(round, secret + 1, n, seed)
}

/// The challenge `c_π` that the signer reaches at the index `secret`.
pub open spec fn secret_challenge(round: spec_fn(int, nat) -> nat, n: int, secret: int, seed: nat) -> nat {
    run(round, 0, secret, first_challenge(round, n, secret, seed))
}

/// Running the rounds from `lo` to `hi` is running them to `mid` and then on to `hi`.
pub proof fn lemma_run_split(round: spec_fn(int, nat) -> nat, lo: int, mid: int, hi: int, c: nat)
    requires
        lo <= mid <= hi,
    ensures
        run(round, lo, hi, c) == run(round, mid, hi, run(round, lo, mid, c)),
    decreases hi - mid,
{
    if mid < hi {
        lemma_run_split(round, lo, mid, hi - 1, c);
    }
}

/// Two families of rounds that agree from `lo` to `hi` lead to the same challenge.
pub proof fn lemma_run_agrees(
    f: spec_fn(int, nat) -> nat,
    g: spec_fn(int, nat) -> nat,
    lo: int,
    hi: int,
    c: nat,
)
    requires
        forall|i: int, x: nat| lo <= i < hi ==> #[trigger] f(i, x) == g(i, x),
    ensures
        run(f, lo, hi, c) == run(g, lo, hi, c),
    decreases hi - lo,
{
    if lo < hi {
        lemma_run_agrees(f, g, lo, hi - 1, c);
    }
}

/// The chain of a signer closes. Let `draft` be the rounds with the responses that the signer
/// drew and `signed` the rounds of the finished signature: they differ at the secret index
/// alone. If the round of the signature at the secret index sends `c_π` to the seed, then the
/// rounds of the signature lead from `c_0` back to `c_0`.
pub proof fn lemma_chain_closes(
    draft: spec_fn(int, nat) -> nat,
    signed: spec_fn(int, nat) -> nat,
    n: int,
    secret: int,
    seed: nat,
)
    requires
        0 <= secret < n,
        forall|i: int, x: nat| 0 <= i < n && i != secret ==> #[trigger] draft(i, x) == signed(i, x),
        signed(secret, secret_challenge(draft, n, secret, seed)) == seed,
    ensures
        closes(signed, n, first_challenge(draft, n, secret, seed)),
{
    let c0 = first_challenge(draft, n, secret, seed);
    lemma_run_split(signed, 0, secret + 1, n, c0);
    lemma_run_agrees(draft, signed, 0, secret, c0);
    lemma_run_agrees(draft, signed, secret + 1, n, seed);
    assert(run(signed, 0, secret + 1, c0) == signed(secret, run(signed, 0, secret, c0)));
}

} // verus!
