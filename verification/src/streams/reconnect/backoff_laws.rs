//! What holds of the backoff over any number of attempts.

use std::time::Duration;
use vstd::arithmetic::power::{lemma0_pow, lemma_pow0, lemma_pow1};
use vstd::arithmetic::power::{lemma_pow_adds, lemma_pow_positive, pow};
use vstd::prelude::*;
use vstd::std_specs::convert::FromSpec;

use super::stream::{capped, ReconnectionBackoffPolicy, ReconnectionState};
use crate::time::duration_nanos;

verus! {

/// The state after `attempts`, each of which did or did not succeed.
pub open spec fn after_attempts(state: ReconnectionState, attempts: Seq<bool>) -> ReconnectionState
    decreases attempts.len(),
{
    if attempts.len() == 0 {
        state
    } else {
        after_attempts(state, attempts.drop_last()).after(attempts.last())
    }
}

/// The sleeps in milliseconds that `attempts` ask for: one for each failure.
pub open spec fn sleeps(state: ReconnectionState, attempts: Seq<bool>) -> Seq<u64>
    decreases attempts.len(),
{
    if attempts.len() == 0 {
        Seq::empty()
    } else {
        let before = sleeps(state, attempts.drop_last());
        if attempts.last() {
            before
        } else {
            before.push(after_attempts(state, attempts.drop_last()).sleep_ms_spec())
        }
    }
}

/// How many of `attempts` failed since the last that succeeded.
pub open spec fn failures_in_a_row(attempts: Seq<bool>) -> nat
    decreases attempts.len(),
{
    if attempts.len() == 0 || attempts.last() {
        0
    } else {
        failures_in_a_row(attempts.drop_last()) + 1
    }
}

/// How many of `attempts` failed.
pub open spec fn failures(attempts: Seq<bool>) -> nat
    decreases attempts.len(),
{
    if attempts.len() == 0 {
        0
    } else {
        failures(attempts.drop_last()) + if attempts.last() {
            0nat
        } else {
            1nat
        }
    }
}

/// The first of some attempts can be taken on its own.
pub(crate) proof fn lemma_first_attempt(state: ReconnectionState, first: bool, rest: Seq<bool>)
    ensures
        after_attempts(state, seq![first] + rest) == after_attempts(state.after(first), rest),
        sleeps(state, seq![first] + rest) == (if first {
            Seq::empty()
        } else {
            seq![state.sleep_ms_spec()]
        }) + sleeps(state.after(first), rest),
    decreases rest.len(),
{
    let all = seq![first] + rest;
    if rest.len() == 0 {
        assert(all.drop_last() =~= Seq::<bool>::empty());
        assert(all.last() == first);
        reveal_with_fuel(after_attempts, 2);
        reveal_with_fuel(sleeps, 2);
    } else {
        assert(all.drop_last() =~= seq![first] + rest.drop_last());
        assert(all.last() == rest.last());
        lemma_first_attempt(state, first, rest.drop_last());
    }
}

/// Whether no failed attempt finds a backoff that is too large to be
/// multiplied.
pub open spec fn backoff_fits(state: ReconnectionState, attempts: Seq<bool>) -> bool {
    forall|i: int|
        0 <= i < attempts.len() && !#[trigger] attempts[i] ==> after_attempts(
            state,
            attempts.take(i),
        ).can_multiply()
}

/// If the backoffs of some attempts fit, so do that of the first and those of the rest.
pub(crate) proof fn lemma_first_fits(state: ReconnectionState, first: bool, rest: Seq<bool>)
    requires
        backoff_fits(state, seq![first] + rest),
    ensures
        !first ==> state.can_multiply(),
        backoff_fits(state.after(first), rest),
{
    let all = seq![first] + rest;
    assert(all[0] == first);
    assert(all.take(0) =~= Seq::<bool>::empty());
    assert forall|i: int| 0 <= i < rest.len() && !#[trigger] rest[i] implies after_attempts(
        state.after(first),
        rest.take(i),
    ).can_multiply() by {
        assert(all[i + 1] == rest[i]);
        assert(all.take(i + 1) =~= seq![first] + rest.take(i));
        lemma_first_attempt(state, first, rest.take(i));
    }
}

/// Multiplying the backoff of `failures` failures gives that of one more.
proof fn lemma_backoff_step(policy: ReconnectionBackoffPolicy, failures: nat)
    ensures
        policy.backoff_ms(failures) >= 0,
        policy.backoff_ms(failures + 1) == capped(
            policy.backoff_ms(failures) * policy.backoff_multiplier,
            policy.backoff_ms_max as int,
        ),
{
    let initial = policy.backoff_ms_initial as int;
    let multiplier = policy.backoff_multiplier as int;
    let max = policy.backoff_ms_max as int;
    let grown = initial * pow(multiplier, failures);
    lemma_pow_not_negative(multiplier, failures);
    lemma_pow1(multiplier);
    lemma_pow_adds(multiplier, failures, 1);
    assert(grown >= 0) by (nonlinear_arith)
        requires
            initial >= 0,
            pow(multiplier, failures) >= 0,
            grown == initial * pow(multiplier, failures),
    ;
    assert(initial * pow(multiplier, failures + 1) == grown * multiplier) by (nonlinear_arith)
        requires
            pow(multiplier, failures + 1) == pow(multiplier, failures) * multiplier,
            grown == initial * pow(multiplier, failures),
    ;
    if multiplier == 0 {
        assert(grown * multiplier == 0 && max * multiplier == 0) by (nonlinear_arith)
            requires
                multiplier == 0,
        ;
    } else if grown > max {
        assert(grown * multiplier >= grown) by (nonlinear_arith)
            requires
                grown >= 0,
                multiplier >= 1,
        ;
        assert(max * multiplier >= max) by (nonlinear_arith)
            requires
                max >= 0,
                multiplier >= 1,
        ;
    }
}

/// Powers of a base that is not negative are not negative.
proof fn lemma_pow_not_negative(base: int, exponent: nat)
    requires
        base >= 0,
    ensures
        pow(base, exponent) >= 0,
{
    if exponent == 0 {
        lemma_pow0(base);
    } else if base == 0 {
        lemma0_pow(exponent);
    } else {
        lemma_pow_positive(base, exponent);
    }
}

/// The backoff is exponential in the number of attempts that failed since the
/// last success, and cut off at the maximum: after any attempts, whatever came
/// before the last success is forgotten.
pub proof fn law_backoff_is_exponential(policy: ReconnectionBackoffPolicy, attempts: Seq<bool>)
    ensures
        ({
            let state = after_attempts(ReconnectionState::fresh(policy), attempts);
            let failed = failures_in_a_row(attempts);
            &&& state.policy == policy
            &&& state.sleep_ms_spec() == policy.backoff_ms(failed)
            &&& state.backoff_ms_current == if failed == 0 {
                policy.backoff_ms_initial as int
            } else {
                policy.backoff_ms(failed)
            }
        }),
    decreases attempts.len(),
{
    lemma_pow0(policy.backoff_multiplier as int);
    lemma_pow1(policy.backoff_multiplier as int);
    if attempts.len() > 0 {
        let before = attempts.drop_last();
        law_backoff_is_exponential(policy, before);
        if !attempts.last() {
            lemma_backoff_step(policy, failures_in_a_row(before));
        }
    }
}

/// Every failed attempt asks for exactly one sleep, and its length is the
/// backoff of the failures that came directly before it, cut off at the maximum.
pub proof fn law_sleeps_follow_failures(policy: ReconnectionBackoffPolicy, attempts: Seq<bool>)
    ensures
        sleeps(ReconnectionState::fresh(policy), attempts).len() == failures(attempts),
        forall|i: int|
            0 <= i < attempts.len() && !#[trigger] attempts[i] ==> {
                let before = attempts.take(i);
                &&& failures(before) < failures(attempts)
                &&& sleeps(ReconnectionState::fresh(policy), attempts)[failures(before) as int]
                    == policy.backoff_ms(failures_in_a_row(before))
            },
        forall|i: int|
            0 <= i < attempts.len() && !#[trigger] attempts[i] ==> {
                let before = attempts.take(i);
                let slept = sleeps(ReconnectionState::fresh(policy), attempts)[failures(
                    before,
                ) as int];
                let grown = policy.backoff_ms_initial * pow(
                    policy.backoff_multiplier as int,
                    failures_in_a_row(before),
                );
                &&& grown <= policy.backoff_ms_max ==> slept == grown
                &&& grown > policy.backoff_ms_max ==> slept == policy.backoff_ms_max
            },
    decreases attempts.len(),
{
    let state = ReconnectionState::fresh(policy);
    if attempts.len() > 0 {
        let last = attempts.len() - 1;
        let init = attempts.drop_last();
        let earlier = sleeps(state, init);
        let all = sleeps(state, attempts);
        assert(attempts.take(last) =~= init);
        law_sleeps_follow_failures(policy, init);
        law_backoff_is_exponential(policy, init);
        assert forall|i: int| 0 <= i < attempts.len() && !#[trigger] attempts[i] implies {
            let before = attempts.take(i);
            &&& failures(before) < failures(attempts)
            &&& all[failures(before) as int] == policy.backoff_ms(failures_in_a_row(before))
        } by {
            let before = attempts.take(i);
            if i < last {
                assert(before =~= init.take(i));
                assert(!init[i]);
                assert(all[failures(before) as int] == earlier[failures(before) as int]);
            } else {
                assert(all == earlier.push(after_attempts(state, init).sleep_ms_spec()));
            }
        }
    }
}

/// A success returns to the state before any attempt, whatever went before.
pub proof fn law_success_forgets_failures(policy: ReconnectionBackoffPolicy, attempts: Seq<bool>)
    ensures
        after_attempts(ReconnectionState::fresh(policy), attempts.push(true))
            == ReconnectionState::fresh(policy),
{
    law_backoff_is_exponential(policy, attempts);
    assert(attempts.push(true).drop_last() =~= attempts);
}

/// After a success everything is as if it were the beginning: the attempts
/// before it leave no trace in the state, nor in any later sleep.
pub proof fn law_success_starts_over(
    policy: ReconnectionBackoffPolicy,
    before: Seq<bool>,
    after: Seq<bool>,
)
    ensures
        after_attempts(ReconnectionState::fresh(policy), before + seq![true] + after)
            == after_attempts(ReconnectionState::fresh(policy), after),
        sleeps(ReconnectionState::fresh(policy), before + seq![true] + after) == sleeps(
            ReconnectionState::fresh(policy),
            before,
        ) + sleeps(ReconnectionState::fresh(policy), after),
    decreases after.len(),
{
    let fresh = ReconnectionState::fresh(policy);
    let all = before + seq![true] + after;
    if after.len() == 0 {
        assert(all =~= before.push(true));
        assert(all.drop_last() =~= before);
        law_success_forgets_failures(policy, before);
        assert(sleeps(fresh, after) =~= Seq::<u64>::empty());
    } else {
        assert(all.drop_last() =~= before + seq![true] + after.drop_last());
        assert(all.last() == after.last());
        law_success_starts_over(policy, before, after.drop_last());
    }
}

/// The maximum bounds every backoff, whatever the policy.
pub proof fn law_backoff_is_bounded(policy: ReconnectionBackoffPolicy, failures: nat)
    ensures
        0 <= policy.backoff_ms(failures) <= policy.backoff_ms_max,
{
    lemma_backoff_step(policy, failures);
}

/// No sleep between attempts is longer than the maximum, whatever the policy
/// and the attempts.
pub proof fn law_sleeps_are_bounded(policy: ReconnectionBackoffPolicy, attempts: Seq<bool>)
    ensures
        forall|i: int|
            0 <= i < sleeps(ReconnectionState::fresh(policy), attempts).len() ==> #[trigger] sleeps(
                ReconnectionState::fresh(policy),
                attempts,
            )[i] <= policy.backoff_ms_max,
    decreases attempts.len(),
{
    if attempts.len() > 0 {
        let init = attempts.drop_last();
        let earlier = sleeps(ReconnectionState::fresh(policy), init);
        let all = sleeps(ReconnectionState::fresh(policy), attempts);
        law_sleeps_are_bounded(policy, init);
        law_backoff_is_exponential(policy, init);
        law_backoff_is_bounded(policy, failures_in_a_row(init));
        assert forall|i: int| 0 <= i < all.len() implies #[trigger] all[i]
            <= policy.backoff_ms_max by {
            if i < earlier.len() {
                assert(all[i] == earlier[i]);
            }
        }
    }
}

/// More failures in a row never shorten the backoff, unless a multiplier of
/// zero takes away a first backoff that is there.
pub proof fn law_backoff_never_shrinks(policy: ReconnectionBackoffPolicy, fewer: nat, more: nat)
    requires
        fewer <= more,
        fewer == 0 && more > 0 ==> policy.backoff_multiplier >= 1 || policy.backoff_ms_initial == 0
            || policy.backoff_ms_max == 0,
    ensures
        policy.backoff_ms(fewer) <= policy.backoff_ms(more),
    decreases more - fewer,
{
    if fewer < more {
        let before = (more - 1) as nat;
        law_backoff_never_shrinks(policy, fewer, before);
        law_backoff_is_bounded(policy, before);
        lemma_backoff_step(policy, before);
        if policy.backoff_multiplier >= 1 {
            assert(policy.backoff_ms(before) * policy.backoff_multiplier >= policy.backoff_ms(
                before,
            )) by (nonlinear_arith)
                requires
                    policy.backoff_ms(before) >= 0,
                    policy.backoff_multiplier >= 1,
            ;
        } else if before > 0 {
            lemma0_pow(before);
        }
    }
}

/// Every state reached from a policy is well-formed, and if neither the initial
/// backoff nor the maximum is too large to be multiplied, no attempts ever lead
/// to a backoff that is.
pub proof fn law_reached_states_are_safe(policy: ReconnectionBackoffPolicy, attempts: Seq<bool>)
    ensures
        after_attempts(ReconnectionState::fresh(policy), attempts).wf(),
        policy.never_overflows() ==> after_attempts(
            ReconnectionState::fresh(policy),
            attempts,
        ).can_multiply(),
        policy.never_overflows() ==> backoff_fits(ReconnectionState::fresh(policy), attempts),
    decreases attempts.len(),
{
    if attempts.len() > 0 {
        let init = attempts.drop_last();
        law_reached_states_are_safe(policy, init);
        assert forall|i: int|
            policy.never_overflows() && 0 <= i < attempts.len() && !#[trigger] attempts[i] implies
            after_attempts(ReconnectionState::fresh(policy), attempts.take(i)).can_multiply() by {
            if i < init.len() {
                assert(attempts[i] == init[i]);
                assert(attempts.take(i) =~= init.take(i));
            } else {
                assert(attempts.take(i) =~= init);
            }
        }
    }
    law_backoff_is_exponential(policy, attempts);
    let state = after_attempts(ReconnectionState::fresh(policy), attempts);
    let failed = failures_in_a_row(attempts);
    if failed > 0 {
        law_backoff_is_bounded(policy, failed);
        assert(state.backoff_ms_current * policy.backoff_multiplier <= policy.backoff_ms_max
            * policy.backoff_multiplier) by (nonlinear_arith)
            requires
                state.backoff_ms_current <= policy.backoff_ms_max,
                policy.backoff_multiplier >= 0,
        ;
    }
}

/// Cutting a value off leaves it as it is up to the bound, and leaves the bound
/// of anything above it.
pub proof fn law_cut_off_is_the_minimum(value: int, cap: int)
    ensures
        value <= cap ==> capped(value, cap) == value,
        value > cap ==> capped(value, cap) == cap,
{
}

/// The backoff is initial backoff times multiplier to the power of the failures
/// before, where that is no more than the maximum, and exactly the maximum where
/// it is more.
pub proof fn law_backoff_is_grown_or_maximal(policy: ReconnectionBackoffPolicy, failures: nat)
    ensures
        ({
            let grown = policy.backoff_ms_initial * pow(
                policy.backoff_multiplier as int,
                failures,
            );
            &&& grown <= policy.backoff_ms_max ==> policy.backoff_ms(failures) == grown
            &&& grown > policy.backoff_ms_max ==> policy.backoff_ms(failures)
                == policy.backoff_ms_max
        }),
{
    law_cut_off_is_the_minimum(
        policy.backoff_ms_initial * pow(policy.backoff_multiplier as int, failures),
        policy.backoff_ms_max as int,
    );
}

/// The first backoff is the initial one and each further one the multiple of
/// the one before it, or else the maximum, if that is less.
pub proof fn law_each_backoff_multiplies_the_last(
    policy: ReconnectionBackoffPolicy,
    failures: nat,
)
    ensures
        policy.backoff_ms_initial <= policy.backoff_ms_max ==> policy.backoff_ms(0)
            == policy.backoff_ms_initial,
        policy.backoff_ms_initial > policy.backoff_ms_max ==> policy.backoff_ms(0)
            == policy.backoff_ms_max,
        ({
            let product = policy.backoff_ms(failures) * policy.backoff_multiplier;
            &&& product <= policy.backoff_ms_max ==> policy.backoff_ms(failures + 1) == product
            &&& product > policy.backoff_ms_max ==> policy.backoff_ms(failures + 1)
                == policy.backoff_ms_max
        }),
{
    lemma_pow0(policy.backoff_multiplier as int);
    lemma_backoff_step(policy, failures);
}

/// The state that a policy is converted to, from which the laws over attempts
/// start, has that policy and its initial backoff.
pub proof fn law_converted_state_has_initial_backoff(policy: ReconnectionBackoffPolicy)
    ensures
        <ReconnectionState as FromSpec<ReconnectionBackoffPolicy>>::obeys_from_spec(),
        <ReconnectionState as FromSpec<ReconnectionBackoffPolicy>>::from_spec(policy).policy
            == policy,
        <ReconnectionState as FromSpec<ReconnectionBackoffPolicy>>::from_spec(
            policy,
        ).backoff_ms_current == policy.backoff_ms_initial,
        <ReconnectionState as FromSpec<ReconnectionBackoffPolicy>>::from_spec(policy)
            == ReconnectionState::fresh(policy),
        ReconnectionState::fresh(policy).policy == policy,
        ReconnectionState::fresh(policy).backoff_ms_current == policy.backoff_ms_initial,
{
}

/// What an attempt makes of a state: a success brings back the initial backoff,
/// a failure the product of backoff and multiplier or the maximum, whichever is
/// less. The sleep of a failure is the backoff or the maximum, whichever is
/// less. The policy stays, and the only failures left out are those whose
/// product is beyond `u64`.
pub proof fn law_attempts_change_the_backoff(state: ReconnectionState)
    ensures
        state.can_multiply() <==> state.backoff_ms_current * state.policy.backoff_multiplier
            <= u64::MAX,
        state.after(true).policy == state.policy,
        state.after(false).policy == state.policy,
        state.after(true).backoff_ms_current == state.policy.backoff_ms_initial,
        ({
            let product = state.backoff_ms_current * state.policy.backoff_multiplier;
            let max = state.policy.backoff_ms_max;
            &&& product <= max ==> state.after(false).backoff_ms_current == product
            &&& product > max ==> state.after(false).backoff_ms_current == max
            &&& state.backoff_ms_current <= max ==> state.sleep_ms_spec()
                == state.backoff_ms_current
            &&& state.backoff_ms_current > max ==> state.sleep_ms_spec() == max
        }),
        state.with_initial_backoff() == state.after(true),
        state.with_multiplied_backoff() == state.after(false),
        state.wf() <==> state.backoff_ms_current == state.policy.backoff_ms_initial
            || state.backoff_ms_current <= state.policy.backoff_ms_max,
{
}

/// A policy never overflows exactly if neither its initial backoff nor its
/// maximum times its multiplier is beyond `u64`.
pub proof fn law_overflow_depends_on_initial_and_maximum(policy: ReconnectionBackoffPolicy)
    ensures
        policy.never_overflows() <==> policy.backoff_ms_initial * policy.backoff_multiplier
            <= u64::MAX && policy.backoff_ms_max * policy.backoff_multiplier <= u64::MAX,
{
}

/// Converting a policy and asking for its first sleep gives the initial backoff,
/// or the maximum where that is less.
pub proof fn law_first_sleep_is_the_initial_backoff(
    policy: ReconnectionBackoffPolicy,
    state: ReconnectionState,
    ms: u64,
    sleep: Duration,
)
    requires
        call_ensures(
            <ReconnectionState as From<ReconnectionBackoffPolicy>>::from,
            (policy,),
            state,
        ),
        call_ensures(ReconnectionState::sleep_ms, (&state,), ms),
        call_ensures(ReconnectionState::generate_sleep_duration, (&state,), sleep),
    ensures
        state.policy == policy,
        state.backoff_ms_current == policy.backoff_ms_initial,
        policy.backoff_ms_initial <= policy.backoff_ms_max ==> ms == policy.backoff_ms_initial,
        policy.backoff_ms_initial > policy.backoff_ms_max ==> ms == policy.backoff_ms_max,
        duration_nanos(sleep) == ms * 1_000_000,
{
}

} // verus!
