//! What holds of the ledger's and the factory's transitions in general.

use vstd::prelude::*;
use crate::error::Error;
use crate::factory::{complete_step, derived, prepare_step, FactoryStep, FactoryView, InstanceIdentity, Value};
use crate::identity::Identity;
use crate::model::{
    approve_step, burn_from_step, burn_step, initialize_step, mint_step, refreshed, rejected,
    remaining, transfer_from_step, transfer_step, Step, TokenView,
};
use crate::types::{ContextView, Event, RetentionPolicy};

verus! {

/// An access leaves a record with at least the low-water mark of lifetime,
/// or with the maximum where that is less, unless the markers run out; a
/// second access at the same moment changes nothing; and under a policy whose
/// maximum is not below its low-water mark no access shortens a retention.
pub proof fn law_refresh_renews_retention(policy: RetentionPolicy, live_until: u32, now: u32)
    ensures
        refreshed(policy, live_until, now) == u32::MAX || remaining(
            refreshed(policy, live_until, now),
            now,
        ) >= policy.low_water || remaining(refreshed(policy, live_until, now), now)
            == policy.maximum,
        refreshed(policy, refreshed(policy, live_until, now), now) == refreshed(
            policy,
            live_until,
            now,
        ),
        policy.low_water <= policy.maximum ==> refreshed(policy, live_until, now) >= live_until,
{
}

/// One operation that changes balances or allowances, with its inputs.
pub enum Operation {
    Mint { ctx: ContextView, to: Identity, amount: i128 },
    Transfer { ctx: ContextView, from: Identity, to: Identity, amount: i128 },
    TransferFrom { ctx: ContextView, spender: Identity, from: Identity, to: Identity, amount: i128 },
    Burn { ctx: ContextView, from: Identity, amount: i128 },
    BurnFrom { ctx: ContextView, spender: Identity, from: Identity, amount: i128 },
    Approve { ctx: ContextView, from: Identity, spender: Identity, amount: i128, expiration: u32 },
}

/// The step that `op` takes from `s`.
pub open spec fn step_of(s: TokenView, op: Operation) -> Step<Event> {
    match op {
        Operation::Mint { ctx, to, amount } => mint_step(s, ctx, to, amount),
        Operation::Transfer { ctx, from, to, amount } => transfer_step(s, ctx, from, to, amount),
        Operation::TransferFrom { ctx, spender, from, to, amount } => transfer_from_step(
            s,
            ctx,
            spender,
            from,
            to,
            amount,
        ),
        Operation::Burn { ctx, from, amount } => burn_step(s, ctx, from, amount),
        Operation::BurnFrom { ctx, spender, from, amount } => burn_from_step(
            s,
            ctx,
            spender,
            from,
            amount,
        ),
        Operation::Approve { ctx, from, spender, amount, expiration } => approve_step(
            s,
            ctx,
            from,
            spender,
            amount,
            expiration,
        ),
    }
}

/// The state after the operations `ops`, applied to `s` one after the other.
pub open spec fn run(s: TokenView, ops: Seq<Operation>) -> TokenView
    decreases ops.len(),
{
    if ops.len() == 0 {
        s
    } else {
        step_of(run(s, ops.drop_last()), ops.last()).state
    }
}

/// A rejected operation leaves the whole state, and so every balance, as it
/// was; an accepted one leaves no balance and no allowance negative.
pub proof fn law_step_keeps_balances_sound(s: TokenView, op: Operation)
    requires
        s.consistent(),
    ensures
        step_of(s, op).result is Err ==> step_of(s, op).state == s,
        step_of(s, op).state.consistent(),
        forall|id: Seq<char>| step_of(s, op).state.balance_of(id) >= 0,
{
    let next = step_of(s, op).state;
    assert(next.consistent()) by {
        assert forall|id: Seq<char>| #[trigger]
            next.balances.contains_key(id) implies next.balances[id].amount >= 0 by {
            if s.balances.contains_key(id) {
                assert(s.balances[id].amount >= 0);
            }
            lemma_balances_not_negative(s);
        }
        assert forall|pair: (Seq<char>, Seq<char>)| #[trigger]
            next.allowances.contains_key(pair) implies next.allowances[pair].amount >= 0 by {
            if s.allowances.contains_key(pair) {
                assert(s.allowances[pair].amount >= 0);
            }
        }
    }
    lemma_balances_not_negative(next);
}

/// In a consistent state nobody holds less than nothing.
pub proof fn lemma_balances_not_negative(s: TokenView)
    requires
        s.consistent(),
    ensures
        forall|id: Seq<char>| s.balance_of(id) >= 0,
        forall|owner: Seq<char>, delegate: Seq<char>, now: u32| s.allowance_of(owner, delegate, now) >= 0,
{
    assert forall|id: Seq<char>| s.balance_of(id) >= 0 by {
        if s.balances.contains_key(id) {
            assert(s.balances[id].amount >= 0);
        }
    }
    assert forall|owner: Seq<char>, delegate: Seq<char>, now: u32|
        s.allowance_of(owner, delegate, now) >= 0 by {
        if s.allowances.contains_key((owner, delegate)) {
            assert(s.allowances[(owner, delegate)].amount >= 0);
        }
    }
}

/// Through any sequence of operations, no balance ever goes below zero.
pub proof fn law_balances_never_negative(s: TokenView, ops: Seq<Operation>)
    requires
        s.consistent(),
    ensures
        run(s, ops).consistent(),
        forall|id: Seq<char>| run(s, ops).balance_of(id) >= 0,
    decreases ops.len(),
{
    if ops.len() == 0 {
        lemma_balances_not_negative(s);
    } else {
        law_balances_never_negative(s, ops.drop_last());
        law_step_keeps_balances_sound(run(s, ops.drop_last()), ops.last());
    }
}

/// A transfer or a burn of more than the owner holds is rejected for want of
/// balance, whoever consented otherwise, and changes nothing.
pub proof fn law_overdraft_is_rejected(
    s: TokenView,
    ctx: ContextView,
    from: Identity,
    to: Identity,
    amount: i128,
)
    requires
        ctx.authorized.contains(from@),
        amount > s.balance_of(from@),
        amount >= 0,
    ensures
        transfer_step(s, ctx, from, to, amount) == rejected::<Event>(s, Error::InsufficientBalance),
        burn_step(s, ctx, from, amount) == rejected::<Event>(s, Error::InsufficientBalance),
{
}

/// Right after an accepted `approve` of `amount` until `expiration`, the
/// allowance of the pair reads as `amount` if the current lifetime marker is
/// before `expiration`, and as nothing otherwise.
pub proof fn law_approve_then_allowance(
    s: TokenView,
    ctx: ContextView,
    owner: Identity,
    delegate: Identity,
    amount: i128,
    expiration: u32,
)
    requires
        approve_step(s, ctx, owner, delegate, amount, expiration).result is Ok,
    ensures
        approve_step(s, ctx, owner, delegate, amount, expiration).state.allowance_of(
            owner@,
            delegate@,
            ctx.now,
        ) == if ctx.now < expiration {
            amount
        } else {
            0
        },
{
}

/// An accepted `transfer_from` takes exactly the transferred amount from the
/// delegate's live allowance, and exactly that amount from the owner if the
/// owner is not the recipient.
pub proof fn law_transfer_from_spends_exactly(
    s: TokenView,
    ctx: ContextView,
    spender: Identity,
    from: Identity,
    to: Identity,
    amount: i128,
)
    requires
        s.consistent(),
        transfer_from_step(s, ctx, spender, from, to, amount).result is Ok,
    ensures
        transfer_from_step(s, ctx, spender, from, to, amount).state.allowance_of(
            from@,
            spender@,
            ctx.now,
        ) == s.allowance_of(from@, spender@, ctx.now) - amount,
        from@ != to@ ==> transfer_from_step(s, ctx, spender, from, to, amount).state.balance_of(from@)
            == s.balance_of(from@) - amount,
        from@ != to@ ==> transfer_from_step(s, ctx, spender, from, to, amount).state.balance_of(to@)
            == s.balance_of(to@) + amount,
{
    lemma_balances_not_negative(s);
}

/// One call of `transfer_from`, as far as the spender and the owner do not
/// fix it.
pub struct Draw {
    pub ctx: ContextView,
    pub to: Identity,
    pub amount: i128,
}

/// What is recorded as the allowance of the pair, expired or not.
pub open spec fn recorded_allowance(s: TokenView, owner: Seq<char>, delegate: Seq<char>) -> int {
    if s.allowances.contains_key((owner, delegate)) {
        s.allowances[(owner, delegate)].amount as int
    } else {
        0
    }
}

/// The sum of the amounts that the accepted ones among `draws` moved, all of
/// them made by `spender` on `from`, one after the other from `s` on.
pub open spec fn drawn(s: TokenView, spender: Identity, from: Identity, draws: Seq<Draw>) -> int
    decreases draws.len(),
{
    if draws.len() == 0 {
        0
    } else {
        let first = transfer_from_step(s, draws[0].ctx, spender, from, draws[0].to, draws[0].amount);
        let moved: int = if first.result is Ok {
            draws[0].amount as int
        } else {
            0
        };
        moved + drawn(first.state, spender, from, draws.drop_first())
    }
}

/// However a delegate spreads its calls of `transfer_from` over time,
/// recipients and amounts, what they move in total never exceeds the amount
/// that is recorded as approved when they begin.
pub proof fn law_cumulative_draws_within_approval(
    s: TokenView,
    spender: Identity,
    from: Identity,
    draws: Seq<Draw>,
)
    requires
        s.consistent(),
    ensures
        0 <= drawn(s, spender, from, draws) <= recorded_allowance(s, from@, spender@),
    decreases draws.len(),
{
    lemma_balances_not_negative(s);
    if draws.len() > 0 {
        let d = draws[0];
        let first = transfer_from_step(s, d.ctx, spender, from, d.to, d.amount);
        law_step_keeps_balances_sound(
            s,
            Operation::TransferFrom { ctx: d.ctx, spender, from, to: d.to, amount: d.amount },
        );
        law_cumulative_draws_within_approval(first.state, spender, from, draws.drop_first());
        if first.result is Ok {
            assert(recorded_allowance(first.state, from@, spender@) == recorded_allowance(
                s,
                from@,
                spender@,
            ) - d.amount);
        } else {
            assert(first.state == s);
        }
    }
}

/// Initializing a ledger that has an administrator fails, whatever the
/// inputs, and leaves the ledger as it was; and a ledger that was initialized
/// has an administrator.
pub proof fn law_initialize_only_once(
    s: TokenView,
    ctx: ContextView,
    admin: Identity,
    decimal: u32,
    name: String,
    symbol: String,
    initial_supply: i128,
    owner: Identity,
    equity_diluted: u32,
    url: String,
    ipfs: String,
    desc: String,
)
    ensures
        s.administrator is Some ==> initialize_step(
            s,
            ctx,
            admin,
            decimal,
            name,
            symbol,
            initial_supply,
            owner,
            equity_diluted,
            url,
            ipfs,
            desc,
        ) == rejected::<Event>(s, Error::AlreadyInitialized),
        initialize_step(
            s,
            ctx,
            admin,
            decimal,
            name,
            symbol,
            initial_supply,
            owner,
            equity_diluted,
            url,
            ipfs,
            desc,
        ).result is Ok ==> initialize_step(
            s,
            ctx,
            admin,
            decimal,
            name,
            symbol,
            initial_supply,
            owner,
            equity_diluted,
            url,
            ipfs,
            desc,
        ).state.administrator is Some,
        initialize_step(
            s,
            ctx,
            admin,
            decimal,
            name,
            symbol,
            initial_supply,
            owner,
            equity_diluted,
            url,
            ipfs,
            desc,
        ).result is Err ==> initialize_step(
            s,
            ctx,
            admin,
            decimal,
            name,
            symbol,
            initial_supply,
            owner,
            equity_diluted,
            url,
            ipfs,
            desc,
        ).state == s,
{
}

/// The same deployer and salt always give the same identity, and another
/// deployer or another salt gives another.
pub proof fn law_derivation_is_deterministic_and_unique(
    deployer_a: Seq<char>,
    salt_a: Seq<u8>,
    deployer_b: Seq<char>,
    salt_b: Seq<u8>,
)
    ensures
        derived(deployer_a, salt_a) == derived(deployer_b, salt_b) <==> deployer_a == deployer_b
            && salt_a == salt_b,
{
}

/// Once a deployment for a deployer and a salt has succeeded, every further
/// deployment for the same deployer and salt is refused for the collision,
/// before and after its initializer, with the factory and the first instance
/// as they were.
pub proof fn law_second_deployment_collides(
    s: FactoryView,
    first: InstanceIdentity,
    code: [u8; 32],
    value: Value,
    deployer: Identity,
    salt: [u8; 32],
    other_code: [u8; 32],
    function: String,
    args: Vec<Value>,
    outcome: Result<Value, Error>,
)
    requires
        complete_step(s, first, code, Ok(value)).result is Ok,
        deployer@ == first.deployer@,
        salt@ == first.salt@,
    ensures
        ({
            let after = complete_step(s, first, code, Ok(value)).state;
            &&& after.instances.contains_key(first@)
            &&& after.instances[first@] == code
            &&& prepare_step(after, deployer, other_code, salt, function, args) == Err::<
                crate::factory::Invocation,
                Error,
            >(Error::IdentityCollision)
            &&& complete_step(after, InstanceIdentity { deployer, salt }, other_code, outcome) == (
            FactoryStep { state: after, result: Err(Error::IdentityCollision) })
        }),
{
}

/// Where the initializer of a deployment fails, the deployment fails with
/// it, and no instance exists at the derived identity afterwards.
pub proof fn law_failed_initializer_leaves_no_instance(
    s: FactoryView,
    deployer: Identity,
    code: [u8; 32],
    salt: [u8; 32],
    function: String,
    args: Vec<Value>,
    failure: Error,
)
    requires
        prepare_step(s, deployer, code, salt, function, args) is Ok,
    ensures
        ({
            let invocation = prepare_step(s, deployer, code, salt, function, args)->Ok_0;
            let after = complete_step(s, invocation.instance, code, Err(failure));
            &&& invocation.instance@ == derived(deployer@, salt@)
            &&& after.result == Err::<(InstanceIdentity, Value), Error>(Error::InitializerFailed)
            &&& after.state == s
            &&& !after.state.instances.contains_key(derived(deployer@, salt@))
        }),
{
}

} // verus!
