//! The ledger as a mathematical object: its state as plain maps, and each
//! operation as a pure function from a state and the operation's inputs to
//! the next state and the operation's result.

use vstd::prelude::*;
use crate::error::Error;
use crate::identity::Identity;
use crate::table::Table;
use crate::types::{
    Allowance, ContextView, Event, Grant, Holding, RetentionPolicy, Snapshot, State, TokenMetadata,
};

verus! {

/// The state of a ledger. An owner without a balance record holds nothing; a
/// pair without an allowance record has no allowance.
pub struct TokenView {
    pub administrator: Option<Identity>,
    pub metadata: Option<TokenMetadata>,
    pub companies: Map<Seq<char>, State>,
    pub balances: Map<Seq<char>, Holding>,
    pub allowances: Map<(Seq<char>, Seq<char>), Allowance>,
    pub policy: RetentionPolicy,
    pub live_until: u32,
}

/// The state after an operation, and what the operation returned.
pub struct Step<T> {
    pub state: TokenView,
    pub result: Result<T, Error>,
}

/// The lifetime that is left at `now` to a record that is retained until
/// `live_until`.
pub open spec fn remaining(live_until: u32, now: u32) -> int {
    if live_until > now {
        live_until - now
    } else {
        0
    }
}

/// The marker until which a record is retained after an access at `now`, if
/// it was retained until `live_until` before.
pub open spec fn refreshed(policy: RetentionPolicy, live_until: u32, now: u32) -> u32 {
    if remaining(live_until, now) < policy.low_water {
        if now + policy.maximum > u32::MAX {
            u32::MAX
        } else {
            (now + policy.maximum) as u32
        }
    } else {
        live_until
    }
}

impl TokenView {
    /// No recorded balance and no recorded allowance is negative.
    pub open spec fn consistent(self) -> bool {
        &&& forall|id: Seq<char>| #[trigger]
            self.balances.contains_key(id) ==> self.balances[id].amount >= 0
        &&& forall|pair: (Seq<char>, Seq<char>)| #[trigger]
            self.allowances.contains_key(pair) ==> self.allowances[pair].amount >= 0
    }

    /// What `id` holds.
    pub open spec fn balance_of(self, id: Seq<char>) -> i128 {
        if self.balances.contains_key(id) {
            self.balances[id].amount
        } else {
            0
        }
    }

    /// The marker until which the balance record of `id` is retained; a
    /// missing record was never retained.
    pub open spec fn balance_live_until(self, id: Seq<char>) -> u32 {
        if self.balances.contains_key(id) {
            self.balances[id].live_until
        } else {
            0
        }
    }

    /// What `delegate` may spend of `owner`'s at lifetime marker `now`: the
    /// recorded amount while `now` is before the recorded expiration, and
    /// nothing from then on.
    pub open spec fn allowance_of(self, owner: Seq<char>, delegate: Seq<char>, now: u32) -> i128 {
        if self.allowances.contains_key((owner, delegate)) && now < self.allowances[(
            owner,
            delegate,
        )].expiration {
            self.allowances[(owner, delegate)].amount
        } else {
            0
        }
    }

    /// The marker until which the allowance record of the pair is retained; a
    /// missing record was never retained.
    pub open spec fn allowance_live_until(self, owner: Seq<char>, delegate: Seq<char>) -> u32 {
        if self.allowances.contains_key((owner, delegate)) {
            self.allowances[(owner, delegate)].live_until
        } else {
            0
        }
    }

    /// The state after an access to the ledger's own record at `now`: its
    /// retention is renewed as the policy says.
    pub open spec fn touched(self, now: u32) -> TokenView {
        TokenView { live_until: refreshed(self.policy, self.live_until, now), ..self }
    }

    /// The state after `amount` was written at `now` as what `id` holds: the
    /// record's retention is renewed.
    pub open spec fn with_balance(self, id: Seq<char>, amount: i128, now: u32) -> TokenView {
        TokenView {
            balances: self.balances.insert(
                id,
                Holding {
                    amount,
                    live_until: refreshed(self.policy, self.balance_live_until(id), now),
                },
            ),
            ..self
        }
    }

    /// The state after the balance of `id` was read at `now`: the retention
    /// of the record is renewed if there is one.
    pub open spec fn balance_read(self, id: Seq<char>, now: u32) -> TokenView {
        if self.balances.contains_key(id) {
            self.with_balance(id, self.balance_of(id), now)
        } else {
            self
        }
    }

    /// The state with `amount` added at `now` to what `id` holds.
    pub open spec fn credited(self, id: Seq<char>, amount: i128, now: u32) -> TokenView {
        self.with_balance(id, (self.balance_of(id) + amount) as i128, now)
    }

    /// The state with `amount` taken at `now` from what `id` holds.
    pub open spec fn debited(self, id: Seq<char>, amount: i128, now: u32) -> TokenView {
        self.with_balance(id, (self.balance_of(id) - amount) as i128, now)
    }

    /// The state after `amount` and `expiration` were written at `now` as the
    /// allowance of the pair: the record's retention is renewed.
    pub open spec fn with_allowance(
        self,
        owner: Seq<char>,
        delegate: Seq<char>,
        amount: i128,
        expiration: u32,
        now: u32,
    ) -> TokenView {
        TokenView {
            allowances: self.allowances.insert(
                (owner, delegate),
                Allowance {
                    amount,
                    expiration,
                    live_until: refreshed(
                        self.policy,
                        self.allowance_live_until(owner, delegate),
                        now,
                    ),
                },
            ),
            ..self
        }
    }

    /// The state with `amount` taken at `now` from the recorded allowance of
    /// the pair, whose expiration stays. Where nothing is recorded for the
    /// pair, nothing is.
    pub open spec fn spent(self, owner: Seq<char>, delegate: Seq<char>, amount: i128, now: u32) -> TokenView {
        if self.allowances.contains_key((owner, delegate)) {
            let record = self.allowances[(owner, delegate)];
            self.with_allowance(
                owner,
                delegate,
                (record.amount - amount) as i128,
                record.expiration,
                now,
            )
        } else {
            self
        }
    }

    /// Whether crediting `amount` to `id` stays within the representable
    /// amounts.
    pub open spec fn can_credit(self, id: Seq<char>, amount: i128) -> bool {
        self.balance_of(id) + amount <= i128::MAX
    }
}

/// Whether no balance and no allowance of the snapshot is negative.
pub open spec fn snapshot_is_sound(snapshot: Snapshot) -> bool {
    &&& forall|i: int|
        0 <= i < snapshot.balances@.len() ==> (#[trigger] snapshot.balances@[i]).value.amount >= 0
    &&& forall|i: int|
        0 <= i < snapshot.allowances@.len() ==> (#[trigger] snapshot.allowances@[i]).value.amount >= 0
}

/// The state that a snapshot stands for.
pub open spec fn restored(snapshot: Snapshot) -> TokenView {
    TokenView {
        administrator: snapshot.administrator,
        metadata: snapshot.metadata,
        companies: Table::<String, State>::collected(snapshot.companies@),
        balances: Table::<Identity, Holding>::collected(snapshot.balances@),
        allowances: Table::<Grant, Allowance>::collected(snapshot.allowances@),
        policy: snapshot.policy,
        live_until: snapshot.live_until,
    }
}

/// The step of a rejected operation.
pub open spec fn rejected<T>(s: TokenView, e: Error) -> Step<T> {
    Step { state: s, result: Err(e) }
}

/// The record that is returned for a company of which nothing is recorded.
pub open spec fn blank_state(address: Identity, url: String, desc: String, ipfs: String) -> State {
    State {
        equity_diluted: 0,
        total_tokens: 0,
        address,
        company_url: url,
        ipfshash: ipfs,
        company_description: desc,
    }
}

/// `mint(to, amount)`.
pub open spec fn mint_step(s: TokenView, ctx: ContextView, to: Identity, amount: i128) -> Step<
    Event,
> {
    if amount < 0 {
        rejected(s, Error::NegativeAmount)
    } else if !ctx.authorized.contains(to@) {
        rejected(s, Error::Unauthorized)
    } else if !s.can_credit(to@, amount) {
        rejected(s, Error::BalanceOverflow)
    } else {
        Step {
            state: s.touched(ctx.now).credited(to@, amount, ctx.now),
            result: Ok(Event::Mint { to, amount }),
        }
    }
}

/// `initialize(admin, decimal, name, symbol, initial_supply, owner, ...)`.
pub open spec fn initialize_step(
    s: TokenView,
    ctx: ContextView,
    admin: Identity,
    decimal: u32,
    name: String,
    symbol: String,
    initial_supply: i128,
    owner: Identity,
    equity_diluted: u32,
    url: String,
    ipfs: String,
    desc: String,
) -> Step<Event> {
    if s.administrator is Some {
        rejected(s, Error::AlreadyInitialized)
    } else if decimal > 255 {
        rejected(s, Error::InvalidDecimals)
    } else {
        let company = State {
            equity_diluted,
            total_tokens: initial_supply,
            address: owner,
            company_url: url,
            ipfshash: ipfs,
            company_description: desc,
        };
        let prepared = TokenView {
            administrator: Some(admin),
            companies: s.companies.insert(name@, company),
            metadata: Some(TokenMetadata { decimal, name, symbol }),
            ..s
        };
        let minted = mint_step(prepared, ctx, owner, initial_supply);
        if minted.result is Ok {
            minted
        } else {
            Step { state: s, result: minted.result }
        }
    }
}

/// `get_information(name)`.
pub open spec fn information(s: TokenView, name: String) -> Result<State, Error> {
    match s.administrator {
        None => Err(Error::NotInitialized),
        Some(admin) => Ok(
            if s.companies.contains_key(name@) {
                s.companies[name@]
            } else {
                blank_state(admin, name, name, name)
            },
        ),
    }
}

/// `decimals()`, `name()` and `symbol()` read from this.
pub open spec fn metadata(s: TokenView) -> Result<TokenMetadata, Error> {
    match s.metadata {
        None => Err(Error::NotInitialized),
        Some(m) => Ok(m),
    }
}

/// The state after `balance(id)` or `spendable_balance(id)`, which return
/// what `id` held before.
pub open spec fn balance_step(s: TokenView, ctx: ContextView, id: Identity) -> TokenView {
    s.touched(ctx.now).balance_read(id@, ctx.now)
}

/// The state after `allowance(from, spender)`, which returns what the
/// allowance was before: the retention of the record is renewed if there is
/// one.
pub open spec fn allowance_step(s: TokenView, ctx: ContextView, from: Identity, spender: Identity) -> TokenView {
    s.touched(ctx.now).spent(from@, spender@, 0, ctx.now)
}

/// `approve(from, spender, amount, expiration)`.
pub open spec fn approve_step(
    s: TokenView,
    ctx: ContextView,
    from: Identity,
    spender: Identity,
    amount: i128,
    expiration: u32,
) -> Step<Event> {
    if !ctx.authorized.contains(from@) {
        rejected(s, Error::Unauthorized)
    } else if amount < 0 {
        rejected(s, Error::NegativeAmount)
    } else {
        Step {
            state: s.touched(ctx.now).with_allowance(from@, spender@, amount, expiration, ctx.now),
            result: Ok(Event::Approve { from, spender, amount, expiration }),
        }
    }
}

/// `transfer(from, to, amount)`.
pub open spec fn transfer_step(
    s: TokenView,
    ctx: ContextView,
    from: Identity,
    to: Identity,
    amount: i128,
) -> Step<Event> {
    if !ctx.authorized.contains(from@) {
        rejected(s, Error::Unauthorized)
    } else if amount < 0 {
        rejected(s, Error::NegativeAmount)
    } else if s.balance_of(from@) < amount {
        rejected(s, Error::InsufficientBalance)
    } else if !s.debited(from@, amount, ctx.now).can_credit(to@, amount) {
        rejected(s, Error::BalanceOverflow)
    } else {
        Step {
            state: s.touched(ctx.now).debited(from@, amount, ctx.now).credited(
                to@,
                amount,
                ctx.now,
            ),
            result: Ok(Event::Transfer { from, to, amount }),
        }
    }
}

/// `transfer_from(spender, from, to, amount)`.
pub open spec fn transfer_from_step(
    s: TokenView,
    ctx: ContextView,
    spender: Identity,
    from: Identity,
    to: Identity,
    amount: i128,
) -> Step<Event> {
    if !ctx.authorized.contains(spender@) {
        rejected(s, Error::Unauthorized)
    } else if amount < 0 {
        rejected(s, Error::NegativeAmount)
    } else if s.allowance_of(from@, spender@, ctx.now) < amount {
        rejected(s, Error::InsufficientAllowance)
    } else if s.balance_of(from@) < amount {
        rejected(s, Error::InsufficientBalance)
    } else if !s.debited(from@, amount, ctx.now).can_credit(to@, amount) {
        rejected(s, Error::BalanceOverflow)
    } else {
        Step {
            state: s.touched(ctx.now).spent(from@, spender@, amount, ctx.now).debited(
                from@,
                amount,
                ctx.now,
            ).credited(to@, amount, ctx.now),
            result: Ok(Event::Transfer { from, to, amount }),
        }
    }
}

/// `burn(from, amount)`.
pub open spec fn burn_step(s: TokenView, ctx: ContextView, from: Identity, amount: i128) -> Step<
    Event,
> {
    if !ctx.authorized.contains(from@) {
        rejected(s, Error::Unauthorized)
    } else if amount < 0 {
        rejected(s, Error::NegativeAmount)
    } else if s.balance_of(from@) < amount {
        rejected(s, Error::InsufficientBalance)
    } else {
        Step {
            state: s.touched(ctx.now).debited(from@, amount, ctx.now),
            result: Ok(Event::Burn { from, amount }),
        }
    }
}

/// `burn_from(spender, from, amount)`.
pub open spec fn burn_from_step(
    s: TokenView,
    ctx: ContextView,
    spender: Identity,
    from: Identity,
    amount: i128,
) -> Step<Event> {
    if !ctx.authorized.contains(spender@) {
        rejected(s, Error::Unauthorized)
    } else if amount < 0 {
        rejected(s, Error::NegativeAmount)
    } else if s.allowance_of(from@, spender@, ctx.now) < amount {
        rejected(s, Error::InsufficientAllowance)
    } else if s.balance_of(from@) < amount {
        rejected(s, Error::InsufficientBalance)
    } else {
        Step {
            state: s.touched(ctx.now).spent(from@, spender@, amount, ctx.now).debited(
                from@,
                amount,
                ctx.now,
            ),
            result: Ok(Event::Burn { from, amount }),
        }
    }
}

} // verus!
