//! The ledger: balances, allowances with expiration, metadata and the
//! company records, held in one state object.

use vstd::prelude::*;
use crate::error::Error;
use crate::identity::{Identity, Key};
use crate::model::{
    allowance_step, approve_step, balance_step, blank_state, burn_from_step, burn_step,
    information, initialize_step, metadata, mint_step, refreshed, restored, snapshot_is_sound,
    transfer_from_step, transfer_step, TokenView,
};
use crate::table::{Entry, Table};
use crate::types::{
    Allowance, CallContext, Event, Grant, Holding, RetentionPolicy, Snapshot, State, TokenMetadata,
};

verus! {

/// Accepts the amounts that are not negative.
pub fn check_nonnegative_amount(amount: i128) -> (r: Result<(), Error>)
    ensures
        r == if amount < 0 {
            Err::<(), Error>(Error::NegativeAmount)
        } else {
            Ok::<(), Error>(())
        },
{
    if amount < 0 {
        Err(Error::NegativeAmount)
    } else {
        Ok(())
    }
}

/// The marker until which a record is retained after an access at `now`.
pub fn refresh(policy: RetentionPolicy, live_until: u32, now: u32) -> (r: u32)
    ensures
        r == refreshed(policy, live_until, now),
{
    let remaining: u32 = if live_until > now {
        live_until - now
    } else {
        0
    };
    if remaining < policy.low_water {
        now.saturating_add(policy.maximum)
    } else {
        live_until
    }
}

/// Whether none of the balances is negative.
fn balances_nonnegative(balances: &Vec<Entry<Identity, Holding>>) -> (r: bool)
    ensures
        r == forall|i: int|
            0 <= i < balances@.len() ==> (#[trigger] balances@[i]).value.amount >= 0,
{
    let mut i: usize = 0;
    while i < balances.len()
        invariant
            i <= balances@.len(),
            forall|j: int| 0 <= j < i ==> (#[trigger] balances@[j]).value.amount >= 0,
        decreases balances@.len() - i,
    {
        if balances[i].value.amount < 0 {
            return false;
        }
        i += 1;
    }
    true
}

/// Whether none of the allowances is negative.
fn allowances_nonnegative(allowances: &Vec<Entry<Grant, Allowance>>) -> (r: bool)
    ensures
        r == forall|i: int|
            0 <= i < allowances@.len() ==> (#[trigger] allowances@[i]).value.amount >= 0,
{
    let mut i: usize = 0;
    while i < allowances.len()
        invariant
            i <= allowances@.len(),
            forall|j: int| 0 <= j < i ==> (#[trigger] allowances@[j]).value.amount >= 0,
        decreases allowances@.len() - i,
    {
        if allowances[i].value.amount < 0 {
            return false;
        }
        i += 1;
    }
    true
}

/// A ledger.
pub struct Token {
    administrator: Option<Identity>,
    metadata: Option<TokenMetadata>,
    companies: Table<String, State>,
    balances: Table<Identity, Holding>,
    allowances: Table<Grant, Allowance>,
    policy: RetentionPolicy,
    live_until: u32,
}

impl View for Token {
    type V = TokenView;

    closed spec fn view(&self) -> TokenView {
        TokenView {
            administrator: self.administrator,
            metadata: self.metadata,
            companies: self.companies@,
            balances: self.balances@,
            allowances: self.allowances@,
            policy: self.policy,
            live_until: self.live_until,
        }
    }
}

impl Token {
    /// The records are kept as the tables require.
    pub closed spec fn tables_wf(&self) -> bool {
        &&& self.companies.wf()
        &&& self.balances.wf()
        &&& self.allowances.wf()
    }

    /// The ledger's invariant: its tables are in order, and no balance and no
    /// allowance is negative.
    pub open spec fn wf(&self) -> bool {
        &&& self.tables_wf()
        &&& self@.consistent()
    }

    /// A ledger without administrator, metadata or records, whose record was
    /// never retained, under the given retention policy.
    pub fn new(policy: RetentionPolicy) -> (t: Token)
        ensures
            t.wf(),
            t@ == (TokenView {
                administrator: None,
                metadata: None,
                companies: Map::empty(),
                balances: Map::empty(),
                allowances: Map::empty(),
                policy,
                live_until: 0,
            }),
    {
        Token {
            administrator: None,
            metadata: None,
            companies: Table::new(),
            balances: Table::new(),
            allowances: Table::new(),
            policy,
            live_until: 0,
        }
    }

    /// The ledger that a snapshot stands for. A snapshot with a negative
    /// balance or allowance is refused.
    pub fn restore(snapshot: Snapshot) -> (r: Result<Token, Error>)
        ensures
            match r {
                Ok(t) => snapshot_is_sound(snapshot) && t.wf() && t@ == restored(snapshot),
                Err(e) => !snapshot_is_sound(snapshot) && e == Error::NegativeAmount,
            },
    {
        if !balances_nonnegative(&snapshot.balances) {
            return Err(Error::NegativeAmount);
        }
        if !allowances_nonnegative(&snapshot.allowances) {
            return Err(Error::NegativeAmount);
        }
        let ghost balances = snapshot.balances@;
        let ghost allowances = snapshot.allowances@;
        let t = Token {
            administrator: snapshot.administrator,
            metadata: snapshot.metadata,
            companies: Table::from_records(snapshot.companies),
            balances: Table::from_records(snapshot.balances),
            allowances: Table::from_records(snapshot.allowances),
            policy: snapshot.policy,
            live_until: snapshot.live_until,
        };
        proof {
            assert forall|id: Seq<char>| #[trigger]
                t@.balances.contains_key(id) implies t@.balances[id].amount >= 0 by {
                Table::<Identity, Holding>::lemma_collected_values(balances, id);
            }
            assert forall|pair: (Seq<char>, Seq<char>)| #[trigger]
                t@.allowances.contains_key(pair) implies t@.allowances[pair].amount >= 0 by {
                Table::<Grant, Allowance>::lemma_collected_values(allowances, pair);
            }
        }
        Ok(t)
    }

    /// The retention policy of the ledger.
    pub fn policy(&self) -> (r: RetentionPolicy)
        ensures
            r == self@.policy,
    {
        self.policy
    }

    /// The metadata, once the ledger is initialized.
    pub fn metadata(&self) -> (r: Option<TokenMetadata>)
        ensures
            r == self@.metadata,
    {
        match &self.metadata {
            Some(m) => Some(m.clone()),
            None => None,
        }
    }

    /// What is recorded for `id`, if anything is. Nothing is renewed.
    pub fn recorded_balance(&self, id: &Identity) -> (r: Option<Holding>)
        requires
            self.wf(),
        ensures
            r == if self@.balances.contains_key(id@) {
                Some(self@.balances[id@])
            } else {
                None
            },
    {
        match self.balances.get(id) {
            Some(v) => Some(*v),
            None => None,
        }
    }

    /// What is recorded for the pair, expired or not, if anything is. Nothing
    /// is renewed.
    pub fn recorded_allowance(&self, owner: &Identity, delegate: &Identity) -> (r: Option<Allowance>)
        requires
            self.wf(),
        ensures
            r == if self@.allowances.contains_key((owner@, delegate@)) {
                Some(self@.allowances[(owner@, delegate@)])
            } else {
                None
            },
    {
        let grant = Grant { owner: owner.clone(), delegate: delegate.clone() };
        match self.allowances.get(&grant) {
            Some(a) => Some(*a),
            None => None,
        }
    }

    /// The record of the company `name`, if there is one.
    pub fn company(&self, name: &String) -> (r: Option<State>)
        requires
            self.wf(),
        ensures
            r == if self@.companies.contains_key(name@) {
                Some(self@.companies[name@])
            } else {
                None
            },
    {
        match self.companies.get(name) {
            Some(found) => Some(found.clone()),
            None => None,
        }
    }

    /// The marker until which the ledger's record is retained.
    pub fn live_until(&self) -> (r: u32)
        ensures
            r == self@.live_until,
    {
        self.live_until
    }

    /// The administrator, once the ledger is initialized.
    pub fn administrator(&self) -> (r: Option<Identity>)
        ensures
            r == self@.administrator,
    {
        match &self.administrator {
            Some(a) => Some(a.clone()),
            None => None,
        }
    }

    fn touch(&mut self, now: u32)
        requires
            old(self).wf(),
        ensures
            final(self).wf(),
            final(self)@ == old(self)@.touched(now),
    {
        self.live_until = refresh(self.policy, self.live_until, now);
    }

    fn read_balance(&self, id: &Identity) -> (r: i128)
        requires
            self.wf(),
        ensures
            r == self@.balance_of(id@),
            r >= 0,
    {
        match self.balances.get(id) {
            Some(v) => {
                assert(self@.balances.contains_key(id@));
                v.amount
            },
            None => 0,
        }
    }

    fn write_balance(&mut self, id: Identity, amount: i128, now: u32)
        requires
            old(self).wf(),
            amount >= 0,
        ensures
            final(self).wf(),
            final(self)@ == old(self)@.with_balance(id@, amount, now),
    {
        let before: u32 = match self.balances.get(&id) {
            Some(v) => v.live_until,
            None => 0,
        };
        let live_until: u32 = refresh(self.policy, before, now);
        self.balances.set(id, Holding { amount, live_until });
    }

    fn touch_balance(&mut self, id: Identity, now: u32)
        requires
            old(self).wf(),
        ensures
            final(self).wf(),
            final(self)@ == old(self)@.balance_read(id@, now),
    {
        let found: Option<i128> = match self.balances.get(&id) {
            Some(v) => {
                assert(self@.balances.contains_key(id@));
                Some(v.amount)
            },
            None => None,
        };
        match found {
            Some(amount) => {
                self.write_balance(id, amount, now);
            },
            None => {},
        }
    }

    fn read_allowance(&self, grant: &Grant, now: u32) -> (r: i128)
        requires
            self.wf(),
        ensures
            r == self@.allowance_of(grant.owner@, grant.delegate@, now),
            r >= 0,
            r > 0 ==> self@.allowances.contains_key(grant@) && self@.allowances[grant@].amount == r,
    {
        match self.allowances.get(grant) {
            Some(a) => {
                assert(self@.allowances.contains_key(grant@));
                if now < a.expiration {
                    a.amount
                } else {
                    0
                }
            },
            None => 0,
        }
    }

    fn write_allowance(&mut self, grant: Grant, amount: i128, expiration: u32, now: u32)
        requires
            old(self).wf(),
            amount >= 0,
        ensures
            final(self).wf(),
            final(self)@ == old(self)@.with_allowance(
                grant.owner@,
                grant.delegate@,
                amount,
                expiration,
                now,
            ),
    {
        let before: u32 = match self.allowances.get(&grant) {
            Some(a) => a.live_until,
            None => 0,
        };
        let live_until: u32 = refresh(self.policy, before, now);
        self.allowances.set(grant, Allowance { amount, expiration, live_until });
    }

    fn spend_allowance(&mut self, grant: Grant, now: u32, amount: i128)
        requires
            old(self).wf(),
            0 <= amount <= old(self)@.allowance_of(grant.owner@, grant.delegate@, now),
        ensures
            final(self).wf(),
            final(self)@ == old(self)@.spent(grant.owner@, grant.delegate@, amount, now),
    {
        let found: Option<Allowance> = match self.allowances.get(&grant) {
            Some(a) => {
                assert(self@.allowances.contains_key(grant@));
                Some(*a)
            },
            None => None,
        };
        match found {
            Some(a) => {
                self.write_allowance(grant, a.amount - amount, a.expiration, now);
            },
            None => {},
        }
    }

    /// Sets the administrator, the metadata and the company's record, and
    /// mints the initial supply to the owner. Fails on a ledger that has an
    /// administrator, on more decimals than fit in eight bits, and where the
    /// minting fails; a failure leaves the ledger as it was.
    pub fn initialize(
        &mut self,
        ctx: &CallContext,
        admin: Identity,
        decimal: u32,
        name: String,
        symbol: String,
        initial_supply: i128,
        owner: Identity,
        equity_diluted: u32,
        url: String,
        ipfs: String,
        desc: String,
    ) -> (r: Result<Event, Error>)
        requires
            old(self).wf(),
        ensures
            final(self).wf(),
            final(self)@ == initialize_step(
                old(self)@,
                ctx@,
                admin,
                decimal,
                name,
                symbol,
                initial_supply,
                owner,
                equity_diluted,
                url,
                ipfs,
                desc,
            ).state,
            r == initialize_step(
                old(self)@,
                ctx@,
                admin,
                decimal,
                name,
                symbol,
                initial_supply,
                owner,
                equity_diluted,
                url,
                ipfs,
                desc,
            ).result,
            r is Err ==> *final(self) == *old(self),
    {
        if self.administrator.is_some() {
            return Err(Error::AlreadyInitialized);
        }
        if decimal > 255 {
            return Err(Error::InvalidDecimals);
        }
        if initial_supply < 0 {
            return Err(Error::NegativeAmount);
        }
        if !ctx.has_authorized(&owner) {
            return Err(Error::Unauthorized);
        }
        let held: i128 = self.read_balance(&owner);
        let sum: i128 = match held.checked_add(initial_supply) {
            Some(sum) => sum,
            None => {
                return Err(Error::BalanceOverflow);
            },
        };
        let company = State {
            equity_diluted,
            total_tokens: initial_supply,
            address: owner.clone(),
            company_url: url,
            ipfshash: ipfs,
            company_description: desc,
        };
        self.administrator = Some(admin);
        self.companies.set(name.clone(), company);
        self.metadata = Some(TokenMetadata { decimal, name, symbol });
        self.touch(ctx.now());
        self.write_balance(owner.clone(), sum, ctx.now());
        Ok(Event::Mint { to: owner, amount: initial_supply })
    }

    /// The record with no equity and no units, for the given address and texts.
    pub fn get_state(&self, add: Identity, url: String, desc: String, ipfs: String) -> (r: State)
        ensures
            r == blank_state(add, url, desc, ipfs),
    {
        State {
            equity_diluted: 0,
            total_tokens: 0,
            address: add,
            company_url: url,
            ipfshash: ipfs,
            company_description: desc,
        }
    }

    /// The record of the company `name`. Where nothing is recorded under that
    /// name, the result is the record with no equity and no units, with the
    /// administrator as its address and `name` as each of its texts: it means
    /// that the company was not found. Fails on a ledger without administrator.
    pub fn get_information(&self, name: String) -> (r: Result<State, Error>)
        requires
            self.wf(),
        ensures
            r == information(self@, name),
    {
        match &self.administrator {
            None => Err(Error::NotInitialized),
            Some(admin) => {
                match self.companies.get(&name) {
                    Some(found) => Ok(found.clone()),
                    None => Ok(self.get_state(admin.clone(), name.clone(), name.clone(), name)),
                }
            },
        }
    }

    /// Credits `amount` to `to`, who has to consent.
    pub fn mint(&mut self, ctx: &CallContext, to: Identity, amount: i128) -> (r: Result<Event, Error>)
        requires
            old(self).wf(),
        ensures
            final(self).wf(),
            final(self)@ == mint_step(old(self)@, ctx@, to, amount).state,
            r == mint_step(old(self)@, ctx@, to, amount).result,
            r is Err ==> *final(self) == *old(self),
    {
        match check_nonnegative_amount(amount) {
            Err(e) => {
                return Err(e);
            },
            Ok(_) => {},
        }
        if !ctx.has_authorized(&to) {
            return Err(Error::Unauthorized);
        }
        let held: i128 = self.read_balance(&to);
        let sum: i128 = match held.checked_add(amount) {
            Some(sum) => sum,
            None => {
                return Err(Error::BalanceOverflow);
            },
        };
        self.touch(ctx.now());
        self.write_balance(to.clone(), sum, ctx.now());
        Ok(Event::Mint { to, amount })
    }

    /// What `spender` may spend of `from`'s now: nothing once the allowance
    /// has expired. The access renews the retention of the ledger's record
    /// and of the allowance record, if there is one.
    pub fn allowance(&mut self, ctx: &CallContext, from: Identity, spender: Identity) -> (r: i128)
        requires
            old(self).wf(),
        ensures
            final(self).wf(),
            final(self)@ == allowance_step(old(self)@, ctx@, from, spender),
            r == old(self)@.allowance_of(from@, spender@, ctx@.now),
            r >= 0,
    {
        let grant = Grant { owner: from, delegate: spender };
        let allowed: i128 = self.read_allowance(&grant, ctx.now());
        self.touch(ctx.now());
        self.spend_allowance(grant, ctx.now(), 0);
        allowed
    }

    /// Records that `spender` may spend `amount` of `from`'s until
    /// `expiration`, in place of what was recorded for the pair. `from` has to
    /// consent.
    pub fn approve(
        &mut self,
        ctx: &CallContext,
        from: Identity,
        spender: Identity,
        amount: i128,
        expiration: u32,
    ) -> (r: Result<Event, Error>)
        requires
            old(self).wf(),
        ensures
            final(self).wf(),
            final(self)@ == approve_step(old(self)@, ctx@, from, spender, amount, expiration).state,
            r == approve_step(old(self)@, ctx@, from, spender, amount, expiration).result,
            r is Err ==> *final(self) == *old(self),
    {
        if !ctx.has_authorized(&from) {
            return Err(Error::Unauthorized);
        }
        match check_nonnegative_amount(amount) {
            Err(e) => {
                return Err(e);
            },
            Ok(_) => {},
        }
        self.touch(ctx.now());
        let grant = Grant { owner: from.clone(), delegate: spender.clone() };
        self.write_allowance(grant, amount, expiration, ctx.now());
        Ok(Event::Approve { from, spender, amount, expiration })
    }

    /// What `id` holds. The access renews the retention of the ledger's
    /// record and of the balance record, if there is one.
    pub fn balance(&mut self, ctx: &CallContext, id: Identity) -> (r: i128)
        requires
            old(self).wf(),
        ensures
            final(self).wf(),
            final(self)@ == balance_step(old(self)@, ctx@, id),
            r == old(self)@.balance_of(id@),
            r >= 0,
    {
        let held: i128 = self.read_balance(&id);
        self.touch(ctx.now());
        self.touch_balance(id, ctx.now());
        held
    }

    /// What `id` can spend, which is all that it holds. The access renews the
    /// retention of the ledger's record and of the balance record, if there
    /// is one.
    pub fn spendable_balance(&mut self, ctx: &CallContext, id: Identity) -> (r: i128)
        requires
            old(self).wf(),
        ensures
            final(self).wf(),
            final(self)@ == balance_step(old(self)@, ctx@, id),
            r == old(self)@.balance_of(id@),
            r >= 0,
    {
        self.balance(ctx, id)
    }

    /// Moves `amount` from `from`, who has to consent, to `to`.
    pub fn transfer(&mut self, ctx: &CallContext, from: Identity, to: Identity, amount: i128) -> (r:
        Result<Event, Error>)
        requires
            old(self).wf(),
        ensures
            final(self).wf(),
            final(self)@ == transfer_step(old(self)@, ctx@, from, to, amount).state,
            r == transfer_step(old(self)@, ctx@, from, to, amount).result,
            r is Err ==> *final(self) == *old(self),
    {
        if !ctx.has_authorized(&from) {
            return Err(Error::Unauthorized);
        }
        match check_nonnegative_amount(amount) {
            Err(e) => {
                return Err(e);
            },
            Ok(_) => {},
        }
        let held: i128 = self.read_balance(&from);
        if held < amount {
            return Err(Error::InsufficientBalance);
        }
        let rest: i128 = held - amount;
        let target: i128 = if from.same(&to) {
            rest
        } else {
            self.read_balance(&to)
        };
        let sum: i128 = match target.checked_add(amount) {
            Some(sum) => sum,
            None => {
                return Err(Error::BalanceOverflow);
            },
        };
        self.touch(ctx.now());
        self.write_balance(from.clone(), rest, ctx.now());
        self.write_balance(to.clone(), sum, ctx.now());
        Ok(Event::Transfer { from, to, amount })
    }

    /// Moves `amount` from `from` to `to` on the word of `spender`, who has to
    /// consent and whose live allowance is reduced by `amount`.
    pub fn transfer_from(
        &mut self,
        ctx: &CallContext,
        spender: Identity,
        from: Identity,
        to: Identity,
        amount: i128,
    ) -> (r: Result<Event, Error>)
        requires
            old(self).wf(),
        ensures
            final(self).wf(),
            final(self)@ == transfer_from_step(old(self)@, ctx@, spender, from, to, amount).state,
            r == transfer_from_step(old(self)@, ctx@, spender, from, to, amount).result,
            r is Err ==> *final(self) == *old(self),
    {
        if !ctx.has_authorized(&spender) {
            return Err(Error::Unauthorized);
        }
        match check_nonnegative_amount(amount) {
            Err(e) => {
                return Err(e);
            },
            Ok(_) => {},
        }
        let grant = Grant { owner: from.clone(), delegate: spender };
        let allowed: i128 = self.read_allowance(&grant, ctx.now());
        if allowed < amount {
            return Err(Error::InsufficientAllowance);
        }
        let held: i128 = self.read_balance(&from);
        if held < amount {
            return Err(Error::InsufficientBalance);
        }
        let rest: i128 = held - amount;
        let target: i128 = if from.same(&to) {
            rest
        } else {
            self.read_balance(&to)
        };
        let sum: i128 = match target.checked_add(amount) {
            Some(sum) => sum,
            None => {
                return Err(Error::BalanceOverflow);
            },
        };
        self.touch(ctx.now());
        self.spend_allowance(grant, ctx.now(), amount);
        self.write_balance(from.clone(), rest, ctx.now());
        self.write_balance(to.clone(), sum, ctx.now());
        Ok(Event::Transfer { from, to, amount })
    }

    /// Takes `amount` from `from`, who has to consent.
    pub fn burn(&mut self, ctx: &CallContext, from: Identity, amount: i128) -> (r: Result<Event, Error>)
        requires
            old(self).wf(),
        ensures
            final(self).wf(),
            final(self)@ == burn_step(old(self)@, ctx@, from, amount).state,
            r == burn_step(old(self)@, ctx@, from, amount).result,
            r is Err ==> *final(self) == *old(self),
    {
        if !ctx.has_authorized(&from) {
            return Err(Error::Unauthorized);
        }
        match check_nonnegative_amount(amount) {
            Err(e) => {
                return Err(e);
            },
            Ok(_) => {},
        }
        let held: i128 = self.read_balance(&from);
        if held < amount {
            return Err(Error::InsufficientBalance);
        }
        self.touch(ctx.now());
        self.write_balance(from.clone(), held - amount, ctx.now());
        Ok(Event::Burn { from, amount })
    }

    /// Takes `amount` from `from` on the word of `spender`, who has to consent
    /// and whose live allowance is reduced by `amount`.
    pub fn burn_from(&mut self, ctx: &CallContext, spender: Identity, from: Identity, amount: i128) -> (r:
        Result<Event, Error>)
        requires
            old(self).wf(),
        ensures
            final(self).wf(),
            final(self)@ == burn_from_step(old(self)@, ctx@, spender, from, amount).state,
            r == burn_from_step(old(self)@, ctx@, spender, from, amount).result,
            r is Err ==> *final(self) == *old(self),
    {
        if !ctx.has_authorized(&spender) {
            return Err(Error::Unauthorized);
        }
        match check_nonnegative_amount(amount) {
            Err(e) => {
                return Err(e);
            },
            Ok(_) => {},
        }
        let grant = Grant { owner: from.clone(), delegate: spender };
        let allowed: i128 = self.read_allowance(&grant, ctx.now());
        if allowed < amount {
            return Err(Error::InsufficientAllowance);
        }
        let held: i128 = self.read_balance(&from);
        if held < amount {
            return Err(Error::InsufficientBalance);
        }
        self.touch(ctx.now());
        self.spend_allowance(grant, ctx.now(), amount);
        self.write_balance(from.clone(), held - amount, ctx.now());
        Ok(Event::Burn { from, amount })
    }

    /// The number of decimals of the unit.
    pub fn decimals(&self) -> (r: Result<u32, Error>)
        ensures
            r == match metadata(self@) {
                Ok(m) => Ok::<u32, Error>(m.decimal),
                Err(e) => Err::<u32, Error>(e),
            },
    {
        match &self.metadata {
            Some(m) => Ok(m.decimal),
            None => Err(Error::NotInitialized),
        }
    }

    /// The display name of the unit.
    pub fn name(&self) -> (r: Result<String, Error>)
        ensures
            r == match metadata(self@) {
                Ok(m) => Ok::<String, Error>(m.name),
                Err(e) => Err::<String, Error>(e),
            },
    {
        match &self.metadata {
            Some(m) => Ok(m.name.clone()),
            None => Err(Error::NotInitialized),
        }
    }

    /// The symbol of the unit.
    pub fn symbol(&self) -> (r: Result<String, Error>)
        ensures
            r == match metadata(self@) {
                Ok(m) => Ok::<String, Error>(m.symbol),
                Err(e) => Err::<String, Error>(e),
            },
    {
        match &self.metadata {
            Some(m) => Ok(m.symbol.clone()),
            None => Err(Error::NotInitialized),
        }
    }
}

} // verus!
