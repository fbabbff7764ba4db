use vstd::prelude::*;
use crate::identity::{Identity, Key};
use crate::table::Entry;

verus! {

/// How long a record is retained by the store that persists it: whenever
/// fewer than `low_water` units of lifetime remain at an access, the record
/// is retained until `maximum` units past the moment of the access. The
/// ledger keeps one marker for its own record, which holds the
/// administrator, the metadata and the companies, and one for each balance
/// and each allowance record.
#[derive(Clone, Copy, Debug, PartialEq, Eq, Structural)]
pub struct RetentionPolicy {
    pub low_water: u32,
    pub maximum: u32,
}

/// The record of what an owner holds, and the marker until which the record
/// is retained.
#[derive(Clone, Copy, Debug, PartialEq, Eq, Structural)]
pub struct Holding {
    pub amount: i128,
    pub live_until: u32,
}

/// The record of what a delegate may still spend on an owner's behalf: the
/// amount, the lifetime marker from which on the permission counts as
/// nothing, and the marker until which the record is retained. The last is
/// the store's business; whether the permission is live goes by `expiration`
/// alone.
#[derive(Clone, Copy, Debug, PartialEq, Eq, Structural)]
pub struct Allowance {
    pub amount: i128,
    pub expiration: u32,
    pub live_until: u32,
}

/// The pair that an allowance is recorded for.
#[derive(Debug, PartialEq, Eq)]
pub struct Grant {
    pub owner: Identity,
    pub delegate: Identity,
}

impl View for Grant {
    type V = (Seq<char>, Seq<char>);

    open spec fn view(&self) -> (Seq<char>, Seq<char>) {
        (self.owner@, self.delegate@)
    }
}

impl Key for Grant {
    fn same(&self, other: &Self) -> (r: bool) {
        self.owner.same(&other.owner) && self.delegate.same(&other.delegate)
    }
}

/// The decimals, display name and symbol of the ledger's unit.
#[derive(Debug, PartialEq, Eq)]
pub struct TokenMetadata {
    pub decimal: u32,
    pub name: String,
    pub symbol: String,
}

impl Clone for TokenMetadata {
    fn clone(&self) -> (r: Self)
        ensures
            r == *self,
    {
        TokenMetadata { decimal: self.decimal, name: self.name.clone(), symbol: self.symbol.clone() }
    }
}

/// The descriptive record of a company: the share of equity that was diluted
/// to create the units, their advisory total, the owning address, and three
/// descriptive texts. The total is not reconciled with the balances.
#[derive(Debug, PartialEq, Eq)]
pub struct State {
    pub equity_diluted: u32,
    pub total_tokens: i128,
    pub address: Identity,
    pub company_url: String,
    pub ipfshash: String,
    pub company_description: String,
}

impl Clone for State {
    fn clone(&self) -> (r: Self)
        ensures
            r == *self,
    {
        State {
            equity_diluted: self.equity_diluted,
            total_tokens: self.total_tokens,
            address: self.address.clone(),
            company_url: self.company_url.clone(),
            ipfshash: self.ipfshash.clone(),
            company_description: self.company_description.clone(),
        }
    }
}

/// A ledger as it is stored away: its parts, with the records as lists.
/// Where a list names a key more than once, the first record counts.
pub struct Snapshot {
    pub administrator: Option<Identity>,
    pub metadata: Option<TokenMetadata>,
    pub companies: Vec<Entry<String, State>>,
    pub balances: Vec<Entry<Identity, Holding>>,
    pub allowances: Vec<Entry<Grant, Allowance>>,
    pub policy: RetentionPolicy,
    pub live_until: u32,
}

/// What a successful operation asks to have announced.
#[derive(Debug, PartialEq, Eq)]
pub enum Event {
    Mint { to: Identity, amount: i128 },
    Transfer { from: Identity, to: Identity, amount: i128 },
    Approve { from: Identity, spender: Identity, amount: i128, expiration: u32 },
    Burn { from: Identity, amount: i128 },
}

/// What is known of the call that an operation serves: the current lifetime
/// marker, and the identities that consented to the operation.
pub struct CallContext {
    now: u32,
    authorized: Vec<Identity>,
}

/// The view of a [`CallContext`].
pub struct ContextView {
    pub now: u32,
    pub authorized: Set<Seq<char>>,
}

impl View for CallContext {
    type V = ContextView;

    closed spec fn view(&self) -> ContextView {
        ContextView {
            now: self.now,
            authorized: Set::new(
                |id: Seq<char>|
                    exists|i: int| 0 <= i < self.authorized@.len() && self.authorized@[i]@ == id,
            ),
        }
    }
}

impl CallContext {
    /// The context of a call at lifetime marker `now` to which nobody has
    /// consented yet.
    pub fn new(now: u32) -> (c: CallContext)
        ensures
            c@.now == now,
            c@.authorized == Set::<Seq<char>>::empty(),
    {
        let c = CallContext { now, authorized: Vec::new() };
        assert(c@.authorized =~= Set::<Seq<char>>::empty());
        c
    }

    /// Notes that `who` consented to the operation.
    pub fn authorize(&mut self, who: Identity)
        ensures
            final(self)@.now == old(self)@.now,
            final(self)@.authorized == old(self)@.authorized.insert(who@),
    {
        let ghost before = *self;
        let ghost id = who@;
        self.authorized.push(who);
        proof {
            let n = before.authorized@.len() as int;
            assert forall|q: Seq<char>| #[trigger]
                self@.authorized.contains(q) == before@.authorized.insert(id).contains(q) by {
                if before@.authorized.insert(id).contains(q) {
                    if q == id {
                        assert(self.authorized@[n]@ == q);
                    } else {
                        let i = choose|i: int|
                            0 <= i < before.authorized@.len() && before.authorized@[i]@ == q;
                        assert(self.authorized@[i]@ == q);
                    }
                }
                if self@.authorized.contains(q) {
                    let i = choose|i: int|
                        0 <= i < self.authorized@.len() && self.authorized@[i]@ == q;
                    if i != n {
                        assert(before.authorized@[i]@ == q);
                    }
                }
            }
            assert(self@.authorized =~= before@.authorized.insert(id));
        }
    }

    /// The current lifetime marker.
    pub fn now(&self) -> (r: u32)
        ensures
            r == self@.now,
    {
        self.now
    }

    /// Whether `who` consented to the operation.
    pub fn has_authorized(&self, who: &Identity) -> (r: bool)
        ensures
            r == self@.authorized.contains(who@),
    {
        let mut i: usize = 0;
        while i < self.authorized.len()
            invariant
                i <= self.authorized@.len(),
                forall|j: int| 0 <= j < i ==> self.authorized@[j]@ != who@,
            decreases self.authorized@.len() - i,
        {
            if self.authorized[i].same(who) {
                return true;
            }
            i += 1;
        }
        false
    }
}

} // verus!
