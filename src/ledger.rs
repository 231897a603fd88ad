//! The ledger of open vaults, keyed by the owner's address.

use vstd::prelude::*;

use crate::host::{default_rent_minimum, program_address_of, same_address};
use crate::state::{state_tag, vault_tag, VaultState};

verus! {

/// One open vault: its state record and the balances of its two accounts.
#[derive(Clone, Copy, Debug, PartialEq, Eq)]
pub struct VaultRecord {
    pub owner: [u8; 32],
    pub state: VaultState,
    pub state_address: [u8; 32],
    pub vault_address: [u8; 32],
    /// Lamports held by the state record (its own rent-exempt floor).
    pub state_lamports: u64,
    /// Lamports held by the fund account.
    pub vault_lamports: u64,
}

impl VaultRecord {
    /// The same record with the fund account holding `n` lamports.
    pub open spec fn with_balance(self, n: int) -> VaultRecord {
        VaultRecord { vault_lamports: n as u64, ..self }
    }
}

/// Whether the record at index `i` of `s` belongs to `u`.
pub open spec fn owner_at(s: Seq<VaultRecord>, i: int, u: Seq<u8>) -> bool {
    0 <= i < s.len() && s[i].owner@ == u
}

/// The records of `s` as a map from owner to record.
pub open spec fn records_view(s: Seq<VaultRecord>) -> Map<Seq<u8>, VaultRecord> {
    Map::new(
        |u: Seq<u8>| exists|i: int| owner_at(s, i, u),
        |u: Seq<u8>| s[choose|i: int| owner_at(s, i, u)],
    )
}

/// No owner has two records.
pub open spec fn owners_distinct(s: Seq<VaultRecord>) -> bool {
    forall|i: int, j: int|
        0 <= i < s.len() && 0 <= j < s.len() && i != j ==> #[trigger] s[i].owner@ != #[trigger] s[j].owner@
}

proof fn lemma_view_at(s: Seq<VaultRecord>, i: int)
    requires
        owners_distinct(s),
        0 <= i < s.len(),
    ensures
        records_view(s).contains_key(s[i].owner@),
        records_view(s)[s[i].owner@] == s[i],
{
    let u = s[i].owner@;
    assert(owner_at(s, i, u));
    let j = choose|j: int| owner_at(s, j, u);
    assert(j == i);
}

proof fn lemma_view_update(s: Seq<VaultRecord>, i: int, rec: VaultRecord)
    requires
        owners_distinct(s),
        0 <= i < s.len(),
        rec.owner@ == s[i].owner@,
    ensures
        owners_distinct(s.update(i, rec)),
        records_view(s.update(i, rec)) == records_view(s).insert(rec.owner@, rec),
{
    let t = s.update(i, rec);
    assert(owners_distinct(t));
    lemma_view_at(t, i);
    let m = records_view(s).insert(rec.owner@, rec);
    assert forall|u: Seq<u8>|
        #[trigger] records_view(t).contains_key(u) == m.contains_key(u)
            && (m.contains_key(u) ==> records_view(t)[u] == m[u]) by {
        if u != rec.owner@ {
            if records_view(s).contains_key(u) {
                let j = choose|j: int| owner_at(s, j, u);
                lemma_view_at(s, j);
                lemma_view_at(t, j);
            }
            if records_view(t).contains_key(u) {
                let j = choose|j: int| owner_at(t, j, u);
                assert(owner_at(s, j, u));
            }
        }
    }
    assert(records_view(t) =~= m);
}

proof fn lemma_view_push(s: Seq<VaultRecord>, rec: VaultRecord)
    requires
        owners_distinct(s),
        !records_view(s).contains_key(rec.owner@),
    ensures
        owners_distinct(s.push(rec)),
        records_view(s.push(rec)) == records_view(s).insert(rec.owner@, rec),
{
    let t = s.push(rec);
    assert forall|i: int, j: int|
        0 <= i < t.len() && 0 <= j < t.len() && i != j implies #[trigger] t[i].owner@ != #[trigger] t[j].owner@ by {
        if i == s.len() {
            assert(!owner_at(s, j, rec.owner@));
        } else if j == s.len() {
            assert(!owner_at(s, i, rec.owner@));
        }
    }
    lemma_view_at(t, s.len() as int);
    let m = records_view(s).insert(rec.owner@, rec);
    assert forall|u: Seq<u8>|
        #[trigger] records_view(t).contains_key(u) == m.contains_key(u)
            && (m.contains_key(u) ==> records_view(t)[u] == m[u]) by {
        if u != rec.owner@ {
            if records_view(s).contains_key(u) {
                let j = choose|j: int| owner_at(s, j, u);
                lemma_view_at(s, j);
                lemma_view_at(t, j);
            }
            if records_view(t).contains_key(u) {
                let j = choose|j: int| owner_at(t, j, u);
                assert(owner_at(s, j, u));
            }
        }
    }
    assert(records_view(t) =~= m);
}

proof fn lemma_view_remove(s: Seq<VaultRecord>, i: int)
    requires
        owners_distinct(s),
        0 <= i < s.len(),
    ensures
        owners_distinct(s.remove(i)),
        records_view(s.remove(i)) == records_view(s).remove(s[i].owner@),
        forall|j: int| 0 <= j < s.remove(i).len() ==> exists|k: int| 0 <= k < s.len() && #[trigger] s.remove(i)[j] == s[k],
{
    let t = s.remove(i);
    let w = s[i].owner@;
    s.remove_ensures(i);
    assert forall|a: int, b: int|
        0 <= a < t.len() && 0 <= b < t.len() && a != b implies #[trigger] t[a].owner@ != #[trigger] t[b].owner@ by {
        let a2 = if a < i { a } else { a + 1 };
        let b2 = if b < i { b } else { b + 1 };
        assert(t[a] == s[a2]);
        assert(t[b] == s[b2]);
    }
    assert forall|j: int| 0 <= j < t.len() implies exists|k: int| 0 <= k < s.len() && #[trigger] t[j] == s[k] by {
        let k = if j < i { j } else { j + 1 };
        assert(t[j] == s[k]);
    }
    let m = records_view(s).remove(w);
    assert forall|u: Seq<u8>|
        #[trigger] records_view(t).contains_key(u) == m.contains_key(u)
            && (m.contains_key(u) ==> records_view(t)[u] == m[u]) by {
        if u == w {
            if records_view(t).contains_key(w) {
                let j = choose|j: int| owner_at(t, j, w);
                let j2 = if j < i { j } else { j + 1 };
                assert(t[j] == s[j2]);
                assert(false);
            }
        } else {
            if records_view(s).contains_key(u) {
                let j = choose|j: int| owner_at(s, j, u);
                lemma_view_at(s, j);
                assert(j != i);
                let j2 = if j < i { j } else { j - 1 };
                assert(t[j2] == s[j]);
                lemma_view_at(t, j2);
            }
            if records_view(t).contains_key(u) {
                let j = choose|j: int| owner_at(t, j, u);
                let j2 = if j < i { j } else { j + 1 };
                assert(t[j] == s[j2]);
                assert(owner_at(s, j2, u));
            }
        }
    }
    assert(records_view(t) =~= m);
}

/// The open vaults of one program, with the rent-exempt floors of the two
/// accounts a vault is made of.
#[derive(Debug)]
pub struct Ledger {
    pub program_id: [u8; 32],
    /// Floor of a fund account, which carries no payload.
    pub vault_reserve: u64,
    /// Floor of a state record.
    pub state_reserve: u64,
    pub records: Vec<VaultRecord>,
}

impl View for Ledger {
    type V = Map<Seq<u8>, VaultRecord>;

    /// The open vaults, by owner.
    open spec fn view(&self) -> Map<Seq<u8>, VaultRecord> {
        records_view(self.records@)
    }
}

impl Ledger {
    /// A record as the ledger's rules want it: funded at or above the floor,
    /// its state record holding its own floor, and both addresses the ones
    /// derived from the owner with the recorded bumps.
    pub open spec fn record_ok(self, r: VaultRecord) -> bool {
        &&& r.vault_lamports >= self.vault_reserve
        &&& r.state_lamports == self.state_reserve
        &&& program_address_of(state_tag(), r.owner@, self.program_id@) == Some(
            (r.state_address@, r.state.state_bump),
        )
        &&& program_address_of(vault_tag(), r.owner@, self.program_id@) == Some(
            (r.vault_address@, r.state.vault_bump),
        )
    }

    pub open spec fn wf(self) -> bool {
        &&& owners_distinct(self.records@)
        &&& forall|i: int| 0 <= i < self.records@.len() ==> self.record_ok(#[trigger] self.records@[i])
    }

    /// The same program and floors.
    pub open spec fn same_setting(self, other: Ledger) -> bool {
        &&& self.program_id == other.program_id
        &&& self.vault_reserve == other.vault_reserve
        &&& self.state_reserve == other.state_reserve
    }

    /// What the fund account of `u` holds: nothing once no vault is open.
    pub open spec fn fund_balance(self, u: Seq<u8>) -> int {
        if self@.contains_key(u) {
            self@[u].vault_lamports as int
        } else {
            0
        }
    }

    pub proof fn lemma_wf_view(self)
        requires
            self.wf(),
        ensures
            forall|u: Seq<u8>| #[trigger] self@.contains_key(u) ==> self.record_ok(self@[u]) && self@[u].owner@ == u,
    {
        assert forall|u: Seq<u8>| #[trigger] self@.contains_key(u) implies self.record_ok(self@[u]) && self@[u].owner@ == u by {
            let j = choose|j: int| owner_at(self.records@, j, u);
            lemma_view_at(self.records@, j);
        }
    }

    /// An empty ledger with the given floors.
    pub fn with_reserves(program_id: [u8; 32], vault_reserve: u64, state_reserve: u64) -> (r: Ledger)
        ensures
            r.wf(),
            r@ == Map::<Seq<u8>, VaultRecord>::empty(),
            r.program_id == program_id,
            r.vault_reserve == vault_reserve,
            r.state_reserve == state_reserve,
    {
        let r = Ledger { program_id, vault_reserve, state_reserve, records: Vec::new() };
        assert(r@ =~= Map::<Seq<u8>, VaultRecord>::empty());
        r
    }

    /// An empty ledger whose floors are the host's default rent-exempt
    /// minimums: for a fund account with no payload and for a state record.
    pub fn new(program_id: [u8; 32]) -> (r: Ledger)
        ensures
            r.wf(),
            r@ == Map::<Seq<u8>, VaultRecord>::empty(),
            r.program_id == program_id,
            r.vault_reserve == 128 * 6960,
            r.state_reserve == (128 + VaultState::SPACE) * 6960,
    {
        let vault_reserve = default_rent_minimum(0);
        let state_reserve = default_rent_minimum(VaultState::SPACE);
        Ledger::with_reserves(program_id, vault_reserve, state_reserve)
    }

    /// Index of the record of `user`, if a vault is open for it.
    pub fn find(&self, user: &[u8; 32]) -> (r: Option<usize>)
        requires
            self.wf(),
        ensures
            match r {
                Some(i) => {
                    &&& i < self.records@.len()
                    &&& self.records@[i as int].owner@ == user@
                    &&& self@.contains_key(user@)
                    &&& self@[user@] == self.records@[i as int]
                },
                None => !self@.contains_key(user@),
            },
    {
        let mut i: usize = 0;
        while i < self.records.len()
            invariant
                self.wf(),
                0 <= i <= self.records@.len(),
                forall|j: int| 0 <= j < i ==> self.records@[j].owner@ != user@,
            decreases self.records@.len() - i,
        {
            if same_address(&self.records[i].owner, user) {
                proof {
                    lemma_view_at(self.records@, i as int);
                }
                return Some(i);
            }
            i = i + 1;
        }
        assert(!self@.contains_key(user@)) by {
            if self@.contains_key(user@) {
                let j = choose|j: int| owner_at(self.records@, j, user@);
                assert(self.records@[j].owner@ != user@);
            }
        }
        None
    }

    /// Whether a vault is open for `user`.
    pub fn has_vault(&self, user: &[u8; 32]) -> (r: bool)
        requires
            self.wf(),
        ensures
            r == self@.contains_key(user@),
    {
        self.find(user).is_some()
    }

    /// What the fund account of `user` holds, if a vault is open for it.
    pub fn vault_balance(&self, user: &[u8; 32]) -> (r: Option<u64>)
        requires
            self.wf(),
        ensures
            r == (if self@.contains_key(user@) { Some(self@[user@].vault_lamports) } else { None }),
    {
        match self.find(user) {
            Some(i) => Some(self.records[i].vault_lamports),
            None => None,
        }
    }

    /// The state record of `user`, if a vault is open for it.
    pub fn vault_state(&self, user: &[u8; 32]) -> (r: Option<VaultState>)
        requires
            self.wf(),
        ensures
            r == (if self@.contains_key(user@) { Some(self@[user@].state) } else { None }),
    {
        match self.find(user) {
            Some(i) => Some(self.records[i].state),
            None => None,
        }
    }

    /// Sets the fund balance of the record at `i`.
    pub(crate) fn set_vault_lamports(&mut self, i: usize, n: u64)
        requires
            old(self).wf(),
            i < old(self).records@.len(),
            n >= old(self).vault_reserve,
        ensures
            final(self).wf(),
            final(self).same_setting(*old(self)),
            final(self)@ == old(self)@.insert(
                old(self).records@[i as int].owner@,
                old(self).records@[i as int].with_balance(n as int),
            ),
    {
        let mut rec = self.records[i];
        rec.vault_lamports = n;
        proof {
            lemma_view_update(self.records@, i as int, rec);
        }
        self.records.set(i, rec);
    }

    /// Adds a record for an owner that has none.
    pub(crate) fn insert_record(&mut self, rec: VaultRecord)
        requires
            old(self).wf(),
            old(self).record_ok(rec),
            !old(self)@.contains_key(rec.owner@),
        ensures
            final(self).wf(),
            final(self).same_setting(*old(self)),
            final(self)@ == old(self)@.insert(rec.owner@, rec),
    {
        proof {
            lemma_view_push(self.records@, rec);
        }
        self.records.push(rec);
    }

    /// Drops the record at `i`.
    pub(crate) fn remove_record(&mut self, i: usize)
        requires
            old(self).wf(),
            i < old(self).records@.len(),
        ensures
            final(self).wf(),
            final(self).same_setting(*old(self)),
            final(self)@ == old(self)@.remove(old(self).records@[i as int].owner@),
    {
        proof {
            lemma_view_remove(self.records@, i as int);
        }
        self.records.remove(i);
    }
}

} // verus!
