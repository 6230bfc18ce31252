//! A store of versioned ticket records, claimed under optimistic concurrency
//! control: a claim reads a record's version, and its write commits only if
//! that version is still current.
use vstd::prelude::*;
use crate::key::{decimal, decimal_string, ticket_key, ticket_key_string};
use crate::fraud::{gate_outcome, screen};
use crate::email::email_well_formed;

verus! {

/// Why a reservation attempt failed.
#[derive(PartialEq, Eq, Structural, Clone, Copy, Debug)]
pub enum ReserveError {
    NotFound,
    AlreadyTaken,
    InvalidEmail,
    FraudRejected,
    VersionConflict,
}

/// One reservable ticket. The reservation fields are present exactly when the
/// ticket is taken.
pub struct Ticket {
    pub id: u32,
    pub taken: bool,
    pub res_email: Option<String>,
    pub res_name: Option<String>,
    pub res_card: Option<String>,
}

/// The versioned record that holds a ticket under its key.
pub struct Item {
    pub key: String,
    pub id: String,
    pub version: u32,
    pub value: Ticket,
}

/// The record of ticket `i`, as the store's lifecycle leaves it: keyed
/// `"ticket-{i}"`, version 0 while free and 1 once taken, and the
/// reservation present exactly when taken.
pub open spec fn item_wf(it: Item, i: nat) -> bool {
    &&& it.value.id == i
    &&& it.key@ == ticket_key(i)
    &&& it.id@ == decimal(i)
    &&& it.version == (if it.value.taken { 1u32 } else { 0u32 })
    &&& it.value.taken == it.value.res_email is Some
    &&& it.value.taken == it.value.res_name is Some
    &&& it.value.taken == it.value.res_card is Some
}

/// Records indexed by ticket id, each well formed.
pub open spec fn records_wf(s: Seq<Item>) -> bool {
    &&& s.len() <= u32::MAX
    &&& forall|i: int| 0 <= i < s.len() ==> item_wf(#[trigger] s[i], i as nat)
}

/// A fresh record for ticket `i`: free, version 0.
pub open spec fn item_fresh(it: Item, i: nat) -> bool {
    item_wf(it, i) && !it.value.taken
}

/// `new` is `old` reserved for the given identity: same key and id, taken,
/// version one higher, the reservation fields set.
pub open spec fn item_reserved(
    old: Item,
    new: Item,
    email: Seq<char>,
    name: Seq<char>,
    card: Seq<char>,
) -> bool {
    &&& new.key == old.key
    &&& new.id == old.id
    &&& new.value.id == old.value.id
    &&& new.version == old.version + 1
    &&& new.value.taken
    &&& new.value.res_email matches Some(e) && e@ == email
    &&& new.value.res_name matches Some(n) && n@ == name
    &&& new.value.res_card matches Some(c) && c@ == card
}

/// The version-guarded write: ticket `id` takes `item` if its version is
/// `expected`; otherwise nothing changes. The flag says whether it wrote.
pub open spec fn put_if_version_spec(s: Seq<Item>, id: nat, expected: u32, item: Item) -> (Seq<
    Item,
>, bool) {
    if id < s.len() && s[id as int].version == expected {
        (s.update(id as int, item), true)
    } else {
        (s, false)
    }
}

/// A claim that has passed its checks and awaits its conditional write.
pub struct Claim {
    ticket_id: u32,
    expected_version: u32,
    item: Item,
}

impl Claim {
    pub closed spec fn ticket(&self) -> nat {
        self.ticket_id as nat
    }

    pub closed spec fn expected(&self) -> u32 {
        self.expected_version
    }

    pub closed spec fn new_item(&self) -> Item {
        self.item
    }

    /// The claim writes a taken record over a free one.
    pub open spec fn wf(&self) -> bool {
        &&& item_wf(self.new_item(), self.ticket())
        &&& self.new_item().value.taken
        &&& self.expected() == 0
    }
}

/// Commits `claims` one after another on `s`: the final records, and which
/// of the claims wrote.
pub open spec fn commit_all(s: Seq<Item>, claims: Seq<Claim>) -> (Seq<Item>, Seq<bool>)
    decreases claims.len(),
{
    if claims.len() == 0 {
        (s, Seq::empty())
    } else {
        let c = claims[0];
        let (s1, ok) = put_if_version_spec(s, c.ticket(), c.expected(), c.new_item());
        let (fin, rest) = commit_all(s1, claims.drop_first());
        (fin, seq![ok] + rest)
    }
}

/// The store: records for ticket ids `0..count`.
pub struct TicketStore {
    records: Vec<Item>,
}

impl View for TicketStore {
    type V = Seq<Item>;

    closed spec fn view(&self) -> Seq<Item> {
        self.records@
    }
}

fn fresh_item(i: u32) -> (r: Item)
    ensures
        item_fresh(r, i as nat),
{
    Item {
        key: ticket_key_string(i),
        id: decimal_string(i),
        version: 0,
        value: Ticket { id: i, taken: false, res_email: None, res_name: None, res_card: None },
    }
}

impl TicketStore {
    pub open spec fn wf(&self) -> bool {
        records_wf(self@)
    }

    /// An empty store.
    pub fn new() -> (r: TicketStore)
        ensures
            r.wf(),
            r@.len() == 0,
    {
        TicketStore { records: Vec::new() }
    }

    /// The number of records, which is the count kept for bulk clearing.
    pub fn count(&self) -> (r: u32)
        requires
            self.wf(),
        ensures
            r == self@.len(),
    {
        self.records.len() as u32
    }

    /// Replaces the contents with `n` fresh records, ids `0..n`.
    pub fn populate(&mut self, n: u32)
        ensures
            final(self).wf(),
            final(self)@.len() == n,
            forall|i: int| 0 <= i < n ==> item_fresh(#[trigger] final(self)@[i], i as nat),
    {
        let mut records: Vec<Item> = Vec::new();
        let mut i: u32 = 0;
        while i < n
            invariant
                i <= n,
                records@.len() == i,
                forall|k: int| 0 <= k < i ==> item_fresh(#[trigger] records@[k], k as nat),
            decreases n - i,
        {
            records.push(fresh_item(i));
            i = i + 1;
        }
        self.records = records;
    }

    /// Removes every record; the count goes back to 0.
    pub fn clear(&mut self)
        ensures
            final(self).wf(),
            final(self)@.len() == 0,
    {
        self.records = Vec::new();
    }

    /// The record of ticket `id`, if there is one.
    pub fn get(&self, id: u32) -> (r: Option<&Item>)
        ensures
            r == (if id < self@.len() {
                Some(&self@[id as int])
            } else {
                None
            }),
    {
        if (id as usize) < self.records.len() {
            Some(&self.records[id as usize])
        } else {
            None
        }
    }

    /// The ticket `id`, if there is one.
    pub fn fetch(&self, id: u32) -> (r: Option<&Ticket>)
        ensures
            r == (if id < self@.len() {
                Some(&self@[id as int].value)
            } else {
                None
            }),
    {
        if (id as usize) < self.records.len() {
            Some(&self.records[id as usize].value)
        } else {
            None
        }
    }

    /// The version-guarded write of `claim`: `NotFound` when its ticket has no
    /// record, `VersionConflict` when the record's version is no longer the
    /// one the claim read; otherwise the claim's record is written.
    pub fn commit(&mut self, claim: Claim) -> (r: Result<(), ReserveError>)
        requires
            old(self).wf(),
            claim.wf(),
        ensures
            final(self).wf(),
            (final(self)@, r is Ok) == put_if_version_spec(
                old(self)@,
                claim.ticket(),
                claim.expected(),
                claim.new_item(),
            ),
            r == Err::<(), ReserveError>(ReserveError::NotFound) <==> claim.ticket() >= old(
                self,
            )@.len(),
            r == Err::<(), ReserveError>(ReserveError::VersionConflict) <==> (claim.ticket() < old(
                self,
            )@.len() && old(self)@[claim.ticket() as int].version != claim.expected()),
    {
        let id = claim.ticket_id as usize;
        if id >= self.records.len() {
            return Err(ReserveError::NotFound);
        }
        if self.records[id].version != claim.expected_version {
            return Err(ReserveError::VersionConflict);
        }
        self.records.set(id, claim.item);
        proof {
            assert forall|i: int| 0 <= i < self@.len() implies item_wf(
                #[trigger] self@[i],
                i as nat,
            ) by {
                if i != id {
                    assert(self@[i] == old(self)@[i]);
                }
            }
        }
        Ok(())
    }

    /// Reads ticket `id` and screens the claim, without writing: `NotFound`
    /// when there is no record, `AlreadyTaken` when the ticket is taken, then
    /// the fraud check's `InvalidEmail` or `FraudRejected`. On success, the claim
    /// holds the reserved record and the version it was read at.
    pub fn prepare<F: FnOnce(Vec<u8>) -> bool>(
        &self,
        id: u32,
        email: &str,
        name: &str,
        card: &str,
        model: F,
    ) -> (r: Result<Claim, ReserveError>)
        requires
            self.wf(),
            forall|f: Vec<u8>| #[trigger] model.requires((f,)),
        ensures
            r matches Err(e) && e == ReserveError::NotFound <==> id >= self@.len(),
            r matches Err(e) && e == ReserveError::AlreadyTaken <==> (id < self@.len()
                && self@[id as int].value.taken),
            r matches Err(e) && e == ReserveError::InvalidEmail <==> (id < self@.len()
                && !self@[id as int].value.taken && !email_well_formed(email@)),
            r matches Err(e) ==> e != ReserveError::VersionConflict,
            id < self@.len() && !self@[id as int].value.taken ==> gate_outcome(
                model,
                email,
                name,
                card,
                r is Ok,
            ),
            r matches Ok(c) ==> {
                &&& c.wf()
                &&& c.ticket() == id
                &&& c.expected() == self@[id as int].version
                &&& item_reserved(self@[id as int], c.new_item(), email@, name@, card@)
            },
    {
        let idx = id as usize;
        if idx >= self.records.len() {
            return Err(ReserveError::NotFound);
        }
        let current = &self.records[idx];
        if current.value.taken {
            return Err(ReserveError::AlreadyTaken);
        }
        match screen(email, name, card, model) {
            Err(e) => {
                return Err(e);
            },
            Ok(()) => {},
        }
        let item = Item {
            key: current.key.clone(),
            id: current.id.clone(),
            version: current.version + 1,
            value: Ticket {
                id,
                taken: true,
                res_email: Some(email.to_owned()),
                res_name: Some(name.to_owned()),
                res_card: Some(card.to_owned()),
            },
        };
        Ok(Claim { ticket_id: id, expected_version: current.version, item })
    }

    /// One reservation attempt: read, screen, then the version-guarded write.
    /// The errors are those of `prepare`; on success ticket `id` alone
    /// changes, to its reserved record. A failed attempt changes nothing.
    pub fn try_reserve<F: FnOnce(Vec<u8>) -> bool>(
        &mut self,
        id: u32,
        email: &str,
        name: &str,
        card: &str,
        model: F,
    ) -> (r: Result<(), ReserveError>)
        requires
            old(self).wf(),
            forall|f: Vec<u8>| #[trigger] model.requires((f,)),
        ensures
            final(self).wf(),
            r matches Err(e) && e == ReserveError::NotFound <==> id >= old(self)@.len(),
            r matches Err(e) && e == ReserveError::AlreadyTaken <==> (id < old(self)@.len()
                && old(self)@[id as int].value.taken),
            r matches Err(e) && e == ReserveError::InvalidEmail <==> (id < old(self)@.len()
                && !old(self)@[id as int].value.taken && !email_well_formed(email@)),
            r matches Err(e) ==> e != ReserveError::VersionConflict,
            id < old(self)@.len() && !old(self)@[id as int].value.taken ==> gate_outcome(
                model,
                email,
                name,
                card,
                r is Ok,
            ),
            r is Err ==> final(self)@ == old(self)@,
            r is Ok ==> {
                &&& final(self)@ == old(self)@.update(id as int, final(self)@[id as int])
                &&& item_reserved(old(self)@[id as int], final(self)@[id as int], email@, name@, card@)
            },
    {
        let claim = match self.prepare(id, email, name, card, model) {
            Ok(c) => c,
            Err(e) => {
                return Err(e);
            },
        };
        let r = self.commit(claim);
        r
    }

    /// One reservation attempt, reporting only whether it succeeded.
    pub fn reserve<F: FnOnce(Vec<u8>) -> bool>(
        &mut self,
        id: u32,
        email: &str,
        name: &str,
        card: &str,
        model: F,
    ) -> (r: bool)
        requires
            old(self).wf(),
            forall|f: Vec<u8>| #[trigger] model.requires((f,)),
        ensures
            final(self).wf(),
            r ==> id < old(self)@.len() && !old(self)@[id as int].value.taken && email_well_formed(
                email@,
            ),
            id < old(self)@.len() && !old(self)@[id as int].value.taken ==> gate_outcome(
                model,
                email,
                name,
                card,
                r,
            ),
            !r ==> final(self)@ == old(self)@,
            r ==> {
                &&& final(self)@ == old(self)@.update(id as int, final(self)@[id as int])
                &&& item_reserved(old(self)@[id as int], final(self)@[id as int], email@, name@, card@)
            },
    {
        self.try_reserve(id, email, name, card, model).is_ok()
    }
}

proof fn lemma_all_conflict(s: Seq<Item>, id: nat, claims: Seq<Claim>)
    requires
        id < s.len(),
        s[id as int].version != 0,
        forall|k: int| 0 <= k < claims.len() ==> (#[trigger] claims[k]).wf() && claims[k].ticket() == id,
    ensures
        commit_all(s, claims).0 == s,
        forall|k: int| 0 <= k < claims.len() ==> !(#[trigger] commit_all(s, claims).1[k]),
        commit_all(s, claims).1.len() == claims.len(),
    decreases claims.len(),
{
    if claims.len() > 0 {
        let rest = claims.drop_first();
        assert forall|k: int| 0 <= k < rest.len() implies (#[trigger] rest[k]).wf() && rest[k].ticket() == id by {
            assert(rest[k] == claims[k + 1]);
        }
        lemma_all_conflict(s, id, rest);
        let (fin, rs) = commit_all(s, rest);
        assert forall|k: int| 0 <= k < claims.len() implies !(#[trigger] commit_all(s, claims).1[k]) by {
            if k > 0 {
                assert(commit_all(s, claims).1[k] == rs[k - 1]);
            }
        }
    }
}

/// Of several claims on one free ticket, all read at the same state and
/// committed one after another, the first wins and every other one fails;
/// the ticket's version ends one above where it started, holding the winner's
/// record.
pub proof fn lemma_single_winner(s: Seq<Item>, id: nat, claims: Seq<Claim>)
    requires
        records_wf(s),
        id < s.len(),
        !s[id as int].value.taken,
        claims.len() > 0,
        forall|k: int| 0 <= k < claims.len() ==> (#[trigger] claims[k]).wf() && claims[k].ticket() == id,
    ensures
        commit_all(s, claims).1.len() == claims.len(),
        commit_all(s, claims).1[0],
        forall|k: int| 1 <= k < claims.len() ==> !(#[trigger] commit_all(s, claims).1[k]),
        commit_all(s, claims).0[id as int].version == s[id as int].version + 1,
        commit_all(s, claims).0 == s.update(id as int, claims[0].new_item()),
{
    let c = claims[0];
    assert(c.wf() && c.ticket() == id);
    assert(item_wf(s[id as int], id));
    let s1 = s.update(id as int, c.new_item());
    assert(put_if_version_spec(s, c.ticket(), c.expected(), c.new_item()) == (s1, true));
    let rest = claims.drop_first();
    assert forall|k: int| 0 <= k < rest.len() implies (#[trigger] rest[k]).wf() && rest[k].ticket() == id by {
        assert(rest[k] == claims[k + 1]);
    }
    lemma_all_conflict(s1, id, rest);
    let (fin, rs) = commit_all(s1, rest);
    assert forall|k: int| 1 <= k < claims.len() implies !(#[trigger] commit_all(s, claims).1[k]) by {
        assert(commit_all(s, claims).1[k] == rs[k - 1]);
    }
}

/// No claim writes over a taken ticket: its record, version and reservation
/// included, stays as it is.
pub proof fn lemma_taken_ticket_stable(s: Seq<Item>, claim: Claim)
    requires
        records_wf(s),
        claim.wf(),
        claim.ticket() < s.len(),
        s[claim.ticket() as int].value.taken,
    ensures
        put_if_version_spec(s, claim.ticket(), claim.expected(), claim.new_item()) == (s, false),
{
    assert(item_wf(s[claim.ticket() as int], claim.ticket()));
}

} // verus!
