//! The ledger: its state, what can be observed of it, its invariant, and
//! saving and loading it.

use vstd::prelude::*;

use crate::arith::fits_i128;
use crate::sums::{claimed_of, invested_of, refunded_of, shares_of, sum_over};
use crate::validate::records_are_valid;
use crate::types::{CoffeeError, HarvestSeason, HarvestStatus, InvestorPosition};

mod positions;
mod seasons;

verus! {

/// A season together with the positions opened in it, in the order they
/// were opened: the form in which a ledger is saved and loaded.
pub struct SeasonRecord {
    pub season_id: String,
    pub season: HarvestSeason,
    pub positions: Vec<InvestorPosition>,
}

/// The state of the contract: its administrator and its seasons.
pub struct CafeTokenize {
    admin: String,
    entries: Vec<SeasonRecord>,
}

/// No two records share a season id.
pub open spec fn ids_unique(records: Seq<SeasonRecord>) -> bool {
    forall|a: int, b: int|
        0 <= a < records.len() && 0 <= b < records.len() && (#[trigger] records[a]).season_id@
            == (#[trigger] records[b]).season_id@ ==> a == b
}

/// Records that make a well-formed ledger: one per season id, each season
/// with its positions in bounds and adding up.
pub open spec fn records_valid(records: Seq<SeasonRecord>) -> bool {
    &&& ids_unique(records)
    &&& forall|i: int|
        0 <= i < records.len() ==> season_with_positions_ok(
            (#[trigger] records[i]).season,
            records[i].positions@,
        )
}

/// Whether `investor` holds a position in `ps` (a well-formed ledger has at
/// most one per investor and season).
pub open spec fn has_position_in(ps: Seq<InvestorPosition>, investor: Seq<char>) -> bool {
    exists|j: int| 0 <= j < ps.len() && (#[trigger] ps[j]).investor@ == investor
}

/// The index of `investor`'s position in `ps`.
pub open spec fn position_index(ps: Seq<InvestorPosition>, investor: Seq<char>) -> int {
    choose|j: int| 0 <= j < ps.len() && (#[trigger] ps[j]).investor@ == investor
}

/// `investor`'s position in `ps`.
pub open spec fn position_in(ps: Seq<InvestorPosition>, investor: Seq<char>) -> Option<InvestorPosition> {
    if has_position_in(ps, investor) {
        Some(ps[position_index(ps, investor)])
    } else {
        None
    }
}

/// No investor holds two positions in `ps`.
pub open spec fn investors_unique(ps: Seq<InvestorPosition>) -> bool {
    forall|a: int, b: int|
        0 <= a < ps.len() && 0 <= b < ps.len() && (#[trigger] ps[a]).investor@ == (#[trigger] ps[b]).investor@
            ==> a == b
}

/// The payout that `shares` of a settled season entitle to: the pool times
/// the investor's part of the shares sold, rounded down.
pub open spec fn entitlement(season: HarvestSeason, shares: int) -> int {
    (season.payout_pool * shares) / (season.shares_sold as int)
}

/// The bounds that every season of a well-formed ledger keeps.
pub open spec fn season_ok(s: HarvestSeason) -> bool {
    &&& s.total_shares > 0
    &&& s.price_per_share > 0
    &&& s.expected_yield_kg > 0
    &&& 0 <= s.shares_sold <= s.total_shares
    &&& s.raised_amount >= 0
    &&& s.raised_amount == s.shares_sold * s.price_per_share
    &&& s.status == HarvestStatus::Settled ==> s.payout_pool > 0 && s.shares_sold > 0
    &&& s.status != HarvestStatus::Settled ==> s.payout_pool == 0
}

/// The bounds that every position keeps, given its season.
pub open spec fn position_ok(p: InvestorPosition, s: HarvestSeason) -> bool {
    &&& p.shares > 0
    &&& p.invested_amount > 0
    &&& p.claimed_amount >= 0
    &&& s.status != HarvestStatus::Settled ==> p.claimed_amount == 0
    &&& (s.status == HarvestStatus::Settled && p.claimed_amount != 0) ==> {
        &&& fits_i128(s.payout_pool * p.shares)
        &&& p.claimed_amount <= entitlement(s, p.shares as int)
    }
    &&& p.refunded ==> s.status == HarvestStatus::Cancelled
}

/// A season with its positions: each position in bounds, one per investor,
/// and the positions add up to the season's shares sold and money raised.
pub open spec fn season_with_positions_ok(s: HarvestSeason, ps: Seq<InvestorPosition>) -> bool {
    &&& season_ok(s)
    &&& investors_unique(ps)
    &&& forall|j: int| 0 <= j < ps.len() ==> position_ok(#[trigger] ps[j], s)
    &&& sum_over(ps, shares_of()) == s.shares_sold
    &&& sum_over(ps, invested_of()) == s.raised_amount
}

/// Positions in bounds for an open or active season stay in bounds for any
/// season: none has claimed anything or been refunded.
pub proof fn lemma_positions_carry_over(ps: Seq<InvestorPosition>, old_s: HarvestSeason, new_s: HarvestSeason)
    requires
        forall|j: int| 0 <= j < ps.len() ==> position_ok(#[trigger] ps[j], old_s),
        old_s.status == HarvestStatus::Open || old_s.status == HarvestStatus::Active,
    ensures
        forall|j: int| 0 <= j < ps.len() ==> position_ok(#[trigger] ps[j], new_s),
{
    assert forall|j: int| 0 <= j < ps.len() implies position_ok(#[trigger] ps[j], new_s) by {
        assert(position_ok(ps[j], old_s));
    }
}

/// Replacing a record by a well-formed one with the same id keeps the
/// records valid.
proof fn lemma_records_replace(rs: Seq<SeasonRecord>, i: int, e: SeasonRecord)
    requires
        records_valid(rs),
        0 <= i < rs.len(),
        e.season_id@ == rs[i].season_id@,
        season_with_positions_ok(e.season, e.positions@),
    ensures
        records_valid(rs.update(i, e)),
{
    let qs = rs.update(i, e);
    assert forall|a: int, b: int|
        0 <= a < qs.len() && 0 <= b < qs.len() && (#[trigger] qs[a]).season_id@ == (#[trigger] qs[b]).season_id@
            implies a == b by {
        assert(rs[a].season_id@ == qs[a].season_id@);
        assert(rs[b].season_id@ == qs[b].season_id@);
    }
    assert forall|j: int| 0 <= j < qs.len() implies season_with_positions_ok(
        (#[trigger] qs[j]).season,
        qs[j].positions@,
    ) by {
        if j != i {
            assert(qs[j] == rs[j]);
        }
    }
}

/// Appending a well-formed record with a fresh id keeps the records valid.
proof fn lemma_records_push(rs: Seq<SeasonRecord>, e: SeasonRecord)
    requires
        records_valid(rs),
        forall|j: int| 0 <= j < rs.len() ==> (#[trigger] rs[j]).season_id@ != e.season_id@,
        season_with_positions_ok(e.season, e.positions@),
    ensures
        records_valid(rs.push(e)),
{
    let qs = rs.push(e);
    let n = rs.len() as int;
    assert forall|a: int, b: int|
        0 <= a < qs.len() && 0 <= b < qs.len() && (#[trigger] qs[a]).season_id@ == (#[trigger] qs[b]).season_id@
            implies a == b by {
        if a < n {
            assert(qs[a] == rs[a]);
        }
        if b < n {
            assert(qs[b] == rs[b]);
        }
    }
    assert forall|j: int| 0 <= j < qs.len() implies season_with_positions_ok(
        (#[trigger] qs[j]).season,
        qs[j].positions@,
    ) by {
        if j != n {
            assert(qs[j] == rs[j]);
        }
    }
}

impl CafeTokenize {
    spec fn has_entry(self, id: Seq<char>) -> bool {
        exists|i: int| 0 <= i < self.entries@.len() && (#[trigger] self.entries@[i]).season_id@ == id
    }

    spec fn entry_index(self, id: Seq<char>) -> int {
        choose|i: int| 0 <= i < self.entries@.len() && (#[trigger] self.entries@[i]).season_id@ == id
    }

    spec fn ids_unique(self) -> bool {
        ids_unique(self.entries@)
    }

    /// The administrator's address.
    pub closed spec fn admin_id(self) -> Seq<char> {
        self.admin@
    }

    /// The season stored under `id`.
    pub closed spec fn season(self, id: Seq<char>) -> Option<HarvestSeason> {
        if self.has_entry(id) {
            Some(self.entries@[self.entry_index(id)].season)
        } else {
            None
        }
    }

    /// The positions opened in season `id`, in the order they were opened
    /// (empty where there is no such season).
    pub closed spec fn positions_of(self, id: Seq<char>) -> Seq<InvestorPosition> {
        if self.has_entry(id) {
            self.entries@[self.entry_index(id)].positions@
        } else {
            Seq::empty()
        }
    }

    /// `investor`'s position in season `id`.
    pub open spec fn position(self, id: Seq<char>, investor: Seq<char>) -> Option<InvestorPosition> {
        position_in(self.positions_of(id), investor)
    }

    /// The shares held over all positions of season `id`.
    pub open spec fn shares_held(self, id: Seq<char>) -> int {
        sum_over(self.positions_of(id), shares_of())
    }

    /// The money paid in over all positions of season `id`.
    pub open spec fn invested_total(self, id: Seq<char>) -> int {
        sum_over(self.positions_of(id), invested_of())
    }

    /// The payout claimed so far over all positions of season `id`.
    pub open spec fn claimed_total(self, id: Seq<char>) -> int {
        sum_over(self.positions_of(id), claimed_of())
    }

    /// The money refunded so far over all positions of season `id`.
    pub open spec fn refunded_total(self, id: Seq<char>) -> int {
        sum_over(self.positions_of(id), refunded_of())
    }

    /// The tokens that the contract holds in escrow on account of season `id`:
    /// the capital raised while the season is open, nothing once the capital
    /// went to the farmer, the pool less the claims once settled, the capital
    /// less the refunds once cancelled.
    pub open spec fn escrow_balance(self, id: Seq<char>) -> int {
        match self.season(id) {
            None => 0,
            Some(s) => match s.status {
                HarvestStatus::Open => s.raised_amount as int,
                HarvestStatus::Active => 0,
                HarvestStatus::Settled => s.payout_pool - self.claimed_total(id),
                HarvestStatus::Cancelled => s.raised_amount - self.refunded_total(id),
            },
        }
    }

    /// The season records that make up the ledger, in the order the seasons
    /// were created.
    pub closed spec fn records(self) -> Seq<SeasonRecord> {
        self.entries@
    }

    /// The ledger's invariant: one entry per season id, and each season with
    /// its positions in bounds and adding up. Every ledger value keeps it (it
    /// is the type's invariant), and the operations state it of their
    /// results so that laws about them can use it.
    pub closed spec fn wf(self) -> bool {
        records_valid(self.entries@)
    }

    /// Every ledger value keeps `wf`: it is checked wherever a ledger is built
    /// or changed, and assumed wherever one is used.
    #[verifier::type_invariant]
    spec fn keeps_invariant(self) -> bool {
        self.wf()
    }

    /// `post` agrees with `pre` on the administrator and on every season
    /// other than `id`, with their positions.
    pub open spec fn only_season_changed(pre: Self, post: Self, id: Seq<char>) -> bool {
        &&& post.admin_id() == pre.admin_id()
        &&& forall|k: Seq<char>|
            k != id ==> #[trigger] post.season(k) == pre.season(k) && post.positions_of(k) == pre.positions_of(k)
    }

    /// In a well-formed ledger every season is in bounds, one position per
    /// investor, each position in bounds, and the positions add up to the
    /// shares sold and the capital raised; a missing season has no positions.
    pub proof fn lemma_season_invariant(self, id: Seq<char>)
        requires
            self.wf(),
        ensures
            self.season(id) matches Some(s) ==> season_with_positions_ok(s, self.positions_of(id)),
            self.season(id) is None ==> self.positions_of(id) == Seq::<InvestorPosition>::empty(),
    {
        if self.has_entry(id) {
            let i = self.entry_index(id);
            assert(season_with_positions_ok(self.entries@[i].season, self.entries@[i].positions@));
        }
    }

    /// A ledger with administrator `admin` and no seasons.
    pub fn new(admin: String) -> (r: Self)
        ensures
            r.wf(),
            r.admin_id() == admin@,
            forall|id: Seq<char>| #[trigger] r.season(id) is None,
            forall|id: Seq<char>| #[trigger] r.positions_of(id) == Seq::<InvestorPosition>::empty(),
    {
        CafeTokenize { admin, entries: Vec::new() }
    }

    proof fn lemma_entry_at(self, i: int)
        requires
            self.ids_unique(),
            0 <= i < self.entries@.len(),
        ensures
            self.has_entry(self.entries@[i].season_id@),
            self.entry_index(self.entries@[i].season_id@) == i,
            self.season(self.entries@[i].season_id@) == Some(self.entries@[i].season),
            self.positions_of(self.entries@[i].season_id@) == self.entries@[i].positions@,
    {
        let id = self.entries@[i].season_id@;
        assert(self.has_entry(id));
        let k = self.entry_index(id);
        assert(self.entries@[k].season_id@ == id);
    }

    /// Replacing the entry at `i` by one with the same id changes that season
    /// only.
    proof fn lemma_replace_entry(pre: Self, post: Self, i: int, e: SeasonRecord)
        requires
            pre.ids_unique(),
            0 <= i < pre.entries@.len(),
            e.season_id@ == pre.entries@[i].season_id@,
            post.entries@ == pre.entries@.update(i, e),
            post.admin == pre.admin,
        ensures
            post.ids_unique(),
            post.season(e.season_id@) == Some(e.season),
            post.positions_of(e.season_id@) == e.positions@,
            Self::only_season_changed(pre, post, e.season_id@),
            pre.wf() && season_with_positions_ok(e.season, e.positions@) ==> post.wf(),
    {
        let id = e.season_id@;
        assert forall|a: int, b: int|
            0 <= a < post.entries@.len() && 0 <= b < post.entries@.len()
                && (#[trigger] post.entries@[a]).season_id@ == (#[trigger] post.entries@[b]).season_id@
                implies a == b by {
            assert(pre.entries@[a].season_id@ == post.entries@[a].season_id@);
            assert(pre.entries@[b].season_id@ == post.entries@[b].season_id@);
        }
        post.lemma_entry_at(i);
        assert forall|k: Seq<char>| k != id implies
            #[trigger] post.season(k) == pre.season(k) && post.positions_of(k) == pre.positions_of(k) by {
            if pre.has_entry(k) {
                let j = pre.entry_index(k);
                assert(pre.entries@[j].season_id@ == k);
                assert(j != i);
                assert(post.entries@[j] == pre.entries@[j]);
                pre.lemma_entry_at(j);
                post.lemma_entry_at(j);
            } else {
                if post.has_entry(k) {
                    let j = post.entry_index(k);
                    assert(post.entries@[j].season_id@ == k);
                    assert(j != i);
                    assert(pre.entries@[j] == post.entries@[j]);
                    assert(pre.has_entry(k));
                }
            }
        }
        if pre.wf() && season_with_positions_ok(e.season, e.positions@) {
            assert forall|j: int| 0 <= j < post.entries@.len() implies season_with_positions_ok(
                (#[trigger] post.entries@[j]).season,
                post.entries@[j].positions@,
            ) by {
                if j != i {
                    assert(post.entries@[j] == pre.entries@[j]);
                }
            }
        }
    }

    /// Appending an entry with a fresh id adds that season only.
    proof fn lemma_push_entry(pre: Self, post: Self, e: SeasonRecord)
        requires
            pre.ids_unique(),
            !pre.has_entry(e.season_id@),
            post.entries@ == pre.entries@.push(e),
            post.admin == pre.admin,
        ensures
            post.ids_unique(),
            post.season(e.season_id@) == Some(e.season),
            post.positions_of(e.season_id@) == e.positions@,
            Self::only_season_changed(pre, post, e.season_id@),
            pre.wf() && season_with_positions_ok(e.season, e.positions@) ==> post.wf(),
    {
        let id = e.season_id@;
        let n = pre.entries@.len() as int;
        assert forall|a: int, b: int|
            0 <= a < post.entries@.len() && 0 <= b < post.entries@.len()
                && (#[trigger] post.entries@[a]).season_id@ == (#[trigger] post.entries@[b]).season_id@
                implies a == b by {
            if a < n && b < n {
                assert(pre.entries@[a] == post.entries@[a]);
                assert(pre.entries@[b] == post.entries@[b]);
            } else if a < n {
                assert(pre.entries@[a].season_id@ == id);
            } else if b < n {
                assert(pre.entries@[b].season_id@ == id);
            }
        }
        post.lemma_entry_at(n);
        assert forall|k: Seq<char>| k != id implies
            #[trigger] post.season(k) == pre.season(k) && post.positions_of(k) == pre.positions_of(k) by {
            if pre.has_entry(k) {
                let j = pre.entry_index(k);
                assert(pre.entries@[j].season_id@ == k);
                assert(post.entries@[j] == pre.entries@[j]);
                pre.lemma_entry_at(j);
                post.lemma_entry_at(j);
            } else {
                if post.has_entry(k) {
                    let j = post.entry_index(k);
                    assert(post.entries@[j].season_id@ == k);
                    assert(j != n);
                    assert(pre.entries@[j] == post.entries@[j]);
                    assert(pre.has_entry(k));
                }
            }
        }
        if pre.wf() && season_with_positions_ok(e.season, e.positions@) {
            assert forall|j: int| 0 <= j < post.entries@.len() implies season_with_positions_ok(
                (#[trigger] post.entries@[j]).season,
                post.entries@[j].positions@,
            ) by {
                if j != n {
                    assert(post.entries@[j] == pre.entries@[j]);
                }
            }
        }
    }

    /// The index of season `id`'s entry.
    fn find_entry(&self, id: &String) -> (r: Option<usize>)
        requires
            self.ids_unique(),
        ensures
            match r {
                Some(i) => {
                    &&& i < self.entries@.len()
                    &&& self.entries@[i as int].season_id@ == id@
                    &&& self.entry_index(id@) == i
                    &&& self.season(id@) == Some(self.entries@[i as int].season)
                    &&& self.positions_of(id@) == self.entries@[i as int].positions@
                },
                None => {
                    &&& !self.has_entry(id@)
                    &&& self.season(id@) is None
                    &&& self.positions_of(id@) == Seq::<InvestorPosition>::empty()
                },
            },
    {
        let mut i: usize = 0;
        while i < self.entries.len()
            invariant
                self.ids_unique(),
                i <= self.entries@.len(),
                forall|j: int| 0 <= j < i ==> (#[trigger] self.entries@[j]).season_id@ != id@,
            decreases self.entries@.len() - i,
        {
            if self.entries[i].season_id == *id {
                proof {
                    self.lemma_entry_at(i as int);
                }
                return Some(i);
            }
            i = i + 1;
        }
        None
    }

    /// The season stored under `season_id`, if any.
    pub fn get_season(&self, season_id: String) -> (r: Option<HarvestSeason>)
        ensures
            r == self.season(season_id@),
    {
        proof {
            use_type_invariant(self);
        }
        match self.find_entry(&season_id) {
            Some(i) => Some(self.entries[i].season.clone()),
            None => None,
        }
    }

    /// `investor`'s position in season `season_id`, if any.
    pub fn get_position(&self, season_id: String, investor: String) -> (r: Option<InvestorPosition>)
        ensures
            r == self.position(season_id@, investor@),
            r matches Some(p) ==> p.investor@ == investor@,
    {
        proof {
            use_type_invariant(self);
        }
        match self.find_entry(&season_id) {
            Some(i) => match find_position(&self.entries[i].positions, &investor) {
                Some(j) => Some(self.entries[i].positions[j].clone()),
                None => None,
            },
            None => None,
        }
    }

    /// The administrator's address.
    pub fn admin(&self) -> (r: Result<String, CoffeeError>)
        ensures
            r matches Ok(a) && a@ == self.admin_id(),
    {
        proof {
            use_type_invariant(self);
        }
        Ok(self.admin.clone())
    }

    /// Two ledgers with one administrator and the same records agree on
    /// every season and position, and on being well formed.
    pub proof fn lemma_same_records(a: Self, b: Self)
        requires
            a.admin_id() == b.admin_id(),
            a.records() == b.records(),
        ensures
            a.wf() == b.wf(),
            forall|id: Seq<char>| #[trigger] a.season(id) == b.season(id) && a.positions_of(id) == b.positions_of(id),
    {
    }

    /// A well-formed ledger's records are valid records.
    pub proof fn lemma_records_valid(self)
        ensures
            self.wf() == records_valid(self.records()),
    {
    }

    /// Loads a ledger from its administrator and its season records; `None`
    /// where the records do not make a well-formed ledger.
    pub fn from_records(admin: String, records: Vec<SeasonRecord>) -> (r: Option<Self>)
        ensures
            r is Some <==> records_valid(records@),
            r matches Some(l) ==> l.wf() && l.admin_id() == admin@ && l.records() == records@ && l.described_by(
                records@,
            ),
    {
        if records_are_valid(&records) {
            let l = CafeTokenize { admin, entries: records };
            proof {
                l.lemma_described();
            }
            Some(l)
        } else {
            None
        }
    }

    /// `records` hold this ledger's seasons: each record is the season stored
    /// under its id with that season's positions, and every season has a
    /// record.
    pub open spec fn described_by(self, records: Seq<SeasonRecord>) -> bool {
        &&& forall|i: int|
            0 <= i < records.len() ==> self.season((#[trigger] records[i]).season_id@) == Some(records[i].season)
                && self.positions_of(records[i].season_id@) == records[i].positions@
        &&& forall|k: Seq<char>|
            #[trigger] self.season(k) is Some ==> exists|i: int|
                0 <= i < records.len() && (#[trigger] records[i]).season_id@ == k
    }

    /// A well-formed ledger is described by its own records.
    proof fn lemma_described(self)
        requires
            self.wf(),
        ensures
            self.described_by(self.records()),
    {
        assert forall|i: int| 0 <= i < self.entries@.len() implies self.season(
            (#[trigger] self.entries@[i]).season_id@,
        ) == Some(self.entries@[i].season) && self.positions_of(self.entries@[i].season_id@)
            == self.entries@[i].positions@ by {
            self.lemma_entry_at(i);
        }
        assert forall|k: Seq<char>| #[trigger] self.season(k) is Some implies exists|i: int|
            0 <= i < self.entries@.len() && (#[trigger] self.entries@[i]).season_id@ == k by {
            let i = self.entry_index(k);
            assert(self.entries@[i].season_id@ == k);
        }
    }

    /// Hands out the administrator and the season records of the ledger, for
    /// saving.
    pub fn into_records(self) -> (r: (String, Vec<SeasonRecord>))
        ensures
            r.0@ == self.admin_id(),
            r.1@ == self.records(),
            records_valid(r.1@),
            self.described_by(r.1@),
    {
        proof {
            use_type_invariant(&self);
            self.lemma_described();
        }
        (self.admin, self.entries)
    }
}

/// The index of `investor`'s position in `ps`.
fn find_position(ps: &Vec<InvestorPosition>, investor: &String) -> (r: Option<usize>)
    requires
        investors_unique(ps@),
    ensures
        match r {
            Some(j) => {
                &&& j < ps@.len()
                &&& ps@[j as int].investor@ == investor@
                &&& position_index(ps@, investor@) == j
                &&& position_in(ps@, investor@) == Some(ps@[j as int])
            },
            None => position_in(ps@, investor@) is None,
        },
{
    let mut j: usize = 0;
    while j < ps.len()
        invariant
            investors_unique(ps@),
            j <= ps@.len(),
            forall|k: int| 0 <= k < j ==> (#[trigger] ps@[k]).investor@ != investor@,
        decreases ps@.len() - j,
    {
        if ps[j].investor == *investor {
            proof {
                assert(has_position_in(ps@, investor@));
                let k = position_index(ps@, investor@);
                assert(ps@[k].investor@ == investor@);
                assert(ps@[j as int].investor@ == investor@);
            }
            return Some(j);
        }
        j = j + 1;
    }
    None
}

} // verus!
