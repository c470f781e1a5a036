//! The registry of resources held in memory, with the exact effect of each
//! operation on the stored records.
use vstd::prelude::*;

use crate::outcome::{
    create_outcome, delete_outcome, is_expired, lease_expired, Reply, RequestError, ServerError,
    StoreOutcome,
};
use crate::resource::{Resource, ResourceView, UnixTime};
use crate::update::{
    after_statement, change_all, changes_view, FieldChange, lemma_planned_patches, lemma_planned_rename, planned,
    update_steps, Decision, FieldUpdate, ResourceUpdateReq, UpdateView,
};

verus! {

pub open spec fn rows_view(v: Seq<Resource>) -> Seq<ResourceView> {
    v.map_values(|r: Resource| r@)
}

/// No two records share a name.
pub open spec fn names_distinct(rows: Seq<ResourceView>) -> bool {
    forall|i: int, j: int|
        0 <= i < rows.len() && 0 <= j < rows.len() && i != j ==> rows[i].name != rows[j].name
}

/// Some record has this name.
pub open spec fn holds_name(rows: Seq<ResourceView>, name: Seq<char>) -> bool {
    exists|i: int| 0 <= i < rows.len() && rows[i].name == name
}

/// The position of the record with this name, when there is one.
pub open spec fn index_of(rows: Seq<ResourceView>, name: Seq<char>) -> int {
    choose|i: int| 0 <= i < rows.len() && rows[i].name == name
}

/// Every record's entries form a mapping.
pub open spec fn all_wf(rows: Seq<ResourceView>) -> bool {
    forall|i: int| 0 <= i < rows.len() ==> #[trigger] rows[i].wf()
}

/// Every record has its lease fields paired.
pub open spec fn all_paired(rows: Seq<ResourceView>) -> bool {
    forall|i: int| 0 <= i < rows.len() ==> #[trigger] rows[i].paired()
}

/// The reply to creating `res`.
pub open spec fn create_reply(rows: Seq<ResourceView>, res: ResourceView) -> Reply {
    if holds_name(rows, res.name) {
        Reply::Ok(Err(RequestError::NameExists))
    } else {
        Reply::Ok(Ok(()))
    }
}

/// The records after creating `res`: added, unreserved whatever lease it
/// came with, unless its name is taken.
pub open spec fn create_effect(rows: Seq<ResourceView>, res: ResourceView) -> Seq<ResourceView> {
    if holds_name(rows, res.name) {
        rows
    } else {
        rows.push(res.released())
    }
}

/// The reply to deleting `name`.
pub open spec fn delete_reply(rows: Seq<ResourceView>, name: Seq<char>) -> Reply {
    if holds_name(rows, name) {
        Reply::Ok(Ok(()))
    } else {
        Reply::Ok(Err(RequestError::NotFound))
    }
}

/// The records after deleting `name`.
pub open spec fn delete_effect(rows: Seq<ResourceView>, name: Seq<char>) -> Seq<ResourceView> {
    if holds_name(rows, name) {
        rows.remove(index_of(rows, name))
    } else {
        rows
    }
}

/// The reply to a patch: an empty patch runs no statement and succeeds; a
/// missing record is a request error; a rename into another record's name
/// is a server error; anything else succeeds.
pub open spec fn update_reply(rows: Seq<ResourceView>, p: UpdateView) -> Reply {
    if !p.touches_any() {
        Reply::Ok(Ok(()))
    } else if !holds_name(rows, p.name) {
        Reply::Ok(Err(RequestError::NotFound))
    } else if p.new_name is Some && p.new_name->Some_0 != p.name && holds_name(
        rows,
        p.new_name->Some_0,
    ) {
        Reply::Err(ServerError::Storage)
    } else {
        Reply::Ok(Ok(()))
    }
}

/// The records after a patch: all of it applied on success, none of it
/// otherwise.
pub open spec fn update_effect(rows: Seq<ResourceView>, p: UpdateView) -> Seq<ResourceView> {
    if update_reply(rows, p) == Reply::Ok(Ok(())) {
        rows.map_values(|r: ResourceView| if r.name == p.name { p.patch(r) } else { r })
    } else {
        rows
    }
}

/// One record after the sweep at time `now`.
pub open spec fn swept_one(r: ResourceView, now: UnixTime) -> ResourceView {
    if lease_expired(r.reserved_until, now) {
        r.released()
    } else {
        r
    }
}

/// The records after the sweep at time `now`.
pub open spec fn swept(rows: Seq<ResourceView>, now: UnixTime) -> Seq<ResourceView> {
    rows.map_values(|r: ResourceView| swept_one(r, now))
}

/// How many records hold a lease that has run out at time `now`.
pub open spec fn expired_count(rows: Seq<ResourceView>, now: UnixTime) -> nat
    decreases rows.len(),
{
    if rows.len() == 0 {
        0
    } else {
        expired_count(rows.drop_last(), now) + if lease_expired(rows.last().reserved_until, now) {
            1nat
        } else {
            0nat
        }
    }
}

/// An in-memory store of resources with the semantics of a relational table
/// whose names are unique: every operation is atomic, and a patch runs as
/// one transaction. Records are kept in the order they were created.
pub struct Registry {
    rows: Vec<Resource>,
}

impl View for Registry {
    type V = Seq<ResourceView>;

    closed spec fn view(&self) -> Seq<ResourceView> {
        rows_view(self.rows@)
    }
}

impl Registry {
    /// Names are unique, and each record's entries form a mapping.
    pub open spec fn wf(&self) -> bool {
        names_distinct(self@) && all_wf(self@)
    }

    /// An empty registry.
    pub fn new() -> (r: Registry)
        ensures
            r@ == Seq::<ResourceView>::empty(),
            r.wf(),
    {
        let r = Registry { rows: Vec::new() };
        assert(r@ =~= Seq::<ResourceView>::empty());
        r
    }

    /// The position of the record with this name.
    fn find(&self, name: &String) -> (r: Option<usize>)
        ensures
            match r {
                Some(i) => i < self@.len() && self@[i as int].name == name@,
                None => !holds_name(self@, name@),
            },
    {
        let mut i: usize = 0;
        while i < self.rows.len()
            invariant
                i <= self.rows@.len(),
                forall|k: int| 0 <= k < i ==> self@[k].name != name@,
            decreases self.rows.len() - i,
        {
            if self.rows[i].name == *name {
                return Some(i);
            }
            i = i + 1;
        }
        None
    }

    /// The insert statement: refused when the name is taken. The lease
    /// columns are not written, so they take their unreserved defaults.
    fn insert(&mut self, res: Resource) -> (r: StoreOutcome)
        requires
            old(self).wf(),
            res@.wf(),
        ensures
            final(self).wf(),
            holds_name(old(self)@, res@.name) ==> r == StoreOutcome::UniqueViolation
                && final(self)@ == old(self)@,
            !holds_name(old(self)@, res@.name) ==> r == StoreOutcome::Rows(1)
                && final(self)@ == old(self)@.push(res@.released()),
    {
        match self.find(&res.name) {
            Some(_) => StoreOutcome::UniqueViolation,
            None => {
                let ghost given = res@;
                let mut res = res;
                res.reserved_until = 0;
                res.reserved_by = String::new();
                assert(res@ == given.released());
                self.rows.push(res);
                assert(self@ =~= old(self)@.push(given.released()));
                StoreOutcome::Rows(1)
            },
        }
    }

    /// Create a resource, unreserved whatever lease fields it carries. A
    /// taken name is a request error and creates no second record.
    pub fn create_resource(&mut self, res: Resource) -> (r: Reply)
        requires
            old(self).wf(),
            res@.wf(),
        ensures
            final(self).wf(),
            r == create_reply(old(self)@, res@),
            final(self)@ == create_effect(old(self)@, res@),
    {
        let o = self.insert(res);
        create_outcome(o)
    }

    /// Every stored record.
    pub fn list_resources(&self) -> (r: Vec<Resource>)
        ensures
            rows_view(r@) == self@,
    {
        let mut r: Vec<Resource> = Vec::new();
        let mut i: usize = 0;
        while i < self.rows.len()
            invariant
                i <= self.rows@.len(),
                r@.len() == i,
                forall|k: int| 0 <= k < i ==> r@[k]@ == self@[k],
            decreases self.rows.len() - i,
        {
            r.push(self.rows[i].duplicate());
            i = i + 1;
        }
        assert(rows_view(r@) =~= self@);
        r
    }

    /// Delete the resource with this name. A missing name is a request
    /// error and changes nothing.
    pub fn delete_resource(&mut self, name: &String) -> (r: Reply)
        requires
            old(self).wf(),
        ensures
            final(self).wf(),
            r == delete_reply(old(self)@, name@),
            final(self)@ == delete_effect(old(self)@, name@),
    {
        let o = match self.find(name) {
            Some(i) => {
                let ghost j = index_of(old(self)@, name@);
                self.rows.remove(i);
                assert(i == j);
                assert(self@ =~= old(self)@.remove(i as int));
                StoreOutcome::Rows(1)
            },
            None => StoreOutcome::Rows(0),
        };
        delete_outcome(o)
    }

    /// Apply a patch in one transaction, statement by statement in the
    /// order of `planned`. The first statement checks that the record
    /// exists. Either the whole patch is applied or, on any failure,
    /// nothing is.
    pub fn update_resource(&mut self, req: ResourceUpdateReq) -> (r: Reply)
        requires
            old(self).wf(),
            req@.wf(),
        ensures
            final(self).wf(),
            r == update_reply(old(self)@, req@),
            final(self)@ == update_effect(old(self)@, req@),
    {
        let ghost p = req@;
        let ghost start = self@;
        let name = req.name.clone();
        let steps = update_steps(req);
        proof {
            lemma_planned_rename(p);
        }
        let count = steps.len();
        if count == 0 {
            assert(update_effect(start, p) =~= start);
            return Ok(Ok(()));
        }
        let i = match self.find(&name) {
            Some(i) => i,
            None => {
                // The first statement changes no row.
                return Ok(Err(RequestError::NotFound));
            },
        };
        let mut rec = self.rows[i].duplicate();
        let mut k: usize = 0;
        assert(planned(p).take(0) =~= Seq::<FieldChange>::empty());
        while k < count
            invariant
                count == steps@.len(),
                changes_view(steps@) == planned(p),
                planned(p).len() > 0,
                k < count,
                self@ == start,
                start == old(self)@,
                p == req@,
                names_distinct(start),
                all_wf(start),
                p.wf(),
                i < start.len(),
                start[i as int].name == p.name,
                rec@ == change_all(start[i as int], planned(p).take(k as int)),
                forall|m: int|
                    0 <= m < planned(p).len() && #[trigger] planned(p)[m] is Rename ==> m
                        == planned(p).len() - 1 && p.new_name == Some(planned(p)[m]->Rename_0),
                p.new_name is Some ==> planned(p).last() == FieldChange::Rename(
                    p.new_name->Some_0,
                ),
            decreases count - k,
        {
            assert(steps@[k as int]@ == planned(p)[k as int]);
            let o = match &steps[k] {
                FieldUpdate::Rename(n) => {
                    proof {
                        assert(planned(p)[k as int] == FieldChange::Rename(n@));
                        assert(p.new_name == Some(n@));
                    }
                    match self.find(n) {
                        Some(j) if j != i => {
                            proof {
                                assert(holds_name(start, n@));
                                assert(n@ != p.name);
                            }
                            StoreOutcome::UniqueViolation
                        },
                        _ => {
                            proof {
                                assert(!(holds_name(start, n@) && n@ != p.name));
                            }
                            rec.apply(&steps[k]);
                            StoreOutcome::Rows(1)
                        },
                    }
                },
                _ => {
                    rec.apply(&steps[k]);
                    StoreOutcome::Rows(1)
                },
            };
            proof {
                if o == StoreOutcome::Rows(1) {
                    assert(planned(p).take(k + 1).drop_last() =~= planned(p).take(k as int));
                }
            }
            match after_statement(k, count, o) {
                Decision::Next => {
                    k = k + 1;
                },
                Decision::Commit => {
                    proof {
                        assert(p.touches_any());
                        assert(holds_name(start, p.name));
                        if p.new_name is Some {
                            assert(planned(p)[k as int] is Rename);
                        }
                        assert(update_reply(start, p) == Reply::Ok(Ok(())));
                        assert(planned(p).take(count as int) =~= planned(p));
                        lemma_planned_patches(p, start[i as int]);
                    }
                    self.rows.set(i, rec);
                    proof {
                        let after = start.map_values(
                            |r: ResourceView| if r.name == p.name { p.patch(r) } else { r },
                        );
                        assert(self@ =~= after);
                        assert forall|m: int| 0 <= m < after.len() implies #[trigger] after[m].wf() by {
                            assert(start[m].wf());
                        }
                        assert(update_effect(start, p) == after);
                    }
                    return Ok(Ok(()));
                },
                Decision::Abort(reply) => {
                    proof {
                        assert(o == StoreOutcome::UniqueViolation);
                        assert(p.touches_any());
                        assert(holds_name(start, p.name));
                    }
                    return reply;
                },
            }
        }
        Ok(Ok(()))
    }

    /// Release every lease that has run out at time `now`; the result is
    /// the number of records released.
    pub fn clear_expired_reservations(&mut self, now: UnixTime) -> (r: u64)
        requires
            old(self).wf(),
        ensures
            final(self).wf(),
            final(self)@ == swept(old(self)@, now),
            r == expired_count(old(self)@, now),
    {
        let ghost start = self@;
        let mut cleared: usize = 0;
        let mut i: usize = 0;
        while i < self.rows.len()
            invariant
                i <= self.rows@.len(),
                self@.len() == start.len(),
                forall|k: int| 0 <= k < i ==> self@[k] == swept_one(start[k], now),
                forall|k: int| i <= k < start.len() ==> self@[k] == start[k],
                cleared == expired_count(start.take(i as int), now),
                cleared <= i,
            decreases self.rows.len() - i,
        {
            assert(start.take(i + 1).drop_last() =~= start.take(i as int));
            if is_expired(self.rows[i].reserved_until, now) {
                let mut rec = self.rows[i].duplicate();
                rec.reserved_until = 0;
                rec.reserved_by = String::new();
                let ghost before = self@;
                self.rows.set(i, rec);
                assert(self@ =~= before.update(i as int, start[i as int].released()));
                cleared = cleared + 1;
            }
            i = i + 1;
        }
        assert(start.take(start.len() as int) =~= start);
        assert(self@ =~= swept(start, now));
        assert forall|m: int| 0 <= m < self@.len() implies #[trigger] self@[m].wf() by {
            assert(start[m].wf());
        }
        cleared as u64
    }
}

} // verus!
