//! Partial updates: the patch, the statements it turns into, and what the
//! transaction does after each of them.
use vstd::prelude::*;

use crate::outcome::{Reply, RequestError, ServerError, StoreOutcome};
use crate::resource::{copy_fields, fields_view, keys_distinct, Resource, ResourceView, UnixTime};

verus! {

/// A sparse patch of one resource: each field that is set replaces the
/// stored one, each field left unset stays as it is.
///
/// A patch that sets only one of `reserved_until` and `reserved_by` is
/// applied as given and can leave the record with a deadline but no holder
/// (or the reverse); callers should set both together (see
/// [`UpdateView::keeps_pairing`]).
#[derive(Debug, Clone, PartialEq, Eq)]
pub struct ResourceUpdateReq {
    /// The resource to change, by its current name.
    pub name: String,
    pub new_name: Option<String>,
    pub description: Option<String>,
    pub reserved_until: Option<UnixTime>,
    pub reserved_by: Option<String>,
    pub other_fields: Option<Vec<(String, String)>>,
}

/// The mathematical value of a [`ResourceUpdateReq`].
pub struct UpdateView {
    pub name: Seq<char>,
    pub new_name: Option<Seq<char>>,
    pub description: Option<Seq<char>>,
    pub reserved_until: Option<UnixTime>,
    pub reserved_by: Option<Seq<char>>,
    pub other_fields: Option<Seq<(Seq<char>, Seq<char>)>>,
}

pub open spec fn opt_str(o: Option<String>) -> Option<Seq<char>> {
    match o {
        Some(s) => Some(s@),
        None => None,
    }
}

impl View for ResourceUpdateReq {
    type V = UpdateView;

    open spec fn view(&self) -> UpdateView {
        UpdateView {
            name: self.name@,
            new_name: opt_str(self.new_name),
            description: opt_str(self.description),
            reserved_until: self.reserved_until,
            reserved_by: opt_str(self.reserved_by),
            other_fields: match self.other_fields {
                Some(f) => Some(fields_view(f@)),
                None => None,
            },
        }
    }
}

impl UpdateView {
    /// Entries that the patch sets form a mapping.
    pub open spec fn wf(self) -> bool {
        match self.other_fields {
            Some(f) => keys_distinct(f),
            None => true,
        }
    }

    /// The patch sets at least one field.
    pub open spec fn touches_any(self) -> bool {
        self.new_name is Some || self.description is Some || self.reserved_until is Some
            || self.reserved_by is Some || self.other_fields is Some
    }

    /// The patch leaves the lease fields paired on every record it is
    /// applied to: it sets both of them, in agreement, or neither.
    pub open spec fn keeps_pairing(self) -> bool {
        match (self.reserved_until, self.reserved_by) {
            (None, None) => true,
            (Some(t), Some(b)) => (t == 0) == (b.len() == 0),
            _ => false,
        }
    }

    /// The record with every field that the patch sets replaced.
    pub open spec fn patch(self, r: ResourceView) -> ResourceView {
        ResourceView {
            name: match self.new_name {
                Some(n) => n,
                None => r.name,
            },
            description: match self.description {
                Some(d) => d,
                None => r.description,
            },
            reserved_until: match self.reserved_until {
                Some(t) => t,
                None => r.reserved_until,
            },
            reserved_by: match self.reserved_by {
                Some(b) => b,
                None => r.reserved_by,
            },
            other_fields: match self.other_fields {
                Some(f) => f,
                None => r.other_fields,
            },
        }
    }
}

/// One statement of an update: a single column set on the target record.
#[derive(Debug, Clone, PartialEq, Eq)]
pub enum FieldUpdate {
    Description(String),
    ReservedUntil(UnixTime),
    ReservedBy(String),
    OtherFields(Vec<(String, String)>),
    Rename(String),
}

/// The mathematical value of a [`FieldUpdate`].
pub enum FieldChange {
    Description(Seq<char>),
    ReservedUntil(UnixTime),
    ReservedBy(Seq<char>),
    OtherFields(Seq<(Seq<char>, Seq<char>)>),
    Rename(Seq<char>),
}

impl View for FieldUpdate {
    type V = FieldChange;

    open spec fn view(&self) -> FieldChange {
        match self {
            FieldUpdate::Description(d) => FieldChange::Description(d@),
            FieldUpdate::ReservedUntil(t) => FieldChange::ReservedUntil(*t),
            FieldUpdate::ReservedBy(b) => FieldChange::ReservedBy(b@),
            FieldUpdate::OtherFields(f) => FieldChange::OtherFields(fields_view(f@)),
            FieldUpdate::Rename(n) => FieldChange::Rename(n@),
        }
    }
}

pub open spec fn changes_view(s: Seq<FieldUpdate>) -> Seq<FieldChange> {
    s.map_values(|u: FieldUpdate| u@)
}

pub open spec fn push_if<A>(s: Seq<A>, o: Option<A>) -> Seq<A> {
    match o {
        Some(a) => s.push(a),
        None => s,
    }
}

/// The statements of a patch, in their fixed order: description, lease
/// deadline, lease holder, entries, and the rename last, so that every
/// other statement still finds the record under its old name.
pub open spec fn planned(p: UpdateView) -> Seq<FieldChange> {
    push_if(planned_before_rename(p), rename_change(p))
}

/// The statements of a patch that come before the rename.
pub open spec fn planned_before_rename(p: UpdateView) -> Seq<FieldChange> {
    let s0 = push_if(Seq::empty(), description_change(p));
    let s1 = push_if(s0, deadline_change(p));
    let s2 = push_if(s1, holder_change(p));
    push_if(s2, fields_change(p))
}

pub open spec fn description_change(p: UpdateView) -> Option<FieldChange> {
    match p.description {
        Some(d) => Some(FieldChange::Description(d)),
        None => None,
    }
}

pub open spec fn deadline_change(p: UpdateView) -> Option<FieldChange> {
    match p.reserved_until {
        Some(t) => Some(FieldChange::ReservedUntil(t)),
        None => None,
    }
}

pub open spec fn holder_change(p: UpdateView) -> Option<FieldChange> {
    match p.reserved_by {
        Some(b) => Some(FieldChange::ReservedBy(b)),
        None => None,
    }
}

pub open spec fn fields_change(p: UpdateView) -> Option<FieldChange> {
    match p.other_fields {
        Some(f) => Some(FieldChange::OtherFields(f)),
        None => None,
    }
}

pub open spec fn rename_change(p: UpdateView) -> Option<FieldChange> {
    match p.new_name {
        Some(n) => Some(FieldChange::Rename(n)),
        None => None,
    }
}

/// The record after one statement.
pub open spec fn change(r: ResourceView, c: FieldChange) -> ResourceView {
    match c {
        FieldChange::Description(d) => ResourceView { description: d, ..r },
        FieldChange::ReservedUntil(t) => ResourceView { reserved_until: t, ..r },
        FieldChange::ReservedBy(b) => ResourceView { reserved_by: b, ..r },
        FieldChange::OtherFields(f) => ResourceView { other_fields: f, ..r },
        FieldChange::Rename(n) => ResourceView { name: n, ..r },
    }
}

/// The record after a sequence of statements, first to last.
pub open spec fn change_all(r: ResourceView, s: Seq<FieldChange>) -> ResourceView
    decreases s.len(),
{
    if s.len() == 0 {
        r
    } else {
        change(change_all(r, s.drop_last()), s.last())
    }
}

proof fn lemma_change_all_push(r: ResourceView, s: Seq<FieldChange>, c: FieldChange)
    ensures
        change_all(r, s.push(c)) == change(change_all(r, s), c),
{
    assert(s.push(c).drop_last() =~= s);
}

proof fn lemma_change_all_push_if(r: ResourceView, s: Seq<FieldChange>, o: Option<FieldChange>)
    ensures
        change_all(r, push_if(s, o)) == match o {
            Some(c) => change(change_all(r, s), c),
            None => change_all(r, s),
        },
{
    if let Some(c) = o {
        lemma_change_all_push(r, s, c);
    }
}

/// Running the planned statements one by one patches the record.
pub(crate) proof fn lemma_planned_patches(p: UpdateView, r: ResourceView)
    ensures
        change_all(r, planned(p)) == p.patch(r),
{
    let s0 = push_if(Seq::empty(), description_change(p));
    let s1 = push_if(s0, deadline_change(p));
    let s2 = push_if(s1, holder_change(p));
    let s3 = push_if(s2, fields_change(p));
    lemma_change_all_push_if(r, Seq::empty(), description_change(p));
    lemma_change_all_push_if(r, s0, deadline_change(p));
    lemma_change_all_push_if(r, s1, holder_change(p));
    lemma_change_all_push_if(r, s2, fields_change(p));
    lemma_change_all_push_if(r, s3, rename_change(p));
    assert(change_all(r, Seq::empty()) == r);
}

/// Only the last planned statement renames, and only to the patch's new name.
pub(crate) proof fn lemma_planned_rename(p: UpdateView)
    ensures
        planned(p).len() == 0 <==> !p.touches_any(),
        forall|k: int|
            0 <= k < planned(p).len() && #[trigger] planned(p)[k] is Rename ==> k == planned(p).len()
                - 1 && p.new_name == Some(planned(p)[k]->Rename_0),
        p.new_name is Some ==> planned(p).last() == FieldChange::Rename(p.new_name->Some_0),
{
}

/// The statements that carry out a patch, in the order of [`planned`].
pub fn update_steps(req: ResourceUpdateReq) -> (r: Vec<FieldUpdate>)
    ensures
        changes_view(r@) == planned(req@),
{
    let mut r: Vec<FieldUpdate> = Vec::new();
    if let Some(d) = req.description {
        r.push(FieldUpdate::Description(d));
    }
    if let Some(t) = req.reserved_until {
        r.push(FieldUpdate::ReservedUntil(t));
    }
    if let Some(b) = req.reserved_by {
        r.push(FieldUpdate::ReservedBy(b));
    }
    if let Some(f) = req.other_fields {
        r.push(FieldUpdate::OtherFields(f));
    }
    if let Some(n) = req.new_name {
        r.push(FieldUpdate::Rename(n));
    }
    assert(changes_view(r@) =~= planned(req@));
    r
}

/// What an update transaction does next.
#[derive(Debug, Clone, Copy, PartialEq, Eq)]
pub enum Decision {
    /// Run the next statement.
    Next,
    /// Every statement has run: commit.
    Commit,
    /// Roll back everything and give this reply.
    Abort(Reply),
}

/// The decision after statement `position` of `count` has answered `o`.
///
/// A storage failure (a rename into a taken name among them) aborts with a
/// server error. The first statement also checks that the record exists:
/// if it changed no row, the update aborts with a request error.
pub fn after_statement(position: usize, count: usize, o: StoreOutcome) -> (r: Decision)
    requires
        position < count,
    ensures
        (o == StoreOutcome::Failed || o == StoreOutcome::UniqueViolation) ==> r
            == Decision::Abort(Reply::Err(ServerError::Storage)),
        (o == StoreOutcome::Rows(0) && position == 0) ==> r == Decision::Abort(
            Reply::Ok(Err(RequestError::NotFound)),
        ),
        (o matches StoreOutcome::Rows(n) && n > 1) ==> r == Decision::Abort(
            Reply::Err(ServerError::ManyRows),
        ),
        (o == StoreOutcome::Rows(1) || (o == StoreOutcome::Rows(0) && position > 0)) ==> r == if position
            + 1 < count {
            Decision::Next
        } else {
            Decision::Commit
        },
{
    match o {
        StoreOutcome::Rows(0) if position == 0 => Decision::Abort(Ok(Err(RequestError::NotFound))),
        StoreOutcome::Rows(n) if n > 1 => Decision::Abort(Err(ServerError::ManyRows)),
        StoreOutcome::Rows(_) => if position + 1 < count {
            Decision::Next
        } else {
            Decision::Commit
        },
        _ => Decision::Abort(Err(ServerError::Storage)),
    }
}

impl Resource {
    /// Carry out one statement on this record.
    pub fn apply(&mut self, u: &FieldUpdate)
        ensures
            final(self)@ == change(old(self)@, u@),
    {
        match u {
            FieldUpdate::Description(d) => {
                self.description = d.clone();
            },
            FieldUpdate::ReservedUntil(t) => {
                self.reserved_until = *t;
            },
            FieldUpdate::ReservedBy(b) => {
                self.reserved_by = b.clone();
            },
            FieldUpdate::OtherFields(f) => {
                self.other_fields = copy_fields(f);
            },
            FieldUpdate::Rename(n) => {
                self.name = n.clone();
            },
        }
    }
}

} // verus!
