//! How the store's answers become the two-level replies of the registry.
use vstd::prelude::*;

verus! {

/// What the store answered to one statement.
#[derive(Debug, Clone, Copy, PartialEq, Eq, Structural)]
pub enum StoreOutcome {
    /// The statement ran and changed this many rows.
    Rows(u64),
    /// The statement broke the uniqueness of names.
    UniqueViolation,
    /// Any other storage failure.
    Failed,
}

/// A request that was rejected for a business reason.
#[derive(Debug, Clone, Copy, PartialEq, Eq, Structural)]
pub enum RequestError {
    /// A resource with that name already exists.
    NameExists,
    /// No resource has that name.
    NotFound,
}

/// A failure on the server's side.
#[derive(Debug, Clone, Copy, PartialEq, Eq, Structural)]
pub enum ServerError {
    /// The store failed, or refused the statement.
    Storage,
    /// A statement addressed to one name changed several rows: names are
    /// no longer unique, a defect that must not pass silently.
    ManyRows,
}

/// The outer result tells server failures apart; the inner one tells
/// rejected requests apart.
pub type Reply = Result<Result<(), RequestError>, ServerError>;

/// The short reason given to the client for a rejected request.
pub open spec fn message_of(e: RequestError) -> Seq<char> {
    match e {
        RequestError::NameExists => "Name already exists"@,
        RequestError::NotFound => "Resource does not exist"@,
    }
}

impl RequestError {
    /// The short reason given to the client.
    pub fn message(&self) -> (r: String)
        ensures
            r@ == message_of(*self),
    {
        match self {
            RequestError::NameExists => "Name already exists".to_owned(),
            RequestError::NotFound => "Resource does not exist".to_owned(),
        }
    }
}

/// The reply to an insert: a broken uniqueness constraint (or no row
/// inserted) means the name was taken.
pub fn create_outcome(o: StoreOutcome) -> (r: Reply)
    ensures
        o == StoreOutcome::Rows(1) ==> r == Reply::Ok(Ok(())),
        (o == StoreOutcome::Rows(0) || o == StoreOutcome::UniqueViolation) ==> r == Reply::Ok(
            Err(RequestError::NameExists),
        ),
        (o matches StoreOutcome::Rows(n) && n > 1) ==> r == Reply::Err(ServerError::ManyRows),
        o == StoreOutcome::Failed ==> r == Reply::Err(ServerError::Storage),
{
    match o {
        StoreOutcome::Rows(0) => Ok(Err(RequestError::NameExists)),
        StoreOutcome::Rows(1) => Ok(Ok(())),
        StoreOutcome::Rows(_) => Err(ServerError::ManyRows),
        StoreOutcome::UniqueViolation => Ok(Err(RequestError::NameExists)),
        StoreOutcome::Failed => Err(ServerError::Storage),
    }
}

/// The reply to a delete by name: no row deleted means no such resource.
pub fn delete_outcome(o: StoreOutcome) -> (r: Reply)
    ensures
        o == StoreOutcome::Rows(1) ==> r == Reply::Ok(Ok(())),
        o == StoreOutcome::Rows(0) ==> r == Reply::Ok(Err(RequestError::NotFound)),
        (o matches StoreOutcome::Rows(n) && n > 1) ==> r == Reply::Err(ServerError::ManyRows),
        (o == StoreOutcome::Failed || o == StoreOutcome::UniqueViolation) ==> r == Reply::Err(
            ServerError::Storage,
        ),
{
    match o {
        StoreOutcome::Rows(0) => Ok(Err(RequestError::NotFound)),
        StoreOutcome::Rows(1) => Ok(Ok(())),
        StoreOutcome::Rows(_) => Err(ServerError::ManyRows),
        _ => Err(ServerError::Storage),
    }
}

/// Whether a lease has run out at time `now`: its deadline is set and past.
pub open spec fn lease_expired(reserved_until: i64, now: i64) -> bool {
    reserved_until < now && reserved_until != 0
}

/// Executable form of [`lease_expired`].
pub fn is_expired(reserved_until: i64, now: i64) -> (r: bool)
    ensures
        r == lease_expired(reserved_until, now),
{
    reserved_until < now && reserved_until != 0
}

/// What a sweep has to report.
#[derive(Debug, Clone, Copy, PartialEq, Eq, Structural)]
pub enum SweepReport {
    /// Nothing was cleared: say nothing.
    Quiet,
    /// This many leases were cleared.
    Cleared(u64),
    /// The store failed; log it and wait for the next tick.
    Failed,
}

/// Classify the store's answer to a sweep.
pub fn sweep_report(o: StoreOutcome) -> (r: SweepReport)
    ensures
        o == StoreOutcome::Rows(0) ==> r == SweepReport::Quiet,
        (o matches StoreOutcome::Rows(n) && n > 0) ==> r == SweepReport::Cleared(o->Rows_0),
        (o == StoreOutcome::Failed || o == StoreOutcome::UniqueViolation) ==> r
            == SweepReport::Failed,
{
    match o {
        StoreOutcome::Rows(0) => SweepReport::Quiet,
        StoreOutcome::Rows(n) => SweepReport::Cleared(n),
        _ => SweepReport::Failed,
    }
}

} // verus!
