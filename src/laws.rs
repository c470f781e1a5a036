//! Properties of the registry that relate several operations or hold over
//! every sequence of them.
use vstd::prelude::*;

use crate::outcome::{lease_expired, Reply, RequestError};
use crate::registry::{
    all_paired, create_effect, create_reply, delete_effect, delete_reply, expired_count,
    holds_name, names_distinct, swept, update_effect, update_reply,
};
use crate::resource::{ResourceView, UnixTime};
use crate::update::UpdateView;

verus! {

/// The records after a series of creates, first to last.
pub open spec fn create_all(rows: Seq<ResourceView>, reqs: Seq<ResourceView>) -> Seq<ResourceView>
    decreases reqs.len(),
{
    if reqs.len() == 0 {
        rows
    } else {
        create_effect(create_all(rows, reqs.drop_last()), reqs.last())
    }
}

/// How many creates of a series succeed.
pub open spec fn create_successes(rows: Seq<ResourceView>, reqs: Seq<ResourceView>) -> nat
    decreases reqs.len(),
{
    if reqs.len() == 0 {
        0
    } else {
        create_successes(rows, reqs.drop_last()) + if create_reply(
            create_all(rows, reqs.drop_last()),
            reqs.last(),
        ) == Reply::Ok(Ok(())) {
            1nat
        } else {
            0nat
        }
    }
}

/// Creating a resource keeps names unique. A create under a taken name is
/// a request error and leaves the records as they were; a create under a
/// free name stores the record unreserved. Once a create has succeeded,
/// every further create under that name is rejected.
pub proof fn law_create_unique(rows: Seq<ResourceView>, res: ResourceView, again: ResourceView)
    requires
        names_distinct(rows),
        again.name == res.name,
    ensures
        names_distinct(create_effect(rows, res)),
        holds_name(create_effect(rows, res), res.name),
        holds_name(rows, res.name) ==> create_reply(rows, res) == Reply::Ok(
            Err(RequestError::NameExists),
        ) && create_effect(rows, res) == rows,
        !holds_name(rows, res.name) ==> create_reply(rows, res) == Reply::Ok(Ok(()))
            && create_effect(rows, res) == rows.push(res.released()),
        create_reply(create_effect(rows, res), again) == Reply::Ok(Err(RequestError::NameExists)),
        create_effect(create_effect(rows, res), again) == create_effect(rows, res),
{
    let after = create_effect(rows, res);
    if !holds_name(rows, res.name) {
        assert(after[rows.len() as int] == res.released());
    }
    assert(holds_name(after, res.name));
}

/// Of any series of creates under one name, at most one succeeds. When the
/// name was free and the series is not empty, exactly one does: the first,
/// whose record is the only one stored under that name; every other create
/// of the series is told that the name exists. When the name was taken,
/// none succeeds and nothing changes.
pub proof fn law_one_creator_wins(rows: Seq<ResourceView>, reqs: Seq<ResourceView>, name: Seq<char>)
    requires
        names_distinct(rows),
        forall|k: int| 0 <= k < reqs.len() ==> #[trigger] reqs[k].name == name,
    ensures
        create_successes(rows, reqs) <= 1,
        names_distinct(create_all(rows, reqs)),
        holds_name(rows, name) ==> create_successes(rows, reqs) == 0 && create_all(rows, reqs)
            == rows,
        !holds_name(rows, name) && reqs.len() > 0 ==> create_successes(rows, reqs) == 1
            && create_all(rows, reqs) == rows.push(reqs[0].released()),
        forall|k: int|
            0 <= k < reqs.len() && (k > 0 || holds_name(rows, name)) ==> #[trigger] create_reply(
                create_all(rows, reqs.take(k)),
                reqs[k],
            ) == Reply::Ok(Err(RequestError::NameExists)),
    decreases reqs.len(),
{
    if holds_name(rows, name) {
        lemma_rejected_creates(rows, reqs, name);
    }
    if reqs.len() > 0 {
        let prefix = reqs.drop_last();
        assert forall|k: int| 0 <= k < prefix.len() implies #[trigger] prefix[k].name == name by {
            assert(prefix[k] == reqs[k]);
        }
        law_one_creator_wins(rows, prefix, name);
        let before = create_all(rows, prefix);
        law_create_unique(before, reqs.last(), reqs.last());
        if !holds_name(rows, name) {
            if prefix.len() == 0 {
                assert(before == rows);
                assert(reqs.last() == reqs[0]);
            } else {
                assert(prefix[0] == reqs[0]);
                assert(before[rows.len() as int] == reqs[0].released());
                assert(holds_name(before, name));
            }
        }
        assert forall|k: int|
            0 <= k < reqs.len() && (k > 0 || holds_name(rows, name)) implies #[trigger] create_reply(
            create_all(rows, reqs.take(k)),
            reqs[k],
        ) == Reply::Ok(Err(RequestError::NameExists)) by {
            let pre = reqs.take(k);
            assert forall|m: int| 0 <= m < pre.len() implies #[trigger] pre[m].name == name by {
                assert(pre[m] == reqs[m]);
            }
            lemma_taken_after(rows, pre, name);
            assert(reqs[k].name == name);
        }
    }
}

proof fn lemma_taken_after(rows: Seq<ResourceView>, reqs: Seq<ResourceView>, name: Seq<char>)
    requires
        forall|k: int| 0 <= k < reqs.len() ==> #[trigger] reqs[k].name == name,
    ensures
        reqs.len() > 0 || holds_name(rows, name) ==> holds_name(create_all(rows, reqs), name),
    decreases reqs.len(),
{
    if reqs.len() > 0 {
        let prefix = reqs.drop_last();
        assert forall|k: int| 0 <= k < prefix.len() implies #[trigger] prefix[k].name == name by {
            assert(prefix[k] == reqs[k]);
        }
        lemma_taken_after(rows, prefix, name);
        let before = create_all(rows, prefix);
        assert(reqs.last().name == name);
        if !holds_name(before, name) {
            assert(create_effect(before, reqs.last())[before.len() as int].name == name);
        }
    }
}

proof fn lemma_rejected_creates(rows: Seq<ResourceView>, reqs: Seq<ResourceView>, name: Seq<char>)
    requires
        holds_name(rows, name),
        forall|k: int| 0 <= k < reqs.len() ==> #[trigger] reqs[k].name == name,
    ensures
        create_all(rows, reqs) == rows,
        create_successes(rows, reqs) == 0,
    decreases reqs.len(),
{
    if reqs.len() > 0 {
        let prefix = reqs.drop_last();
        assert forall|k: int| 0 <= k < prefix.len() implies #[trigger] prefix[k].name == name by {
            assert(prefix[k] == reqs[k]);
        }
        lemma_rejected_creates(rows, prefix, name);
        assert(reqs.last().name == name);
    }
}

/// A patch takes effect whole or not at all: when it does not succeed the
/// records are unchanged, and when it does, every field that it sets is
/// set on its record and no other record changes.
pub proof fn law_update_all_or_nothing(rows: Seq<ResourceView>, p: UpdateView)
    ensures
        update_reply(rows, p) != Reply::Ok(Ok(())) ==> update_effect(rows, p) == rows,
        update_reply(rows, p) == Reply::Ok(Ok(())) ==> forall|i: int|
            0 <= i < rows.len() ==> #[trigger] update_effect(rows, p)[i] == if rows[i].name
                == p.name {
                p.patch(rows[i])
            } else {
                rows[i]
            },
{
}

/// One write to the records: a create, a patch, or a sweep at some time.
pub enum Write {
    Create(ResourceView),
    Update(UpdateView),
    Sweep(UnixTime),
}

/// The records after one write.
pub open spec fn after_write(rows: Seq<ResourceView>, w: Write) -> Seq<ResourceView> {
    match w {
        Write::Create(res) => create_effect(rows, res),
        Write::Update(p) => update_effect(rows, p),
        Write::Sweep(now) => swept(rows, now),
    }
}

/// The records after a series of writes, first to last.
pub open spec fn after_writes(rows: Seq<ResourceView>, ws: Seq<Write>) -> Seq<ResourceView>
    decreases ws.len(),
{
    if ws.len() == 0 {
        rows
    } else {
        after_write(after_writes(rows, ws.drop_last()), ws.last())
    }
}

/// Lease fields stay paired on every record through any series of creates,
/// sweeps and patches, as long as each patch sets both lease fields in
/// agreement or neither of them. A create needs nothing of the record it is
/// given: it is stored unreserved.
pub proof fn law_pairing_kept(rows: Seq<ResourceView>, ws: Seq<Write>)
    requires
        all_paired(rows),
        forall|k: int| 0 <= k < ws.len() && #[trigger] ws[k] is Update ==> ws[k]->Update_0.keeps_pairing(),
    ensures
        all_paired(after_writes(rows, ws)),
    decreases ws.len(),
{
    if ws.len() > 0 {
        let prefix = ws.drop_last();
        assert forall|k: int| 0 <= k < prefix.len() && #[trigger] prefix[k] is Update implies prefix[k]->Update_0.keeps_pairing() by {
            assert(prefix[k] == ws[k]);
        }
        law_pairing_kept(rows, prefix);
        let before = after_writes(rows, prefix);
        let w = ws.last();
        assert(w == ws[ws.len() - 1]);
        let after = after_write(before, w);
        assert forall|i: int| 0 <= i < after.len() implies #[trigger] after[i].paired() by {
            if i < before.len() {
                assert(before[i].paired());
            }
        }
    }
}

/// A second sweep at the same time changes nothing and finds no lease to
/// clear.
pub proof fn law_sweep_idempotent(rows: Seq<ResourceView>, now: UnixTime)
    ensures
        swept(swept(rows, now), now) == swept(rows, now),
        expired_count(swept(rows, now), now) == 0,
{
    assert(swept(swept(rows, now), now) =~= swept(rows, now));
    lemma_no_expired(swept(rows, now), now);
}

proof fn lemma_no_expired(rows: Seq<ResourceView>, now: UnixTime)
    requires
        forall|i: int| 0 <= i < rows.len() ==> !lease_expired(#[trigger] rows[i].reserved_until, now),
    ensures
        expired_count(rows, now) == 0,
    decreases rows.len(),
{
    if rows.len() > 0 {
        lemma_no_expired(rows.drop_last(), now);
    }
}

/// Patching or deleting a name that no record has is a request error and
/// leaves the records unchanged (for a patch that sets at least one field:
/// an empty patch runs no statement at all).
pub proof fn law_missing_record(rows: Seq<ResourceView>, p: UpdateView)
    requires
        !holds_name(rows, p.name),
        p.touches_any(),
    ensures
        update_reply(rows, p) == Reply::Ok(Err(RequestError::NotFound)),
        update_effect(rows, p) == rows,
        delete_reply(rows, p.name) == Reply::Ok(Err(RequestError::NotFound)),
        delete_effect(rows, p.name) == rows,
{
}

/// A record created under a free name is stored as given, entries
/// included, but unreserved: listing the records afterwards returns it so.
pub proof fn law_round_trip(rows: Seq<ResourceView>, res: ResourceView)
    requires
        !holds_name(rows, res.name),
    ensures
        create_reply(rows, res) == Reply::Ok(Ok(())),
        create_effect(rows, res).len() == rows.len() + 1,
        create_effect(rows, res)[rows.len() as int] == res.released(),
        create_effect(rows, res)[rows.len() as int].name == res.name,
        create_effect(rows, res)[rows.len() as int].description == res.description,
        create_effect(rows, res)[rows.len() as int].other_fields == res.other_fields,
        create_effect(rows, res)[rows.len() as int].reserved_until == 0,
        create_effect(rows, res)[rows.len() as int].reserved_by.len() == 0,
{
}

} // verus!
