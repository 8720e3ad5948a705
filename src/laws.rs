//! Laws of reconciliation, proved over the store's view.

use vstd::prelude::*;
use crate::app_data::{AppDataView, AppItemView, ScheduleView, Timestamp};
use crate::input::AppFileInput;
use crate::items::{changed_from_spec, new_row, ItemView};
use crate::schedule::{has_prefix, job_id_spec, job_prefix_spec, job_spec, lemma_job_id_has_prefix, names_job, unscheduled, JobView};
use crate::store::{
    app_row_after, converge_jobs_spec, drop_items_spec, drop_jobs_spec, handle_change_spec,
    handle_input_spec, ids_of, put_jobs_spec, reconcile_items, remove_app_spec, resurface_spec,
    run_inputs, StoreView,
};

verus! {

/// The index of the last submitted item with id `id`, or -1.
pub open spec fn last_index(subs: Seq<AppItemView>, id: Seq<char>) -> int
    decreases subs.len(),
{
    if subs.len() == 0 {
        -1
    } else if subs.last().id == id {
        subs.len() - 1
    } else {
        last_index(subs.drop_last(), id)
    }
}

/// Whether some submitted item with id `id` resurfaces against `c`.
pub open spec fn any_resurface(c: Map<(Seq<char>, Seq<char>), ItemView>, app_id: Seq<char>, subs: Seq<AppItemView>, id: Seq<char>) -> bool {
    exists|q: int| 0 <= q < subs.len() && #[trigger] subs[q].id == id && resurface_spec(c, app_id, subs[q])
}

/// The row for key `(app_id, id)` after reconciling: the fields of the last
/// submitted item with that id, the creation time it had (or `now`), and a
/// dismissed flag that survives only when no occurrence resurfaces.
pub open spec fn reconciled_row(
    m: Map<(Seq<char>, Seq<char>), ItemView>,
    c: Map<(Seq<char>, Seq<char>), ItemView>,
    app_id: Seq<char>,
    subs: Seq<AppItemView>,
    now: Timestamp,
    id: Seq<char>,
) -> ItemView {
    let row = new_row(app_id, subs[last_index(subs, id)], now);
    let k = (app_id, id);
    ItemView {
        created_at: if m.contains_key(k) { m[k].created_at } else { now },
        dismissed: m.contains_key(k) && m[k].dismissed && !any_resurface(c, app_id, subs, id),
        ..row
    }
}

pub proof fn lemma_last_index(subs: Seq<AppItemView>, id: Seq<char>, q: int)
    requires
        0 <= q < subs.len(),
        subs[q].id == id,
    ensures
        q <= last_index(subs, id) < subs.len(),
        subs[last_index(subs, id)].id == id,
    decreases subs.len(),
{
    if subs.last().id != id {
        assert(subs.drop_last()[q] == subs[q]);
        lemma_last_index(subs.drop_last(), id, q);
    }
}

/// Keys that no submitted item names are left as they were.
pub proof fn lemma_reconcile_frame(
    m: Map<(Seq<char>, Seq<char>), ItemView>,
    c: Map<(Seq<char>, Seq<char>), ItemView>,
    app_id: Seq<char>,
    subs: Seq<AppItemView>,
    now: Timestamp,
    k: (Seq<char>, Seq<char>),
)
    requires
        forall|j: int| 0 <= j < subs.len() ==> (app_id, #[trigger] subs[j].id) != k,
    ensures
        reconcile_items(m, c, app_id, subs, now).contains_key(k) == m.contains_key(k),
        m.contains_key(k) ==> reconcile_items(m, c, app_id, subs, now)[k] == m[k],
    decreases subs.len(),
{
    if subs.len() > 0 {
        assert((app_id, subs[subs.len() - 1].id) != k);
        lemma_reconcile_frame(m, c, app_id, subs.drop_last(), now, k);
    }
}

/// The row of each submitted id after reconciling.
pub proof fn lemma_reconcile_at(
    m: Map<(Seq<char>, Seq<char>), ItemView>,
    c: Map<(Seq<char>, Seq<char>), ItemView>,
    app_id: Seq<char>,
    subs: Seq<AppItemView>,
    now: Timestamp,
    j: int,
)
    requires
        0 <= j < subs.len(),
    ensures
        reconcile_items(m, c, app_id, subs, now).contains_key((app_id, subs[j].id)),
        reconcile_items(m, c, app_id, subs, now)[(app_id, subs[j].id)] == reconciled_row(m, c, app_id, subs, now, subs[j].id),
    decreases subs.len(),
{
    let id = subs[j].id;
    let k = (app_id, id);
    let init = subs.drop_last();
    let n = subs.len();
    let in_init = exists|q: int| 0 <= q < init.len() && #[trigger] init[q].id == id;
    if in_init {
        let q = choose|q: int| 0 <= q < init.len() && #[trigger] init[q].id == id;
        lemma_reconcile_at(m, c, app_id, init, now, q);
    } else {
        assert forall|q: int| 0 <= q < init.len() implies (app_id, #[trigger] init[q].id) != k by {}
        lemma_reconcile_frame(m, c, app_id, init, now, k);
    }
    assert forall|q: int| 0 <= q < init.len() implies #[trigger] init[q] == subs[q] by {}
    if subs.last().id == id {
        assert(last_index(subs, id) == n - 1);
        if !in_init {
            assert(any_resurface(c, app_id, subs, id) == resurface_spec(c, app_id, subs[n - 1])) by {
                if any_resurface(c, app_id, subs, id) {
                    let q = choose|q: int| 0 <= q < subs.len() && #[trigger] subs[q].id == id && resurface_spec(c, app_id, subs[q]);
                    if q < n - 1 {
                        assert(init[q].id == id);
                    }
                }
            }
        } else {
            assert(any_resurface(c, app_id, subs, id) == (any_resurface(c, app_id, init, id) || resurface_spec(c, app_id, subs[n - 1]))) by {
                if any_resurface(c, app_id, subs, id) {
                    let q = choose|q: int| 0 <= q < subs.len() && #[trigger] subs[q].id == id && resurface_spec(c, app_id, subs[q]);
                    if q < n - 1 {
                        assert(init[q].id == id);
                    }
                }
                if any_resurface(c, app_id, init, id) {
                    let q = choose|q: int| 0 <= q < init.len() && #[trigger] init[q].id == id && resurface_spec(c, app_id, init[q]);
                    assert(subs[q].id == id);
                }
            }
        }
    } else {
        assert(j < n - 1);
        assert(init[j].id == id);
        lemma_last_index(init, id, j);
        assert(last_index(subs, id) == last_index(init, id));
        assert(subs[last_index(subs, id)] == init[last_index(init, id)]);
        assert(reconcile_items(m, c, app_id, subs, now)[k] == reconcile_items(m, c, app_id, init, now)[k]);
        assert(any_resurface(c, app_id, subs, id) == any_resurface(c, app_id, init, id)) by {
            if any_resurface(c, app_id, subs, id) {
                let q = choose|q: int| 0 <= q < subs.len() && #[trigger] subs[q].id == id && resurface_spec(c, app_id, subs[q]);
                assert(q < n - 1);
                assert(init[q].id == id);
            }
            if any_resurface(c, app_id, init, id) {
                let q = choose|q: int| 0 <= q < init.len() && #[trigger] init[q].id == id && resurface_spec(c, app_id, init[q]);
                assert(subs[q].id == id);
            }
        }
    }
}

/// Once any occurrence of a key resurfaces, the row is not dismissed.
pub proof fn lemma_reconcile_cleared(
    m: Map<(Seq<char>, Seq<char>), ItemView>,
    c: Map<(Seq<char>, Seq<char>), ItemView>,
    app_id: Seq<char>,
    subs: Seq<AppItemView>,
    now: Timestamp,
    j: int,
)
    requires
        0 <= j < subs.len(),
        resurface_spec(c, app_id, subs[j]),
    ensures
        reconcile_items(m, c, app_id, subs, now).contains_key((app_id, subs[j].id)),
        !reconcile_items(m, c, app_id, subs, now)[(app_id, subs[j].id)].dismissed,
    decreases subs.len(),
{
    let init = subs.drop_last();
    if j < subs.len() - 1 {
        assert(init[j] == subs[j]);
        lemma_reconcile_cleared(m, c, app_id, init, now, j);
    }
}

/// Two items that are both unchanged from a stored row are unchanged from
/// each other's new row.
proof fn lemma_unchanged_between(c: ItemView, app_id: Seq<char>, x: AppItemView, y: AppItemView, row: ItemView, now: Timestamp)
    requires
        x.id == y.id,
        !changed_from_spec(c, x),
        !changed_from_spec(c, y),
        row.id == y.id && row.state_key == y.state_key && row.data == y.data && row.persistent == y.persistent,
    ensures
        !changed_from_spec(row, x),
{
}

/// Dropping a prefix's jobs forgets what was inserted under that prefix.
proof fn lemma_drop_put_jobs(m: Map<Seq<char>, JobView>, app_id: Seq<char>, path: Seq<char>, scheds: Seq<ScheduleView>)
    ensures
        drop_jobs_spec(put_jobs_spec(m, app_id, path, scheds), job_prefix_spec(app_id)) == drop_jobs_spec(m, job_prefix_spec(app_id)),
    decreases scheds.len(),
{
    if scheds.len() > 0 {
        lemma_drop_put_jobs(m, app_id, path, scheds.drop_last());
        let j = job_spec(app_id, path, scheds.last());
        lemma_job_id_has_prefix(app_id, scheds.last().cron);
        let x = put_jobs_spec(m, app_id, path, scheds.drop_last());
        assert(drop_jobs_spec(x.insert(j.id, j), job_prefix_spec(app_id)) =~= drop_jobs_spec(x, job_prefix_spec(app_id)));
    }
}

/// The keys after inserting the jobs of some schedules.
pub proof fn lemma_put_jobs_dom(m: Map<Seq<char>, JobView>, app_id: Seq<char>, path: Seq<char>, scheds: Seq<ScheduleView>, k: Seq<char>)
    ensures
        put_jobs_spec(m, app_id, path, scheds).contains_key(k) <==> (m.contains_key(k) || exists|j: int|
            0 <= j < scheds.len() && job_id_spec(app_id, #[trigger] scheds[j].cron) == k),
    decreases scheds.len(),
{
    if scheds.len() > 0 {
        let init = scheds.drop_last();
        lemma_put_jobs_dom(m, app_id, path, init, k);
        if exists|j: int| 0 <= j < init.len() && job_id_spec(app_id, #[trigger] init[j].cron) == k {
            let j = choose|j: int| 0 <= j < init.len() && job_id_spec(app_id, #[trigger] init[j].cron) == k;
            assert(scheds[j] == init[j]);
        }
        if exists|j: int| 0 <= j < scheds.len() && job_id_spec(app_id, #[trigger] scheds[j].cron) == k {
            let j = choose|j: int| 0 <= j < scheds.len() && job_id_spec(app_id, #[trigger] scheds[j].cron) == k;
            if j < scheds.len() - 1 {
                assert(init[j] == scheds[j]);
            }
        }
    }
}

/// Submitting the same data twice at the same time leaves the store as the
/// first submission left it.
pub proof fn lemma_idempotent_reingest(v: StoreView, app_id: Seq<char>, d: AppDataView, merge: bool, now: Timestamp)
    ensures
        handle_change_spec(handle_change_spec(v, app_id, d, merge, now), app_id, d, merge, now)
            == handle_change_spec(v, app_id, d, merge, now),
{
    let v1 = handle_change_spec(v, app_id, d, merge, now);
    let v2 = handle_change_spec(v1, app_id, d, merge, now);
    assert(v1.apps[app_id] == app_row_after(v.apps, app_id, d, now));
    assert(app_row_after(v1.apps, app_id, d, now) == v1.apps[app_id]);
    assert(v2.apps =~= v1.apps);
    let pre = job_prefix_spec(app_id);
    lemma_drop_put_jobs(drop_jobs_spec(v.jobs, pre), app_id, d.path, d.schedule);
    assert(drop_jobs_spec(drop_jobs_spec(v.jobs, pre), pre) =~= drop_jobs_spec(v.jobs, pre));
    assert(v2.jobs == v1.jobs);
    let subs = d.items;
    let c = v.items;
    let x1 = reconcile_items(c, c, app_id, subs, now);
    let y = v1.items;
    let ids = ids_of(subs);
    assert forall|j: int| 0 <= j < subs.len() implies y.contains_key((app_id, #[trigger] subs[j].id))
        && y[(app_id, subs[j].id)] == x1[(app_id, subs[j].id)] by {
        lemma_reconcile_at(c, c, app_id, subs, now, j);
        assert(ids[j] == subs[j].id);
        assert(ids.contains(subs[j].id));
    }
    let r = reconcile_items(y, y, app_id, subs, now);
    assert forall|k: (Seq<char>, Seq<char>)| #[trigger] r.contains_key(k) == y.contains_key(k) && (r.contains_key(k) ==> r[k] == y[k]) by {
        if exists|j: int| 0 <= j < subs.len() && (app_id, #[trigger] subs[j].id) == k {
            let j = choose|j: int| 0 <= j < subs.len() && (app_id, #[trigger] subs[j].id) == k;
            let id = subs[j].id;
            lemma_reconcile_at(y, y, app_id, subs, now, j);
            lemma_reconcile_at(c, c, app_id, subs, now, j);
            lemma_last_index(subs, id, j);
            let l = last_index(subs, id);
            if y[k].dismissed {
                assert(!any_resurface(c, app_id, subs, id));
                assert(c.contains_key(k));
                assert forall|q: int| 0 <= q < subs.len() && #[trigger] subs[q].id == id implies !resurface_spec(y, app_id, subs[q]) by {
                    assert(!resurface_spec(c, app_id, subs[q]));
                    assert(!resurface_spec(c, app_id, subs[l]));
                    lemma_unchanged_between(c[k], app_id, subs[q], subs[l], y[k], now);
                }
                assert(!any_resurface(y, app_id, subs, id));
            }
            assert(r[k] == y[k]);
        } else {
            lemma_reconcile_frame(y, y, app_id, subs, now, k);
        }
    }
    assert(r =~= y);
    if !merge {
        assert(drop_items_spec(y, app_id, ids) =~= y);
    }
    assert(v2.items == v1.items);
}

/// An item that is dismissed stays dismissed when a submission brings it
/// back unchanged: the same state key, or none on either side and the same
/// displayed fields, in each of the submitted items with its id.
pub proof fn lemma_dismiss_preserved(v: StoreView, app_id: Seq<char>, d: AppDataView, merge: bool, now: Timestamp, j: int)
    requires
        0 <= j < d.items.len(),
        v.items.contains_key((app_id, d.items[j].id)),
        v.items[(app_id, d.items[j].id)].dismissed,
        forall|q: int| 0 <= q < d.items.len() && #[trigger] d.items[q].id == d.items[j].id
            ==> !changed_from_spec(v.items[(app_id, d.items[j].id)], d.items[q]),
    ensures
        handle_change_spec(v, app_id, d, merge, now).items.contains_key((app_id, d.items[j].id)),
        handle_change_spec(v, app_id, d, merge, now).items[(app_id, d.items[j].id)].dismissed,
{
    lemma_reconcile_at(v.items, v.items, app_id, d.items, now, j);
    assert(ids_of(d.items)[j] == d.items[j].id);
    assert(!any_resurface(v.items, app_id, d.items, d.items[j].id));
}

/// An item stored with one state key and dismissed comes back when a
/// submission gives it another state key.
pub proof fn lemma_resurface_on_change(v: StoreView, app_id: Seq<char>, d: AppDataView, merge: bool, now: Timestamp, j: int)
    requires
        0 <= j < d.items.len(),
        v.items.contains_key((app_id, d.items[j].id)),
        v.items[(app_id, d.items[j].id)].state_key is Some,
        d.items[j].state_key is Some,
        v.items[(app_id, d.items[j].id)].state_key != d.items[j].state_key,
    ensures
        handle_change_spec(v, app_id, d, merge, now).items.contains_key((app_id, d.items[j].id)),
        !handle_change_spec(v, app_id, d, merge, now).items[(app_id, d.items[j].id)].dismissed,
{
    lemma_reconcile_cleared(v.items, v.items, app_id, d.items, now, j);
    assert(ids_of(d.items)[j] == d.items[j].id);
}

/// Without merging, the app's items that the submission leaves out are gone;
/// with merging, they stay as they were.
pub proof fn lemma_deletion(v: StoreView, app_id: Seq<char>, d: AppDataView, merge: bool, now: Timestamp, k: (Seq<char>, Seq<char>))
    requires
        k.0 == app_id,
        !ids_of(d.items).contains(k.1),
    ensures
        !merge ==> !handle_change_spec(v, app_id, d, merge, now).items.contains_key(k),
        merge && v.items.contains_key(k) ==> handle_change_spec(v, app_id, d, merge, now).items.contains_key(k)
            && handle_change_spec(v, app_id, d, merge, now).items[k] == v.items[k],
{
    assert forall|j: int| 0 <= j < d.items.len() implies (app_id, #[trigger] d.items[j].id) != k by {
        assert(ids_of(d.items)[j] == d.items[j].id);
    }
    lemma_reconcile_frame(v.items, v.items, app_id, d.items, now, k);
}

/// After a submission, the app's jobs are exactly one per schedule:
/// `"{app_id}:{cron}"`.
pub proof fn lemma_schedule_convergence(v: StoreView, app_id: Seq<char>, d: AppDataView, merge: bool, now: Timestamp, k: Seq<char>)
    ensures
        handle_change_spec(v, app_id, d, merge, now).jobs.contains_key(k) && has_prefix(k, job_prefix_spec(app_id))
            <==> exists|j: int| 0 <= j < d.schedule.len() && k == job_id_spec(app_id, #[trigger] d.schedule[j].cron),
{
    let pre = job_prefix_spec(app_id);
    lemma_put_jobs_dom(drop_jobs_spec(v.jobs, pre), app_id, d.path, d.schedule, k);
    if exists|j: int| 0 <= j < d.schedule.len() && k == job_id_spec(app_id, #[trigger] d.schedule[j].cron) {
        let j = choose|j: int| 0 <= j < d.schedule.len() && k == job_id_spec(app_id, #[trigger] d.schedule[j].cron);
        lemma_job_id_has_prefix(app_id, d.schedule[j].cron);
    }
}

/// Removing an app leaves none of its items and none of its jobs.
pub proof fn lemma_cascading_removal(v: StoreView, app_id: Seq<char>, k: (Seq<char>, Seq<char>), id: Seq<char>)
    ensures
        !remove_app_spec(v, app_id).apps.contains_key(app_id),
        remove_app_spec(v, app_id).items.contains_key(k) ==> k.0 != app_id,
        remove_app_spec(v, app_id).jobs.contains_key(id) ==> !has_prefix(id, job_prefix_spec(app_id)),
{
}

/// Two inputs handled in order leave the store as handling the first and
/// then the second does.
pub proof fn lemma_ordering(v: StoreView, a: AppFileInput, b: AppFileInput, now: Timestamp)
    ensures
        run_inputs(v, seq![a, b], now) == handle_input_spec(handle_input_spec(v, a, now), b, now),
{
    let s = seq![a, b];
    assert(s.drop_last() =~= seq![a]);
    assert(seq![a].drop_last() =~= Seq::<AppFileInput>::empty());
    assert(s.last() == b);
    assert(seq![a].last() == a);
    assert(run_inputs(v, Seq::<AppFileInput>::empty(), now) == v);
    assert(run_inputs(v, seq![a], now) == handle_input_spec(v, a, now));
}

/// A submission whose version is below the stored one leaves the app's name,
/// path and display hints alone, and reconciles its items and jobs as an
/// accepted one would.
pub proof fn lemma_version_guard(v: StoreView, app_id: Seq<char>, d: AppDataView, merge: bool, now: Timestamp)
    requires
        v.apps.contains_key(app_id),
        d.version != 0,
        d.version < v.apps[app_id].version,
    ensures
        handle_change_spec(v, app_id, d, merge, now).apps[app_id].name == v.apps[app_id].name,
        handle_change_spec(v, app_id, d, merge, now).apps[app_id].path == v.apps[app_id].path,
        handle_change_spec(v, app_id, d, merge, now).apps[app_id].ui == v.apps[app_id].ui,
        handle_change_spec(v, app_id, d, merge, now).apps[app_id].version == v.apps[app_id].version,
        handle_change_spec(v, app_id, d, merge, now).items
            == handle_change_spec(v, app_id, AppDataView { version: v.apps[app_id].version, ..d }, merge, now).items,
        handle_change_spec(v, app_id, d, merge, now).jobs
            == handle_change_spec(v, app_id, AppDataView { version: v.apps[app_id].version, ..d }, merge, now).jobs,
{
}

/// Reconciling never dismisses an item: a row that is dismissed afterwards
/// was stored and dismissed before.
pub proof fn lemma_reconciler_never_dismisses(v: StoreView, app_id: Seq<char>, d: AppDataView, merge: bool, now: Timestamp, k: (Seq<char>, Seq<char>))
    requires
        handle_change_spec(v, app_id, d, merge, now).items.contains_key(k),
        handle_change_spec(v, app_id, d, merge, now).items[k].dismissed,
    ensures
        v.items.contains_key(k),
        v.items[k].dismissed,
{
    if exists|j: int| 0 <= j < d.items.len() && (app_id, #[trigger] d.items[j].id) == k {
        let j = choose|j: int| 0 <= j < d.items.len() && (app_id, #[trigger] d.items[j].id) == k;
        lemma_reconcile_at(v.items, v.items, app_id, d.items, now, j);
    } else {
        lemma_reconcile_frame(v.items, v.items, app_id, d.items, now, k);
    }
}

/// Reconciling keeps the creation time of every stored item that remains.
pub proof fn lemma_created_at_kept(v: StoreView, app_id: Seq<char>, d: AppDataView, merge: bool, now: Timestamp, k: (Seq<char>, Seq<char>))
    requires
        v.items.contains_key(k),
        handle_change_spec(v, app_id, d, merge, now).items.contains_key(k),
    ensures
        handle_change_spec(v, app_id, d, merge, now).items[k].created_at == v.items[k].created_at,
{
    if exists|j: int| 0 <= j < d.items.len() && (app_id, #[trigger] d.items[j].id) == k {
        let j = choose|j: int| 0 <= j < d.items.len() && (app_id, #[trigger] d.items[j].id) == k;
        lemma_reconcile_at(v.items, v.items, app_id, d.items, now, j);
    } else {
        lemma_reconcile_frame(v.items, v.items, app_id, d.items, now, k);
    }
}

/// The ids that `unscheduled` keeps.
pub proof fn lemma_unscheduled_contains(existing: Seq<Seq<char>>, app_id: Seq<char>, scheds: Seq<ScheduleView>, k: Seq<char>)
    ensures
        unscheduled(existing, app_id, scheds).contains(k) <==> existing.contains(k) && !names_job(app_id, scheds, k),
    decreases existing.len(),
{
    if existing.len() > 0 {
        let init = existing.drop_last();
        lemma_unscheduled_contains(init, app_id, scheds, k);
        let rest = unscheduled(init, app_id, scheds);
        if !names_job(app_id, scheds, existing.last()) {
            assert(rest.push(existing.last())[rest.len() as int] == existing.last());
            if rest.push(existing.last()).contains(k) {
                let i = choose|i: int| 0 <= i < rest.push(existing.last()).len() && rest.push(existing.last())[i] == k;
                if i < rest.len() {
                    assert(rest[i] == k);
                }
            }
            if rest.contains(k) {
                let i = choose|i: int| 0 <= i < rest.len() && rest[i] == k;
                assert(rest.push(existing.last())[i] == k);
            }
        }
        if existing.contains(k) {
            let i = choose|i: int| 0 <= i < existing.len() && existing[i] == k;
            if i < existing.len() - 1 {
                assert(init[i] == k);
            }
        }
        if init.contains(k) {
            let i = choose|i: int| 0 <= i < init.len() && init[i] == k;
            assert(existing[i] == k);
        }
    }
}

/// A key that a job of the schedules has holds the same job whatever the
/// jobs were before; any other key keeps its job.
pub proof fn lemma_put_jobs_at(
    m1: Map<Seq<char>, JobView>,
    m2: Map<Seq<char>, JobView>,
    app_id: Seq<char>,
    path: Seq<char>,
    scheds: Seq<ScheduleView>,
    k: Seq<char>,
)
    ensures
        names_job(app_id, scheds, k) ==> put_jobs_spec(m1, app_id, path, scheds)[k] == put_jobs_spec(m2, app_id, path, scheds)[k],
        !names_job(app_id, scheds, k) ==> put_jobs_spec(m1, app_id, path, scheds)[k] == m1[k],
    decreases scheds.len(),
{
    if scheds.len() > 0 {
        let init = scheds.drop_last();
        lemma_put_jobs_at(m1, m2, app_id, path, init, k);
        if names_job(app_id, init, k) {
            let j = choose|j: int| 0 <= j < init.len() && job_id_spec(app_id, init[j].cron) == k;
            assert(scheds[j] == init[j]);
        }
        if names_job(app_id, scheds, k) && job_id_spec(app_id, scheds.last().cron) != k {
            let j = choose|j: int| 0 <= j < scheds.len() && job_id_spec(app_id, scheds[j].cron) == k;
            assert(j < scheds.len() - 1);
            assert(init[j] == scheds[j]);
        }
        if !names_job(app_id, scheds, k) {
            assert(job_id_spec(app_id, scheds[scheds.len() - 1].cron) != k);
            assert forall|j: int| 0 <= j < init.len() implies job_id_spec(app_id, init[j].cron) != k by {
                assert(init[j] == scheds[j]);
            }
        }
    }
}

/// Carrying out a registry plan, given the ids of the app's jobs that exist
/// (those with its prefix), leaves the jobs that reconciling the app leaves:
/// the plan's jobs are inserted or replaced, then its removals deleted.
pub proof fn lemma_plan_converges(
    m: Map<Seq<char>, JobView>,
    existing: Seq<Seq<char>>,
    app_id: Seq<char>,
    path: Seq<char>,
    scheds: Seq<ScheduleView>,
)
    requires
        forall|k: Seq<char>| (m.contains_key(k) && has_prefix(k, job_prefix_spec(app_id))) <==> #[trigger] existing.contains(k),
    ensures
        put_jobs_spec(m, app_id, path, scheds).remove_keys(unscheduled(existing, app_id, scheds).to_set())
            == converge_jobs_spec(m, app_id, path, scheds),
{
    let pre = job_prefix_spec(app_id);
    let lhs = put_jobs_spec(m, app_id, path, scheds).remove_keys(unscheduled(existing, app_id, scheds).to_set());
    let rhs = converge_jobs_spec(m, app_id, path, scheds);
    assert forall|k: Seq<char>| #[trigger] lhs.contains_key(k) == rhs.contains_key(k) && (lhs.contains_key(k) ==> lhs[k] == rhs[k]) by {
        lemma_unscheduled_contains(existing, app_id, scheds, k);
        lemma_put_jobs_dom(m, app_id, path, scheds, k);
        lemma_put_jobs_dom(drop_jobs_spec(m, pre), app_id, path, scheds, k);
        lemma_put_jobs_at(m, drop_jobs_spec(m, pre), app_id, path, scheds, k);
        lemma_put_jobs_at(drop_jobs_spec(m, pre), m, app_id, path, scheds, k);
        if names_job(app_id, scheds, k) {
            let j = choose|j: int| 0 <= j < scheds.len() && job_id_spec(app_id, scheds[j].cron) == k;
            lemma_job_id_has_prefix(app_id, scheds[j].cron);
            assert(exists|j: int| 0 <= j < scheds.len() && job_id_spec(app_id, #[trigger] scheds[j].cron) == k);
        } else {
            assert(!exists|j: int| 0 <= j < scheds.len() && job_id_spec(app_id, #[trigger] scheds[j].cron) == k);
        }
    }
    assert(lhs =~= rhs);
}

} // verus!
