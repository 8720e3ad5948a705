//! The store: apps, their items and the recurring-job registry, with the
//! operations that the reconciler and the read side perform on them.

use vstd::prelude::*;
use crate::app_data::{app_items_view, schedules_view, opt_view, ui_view, AppData, AppDataView, AppItemView, AppSchedule, AppUiInfo, ScheduleView, Timestamp, UiView};
use crate::error::Error;
use crate::input::{AppFileContents, AppFileInput};
use crate::items::{changed_from_spec, new_row, AppInfo, AppInfoView, AppItems, Item, ItemView, items_view};
use crate::schedule::{
    has_prefix, job_prefix, job_prefix_spec, job_spec, jobs_view, starts_with, strings_view, JobView,
    RecurringJob,
};
use crate::table::{
    keyed, unique, lemma_keyed_at, lemma_keyed_dom, lemma_keyed_filter_step, lemma_keyed_push,
    lemma_keyed_update, lemma_unique_push_filtered,
};

verus! {

pub open spec fn item_key_fn() -> spec_fn(ItemView) -> (Seq<char>, Seq<char>) {
    |v: ItemView| (v.app_id, v.id)
}

pub open spec fn app_key_fn() -> spec_fn(AppRowView) -> Seq<char> {
    |v: AppRowView| v.id
}

pub open spec fn job_key_fn() -> spec_fn(JobView) -> Seq<char> {
    |v: JobView| v.id
}

/// An app as the store holds it.
pub struct StoredApp {
    pub id: String,
    pub name: String,
    pub path: String,
    pub ui: Option<AppUiInfo>,
    /// The version of the metadata held
    pub version: u32,
    /// The last error met while reading the app's data
    pub error: Option<String>,
    pub updated_at: Timestamp,
}

pub struct AppRowView {
    pub id: Seq<char>,
    pub name: Seq<char>,
    pub path: Seq<char>,
    pub ui: Option<UiView>,
    pub version: u32,
    pub error: Option<Seq<char>>,
    pub updated_at: Timestamp,
}

impl View for StoredApp {
    type V = AppRowView;

    open spec fn view(&self) -> AppRowView {
        AppRowView {
            id: self.id@,
            name: self.name@,
            path: self.path@,
            ui: ui_view(self.ui),
            version: self.version,
            error: opt_view(self.error),
            updated_at: self.updated_at,
        }
    }
}

pub open spec fn app_rows_view(s: Seq<StoredApp>) -> Seq<AppRowView> {
    s.map_values(|a: StoredApp| a@)
}

/// The kinds of event in the audit log.
#[derive(Clone, Copy, Debug, PartialEq, Eq, Structural)]
pub enum EventType {
    /// An item was created for the first time
    CreateItem,
    /// An existing item was updated
    UpdateItem,
    /// An item was removed
    RemoveItem,
    /// An app and its items were removed
    RemoveApp,
    /// A scheduled app was run
    ScheduledRun,
}

/// An entry of the audit log.
pub struct Event {
    pub event_type: EventType,
    pub app_id: String,
    pub item_id: Option<String>,
    /// A payload, as JSON text
    pub data: Option<String>,
    pub ts: Timestamp,
}

pub struct EventView {
    pub event_type: EventType,
    pub app_id: Seq<char>,
    pub item_id: Option<Seq<char>>,
    pub data: Option<Seq<char>>,
    pub ts: Timestamp,
}

impl View for Event {
    type V = EventView;

    open spec fn view(&self) -> EventView {
        EventView {
            event_type: self.event_type,
            app_id: self.app_id@,
            item_id: opt_view(self.item_id),
            data: opt_view(self.data),
            ts: self.ts,
        }
    }
}

/// What the store holds: apps by id, items by app id and item id, jobs by
/// id, and the audit log.
pub struct StoreView {
    pub apps: Map<Seq<char>, AppRowView>,
    pub items: Map<(Seq<char>, Seq<char>), ItemView>,
    pub jobs: Map<Seq<char>, JobView>,
    pub events: Seq<EventView>,
}

/// Every item belongs to an app that the store holds, under its own key.
pub open spec fn consistent(v: StoreView) -> bool {
    &&& forall|k: (Seq<char>, Seq<char>)| #[trigger] v.items.contains_key(k) ==> v.apps.contains_key(k.0)
    &&& forall|k: (Seq<char>, Seq<char>)| #[trigger] v.items.contains_key(k) ==> k == (v.items[k].app_id, v.items[k].id)
    &&& forall|k: Seq<char>| #[trigger] v.apps.contains_key(k) ==> v.apps[k].id == k
    &&& forall|k: Seq<char>| #[trigger] v.jobs.contains_key(k) ==> v.jobs[k].id == k
}

pub open spec fn empty_view() -> StoreView {
    StoreView { apps: Map::empty(), items: Map::empty(), jobs: Map::empty(), events: Seq::empty() }
}

/// The store.
pub struct Store {
    apps: Vec<StoredApp>,
    items: Vec<Item>,
    jobs: Vec<RecurringJob>,
    events: Vec<Event>,
}

impl View for Store {
    type V = StoreView;

    closed spec fn view(&self) -> StoreView {
        StoreView {
            apps: keyed(app_rows_view(self.apps@), app_key_fn()),
            items: keyed(items_view(self.items@), item_key_fn()),
            jobs: keyed(jobs_view(self.jobs@), job_key_fn()),
            events: self.events@.map_values(|e: Event| e@),
        }
    }
}

/// Removes from a map of items those of app `app_id` whose id `keep` does not hold.
pub open spec fn drop_items_spec(
    m: Map<(Seq<char>, Seq<char>), ItemView>,
    app_id: Seq<char>,
    keep: Seq<Seq<char>>,
) -> Map<(Seq<char>, Seq<char>), ItemView> {
    m.filter_keys(keep_items_fn(app_id, keep))
}

pub open spec fn keep_items_fn(app_id: Seq<char>, keep: Seq<Seq<char>>) -> spec_fn((Seq<char>, Seq<char>)) -> bool {
    |k: (Seq<char>, Seq<char>)| !(k.0 == app_id && !keep.contains(k.1))
}

pub open spec fn keep_jobs_fn(prefix: Seq<char>) -> spec_fn(Seq<char>) -> bool {
    |k: Seq<char>| !has_prefix(k, prefix)
}

pub open spec fn keep_apps_fn(app_id: Seq<char>) -> spec_fn(Seq<char>) -> bool {
    |k: Seq<char>| k != app_id
}

/// Removes from a map of jobs those whose id starts with `prefix`.
pub open spec fn drop_jobs_spec(m: Map<Seq<char>, JobView>, prefix: Seq<char>) -> Map<Seq<char>, JobView> {
    m.filter_keys(keep_jobs_fn(prefix))
}

/// The row that an upsert leaves for `row`: the stored one keeps its creation
/// time and, unless `resurface`, its dismissed flag; a new one is not dismissed.
pub open spec fn upserted(m: Map<(Seq<char>, Seq<char>), ItemView>, row: ItemView, resurface: bool) -> ItemView {
    let k = (row.app_id, row.id);
    if m.contains_key(k) {
        ItemView {
            app_id: row.app_id,
            id: row.id,
            persistent: row.persistent,
            state_key: row.state_key,
            data: row.data,
            notify: row.notify,
            updated_at: row.updated_at,
            created_at: m[k].created_at,
            dismissed: !resurface && m[k].dismissed,
        }
    } else {
        ItemView {
            app_id: row.app_id,
            id: row.id,
            persistent: row.persistent,
            state_key: row.state_key,
            data: row.data,
            notify: row.notify,
            updated_at: row.updated_at,
            created_at: row.created_at,
            dismissed: false,
        }
    }
}

pub open spec fn upsert_row(m: Map<(Seq<char>, Seq<char>), ItemView>, row: ItemView, resurface: bool) -> Map<(Seq<char>, Seq<char>), ItemView> {
    m.insert((row.app_id, row.id), upserted(m, row, resurface))
}

/// The store after an upsert of `row`.
pub open spec fn upsert_item_spec(v: StoreView, row: ItemView, resurface: bool) -> StoreView {
    StoreView { items: upsert_row(v.items, row, resurface), ..v }
}

/// The store after the dismissed flag of an item is set, if it is there.
pub open spec fn set_dismissed_spec(v: StoreView, app_id: Seq<char>, item_id: Seq<char>, dismissed: bool) -> StoreView {
    let k = (app_id, item_id);
    if v.items.contains_key(k) {
        StoreView { items: v.items.insert(k, ItemView { dismissed, ..v.items[k] }), ..v }
    } else {
        v
    }
}

/// The store after the status of an app is set, if it is there.
pub open spec fn update_status_spec(v: StoreView, app_id: Seq<char>, error: Option<Seq<char>>, now: Timestamp) -> StoreView {
    if v.apps.contains_key(app_id) {
        StoreView { apps: v.apps.insert(app_id, AppRowView { error, updated_at: now, ..v.apps[app_id] }), ..v }
    } else {
        v
    }
}

/// Whether a submission with `version` may replace the stored metadata: a
/// submission without a version (zero) always may, another one only when its
/// version is at least the stored one.
pub open spec fn metadata_accepted(stored: AppRowView, version: u32) -> bool {
    version == 0 || version >= stored.version
}

/// The app row after a submission `d` for `app_id`; its error is cleared.
pub open spec fn app_row_after(apps: Map<Seq<char>, AppRowView>, app_id: Seq<char>, d: AppDataView, now: Timestamp) -> AppRowView {
    if apps.contains_key(app_id) && !metadata_accepted(apps[app_id], d.version) {
        AppRowView { error: None, updated_at: now, ..apps[app_id] }
    } else {
        AppRowView {
            id: app_id,
            name: d.name,
            path: d.path,
            ui: d.ui,
            version: if apps.contains_key(app_id) && d.version == 0 {
                apps[app_id].version
            } else {
                d.version
            },
            error: None,
            updated_at: now,
        }
    }
}

pub open spec fn upsert_app_spec(apps: Map<Seq<char>, AppRowView>, app_id: Seq<char>, d: AppDataView, now: Timestamp) -> Map<Seq<char>, AppRowView> {
    apps.insert(app_id, app_row_after(apps, app_id, d, now))
}

/// The jobs after one job per schedule is inserted or replaced, in order.
pub open spec fn put_jobs_spec(m: Map<Seq<char>, JobView>, app_id: Seq<char>, path: Seq<char>, scheds: Seq<ScheduleView>) -> Map<Seq<char>, JobView>
    decreases scheds.len(),
{
    if scheds.len() == 0 {
        m
    } else {
        let j = job_spec(app_id, path, scheds.last());
        put_jobs_spec(m, app_id, path, scheds.drop_last()).insert(j.id, j)
    }
}

/// The jobs after the app's jobs are brought in line with its schedules.
pub open spec fn converge_jobs_spec(m: Map<Seq<char>, JobView>, app_id: Seq<char>, path: Seq<char>, scheds: Seq<ScheduleView>) -> Map<Seq<char>, JobView> {
    put_jobs_spec(drop_jobs_spec(m, job_prefix_spec(app_id)), app_id, path, scheds)
}

/// Whether the submitted item `s` clears the user's dismissed flag: always
/// for a new item, else when it changed from the stored one.
pub open spec fn resurface_spec(current: Map<(Seq<char>, Seq<char>), ItemView>, app_id: Seq<char>, s: AppItemView) -> bool {
    let k = (app_id, s.id);
    if current.contains_key(k) {
        changed_from_spec(current[k], s)
    } else {
        true
    }
}

/// The items after each submitted item is upserted in order, with the
/// resurface decision taken against `current`.
pub open spec fn reconcile_items(
    m: Map<(Seq<char>, Seq<char>), ItemView>,
    current: Map<(Seq<char>, Seq<char>), ItemView>,
    app_id: Seq<char>,
    subs: Seq<AppItemView>,
    now: Timestamp,
) -> Map<(Seq<char>, Seq<char>), ItemView>
    decreases subs.len(),
{
    if subs.len() == 0 {
        m
    } else {
        upsert_row(
            reconcile_items(m, current, app_id, subs.drop_last(), now),
            new_row(app_id, subs.last(), now),
            resurface_spec(current, app_id, subs.last()),
        )
    }
}

pub open spec fn ids_of(subs: Seq<AppItemView>) -> Seq<Seq<char>> {
    subs.map_values(|s: AppItemView| s.id)
}

/// The store after submission `d` for app `app_id` is reconciled.
pub open spec fn handle_change_spec(v: StoreView, app_id: Seq<char>, d: AppDataView, merge: bool, now: Timestamp) -> StoreView {
    let items = reconcile_items(v.items, v.items, app_id, d.items, now);
    StoreView {
        apps: upsert_app_spec(v.apps, app_id, d, now),
        items: if merge {
            items
        } else {
            drop_items_spec(items, app_id, ids_of(d.items))
        },
        jobs: converge_jobs_spec(v.jobs, app_id, d.path, d.schedule),
        events: v.events,
    }
}

/// The store after app `app_id` is removed, with its items and its jobs.
pub open spec fn remove_app_spec(v: StoreView, app_id: Seq<char>) -> StoreView {
    StoreView {
        apps: v.apps.remove(app_id),
        items: drop_items_spec(v.items, app_id, Seq::empty()),
        jobs: drop_jobs_spec(v.jobs, job_prefix_spec(app_id)),
        events: v.events,
    }
}

/// The store after one input: an empty one removes the app, a parsed one is
/// reconciled.
pub open spec fn handle_input_spec(v: StoreView, input: AppFileInput, now: Timestamp) -> StoreView {
    match input.contents {
        AppFileContents::Empty => remove_app_spec(v, input.app_id@),
        AppFileContents::Parsed(d) => handle_change_spec(v, input.app_id@, d@, input.merge_items, now),
        AppFileContents::Raw(_) => v,
    }
}

/// The store after the inputs, in order.
pub open spec fn run_inputs(v: StoreView, inputs: Seq<AppFileInput>, now: Timestamp) -> StoreView
    decreases inputs.len(),
{
    if inputs.len() == 0 {
        v
    } else {
        handle_input_spec(run_inputs(v, inputs.drop_last(), now), inputs.last(), now)
    }
}

/// An app row as the read side shows it.
pub open spec fn info_of(r: AppRowView) -> AppInfoView {
    AppInfoView { id: r.id, name: r.name, path: r.path }
}

/// Selects the keys of app `app_id`'s items, only the undismissed ones when `active`.
pub open spec fn item_sel_fn(m: Map<(Seq<char>, Seq<char>), ItemView>, app_id: Seq<char>, active: bool) -> spec_fn((Seq<char>, Seq<char>)) -> bool {
    |k: (Seq<char>, Seq<char>)| k.0 == app_id && (!active || !m[k].dismissed)
}

pub open spec fn keep_listed_fn(ids: Seq<Seq<char>>) -> spec_fn(Seq<char>) -> bool {
    |k: Seq<char>| ids.contains(k)
}

pub open spec fn keep_active_fn(v: StoreView) -> spec_fn(Seq<char>) -> bool {
    |k: Seq<char>| has_active(v, k)
}

/// Whether the store holds an undismissed item of app `app_id`.
pub open spec fn has_active(v: StoreView, app_id: Seq<char>) -> bool {
    exists|k: (Seq<char>, Seq<char>)| #[trigger] v.items.contains_key(k) && k.0 == app_id && !v.items[k].dismissed
}

/// `g` is the group of app `g.app.id`: its info and all its undismissed items.
pub open spec fn is_active_group(v: StoreView, g: crate::items::AppItemsView) -> bool {
    &&& v.apps.contains_key(g.app.id)
    &&& g.app == info_of(v.apps[g.app.id])
    &&& g.items.len() > 0
    &&& unique(g.items, item_key_fn())
    &&& keyed(g.items, item_key_fn()) == v.items.filter_keys(item_sel_fn(v.items, g.app.id, true))
}

/// Whether `v` holds `s`.
pub fn contains_str(v: &Vec<String>, s: &String) -> (r: bool)
    ensures
        r == strings_view(v@).contains(s@),
{
    let mut i: usize = 0;
    while i < v.len()
        invariant
            i <= v.len(),
            forall|k: int| 0 <= k < i ==> v@[k]@ != s@,
        decreases v.len() - i,
    {
        if v[i] == *s {
            assert(strings_view(v@)[i as int] == s@);
            return true;
        }
        i = i + 1;
    }
    assert forall|k: int| 0 <= k < strings_view(v@).len() implies strings_view(v@)[k] != s@ by {
        assert(v@[k]@ != s@);
    }
    false
}

impl Store {
    pub closed spec fn wf(&self) -> bool {
        &&& unique(app_rows_view(self.apps@), app_key_fn())
        &&& unique(items_view(self.items@), item_key_fn())
        &&& unique(jobs_view(self.jobs@), job_key_fn())
        &&& consistent(self@)
    }

    /// A well-formed store is consistent: each item belongs to a stored app.
    pub proof fn lemma_consistent(&self)
        requires
            self.wf(),
        ensures
            consistent(self@),
    {
    }

    /// An empty store.
    pub fn new() -> (r: Store)
        ensures
            r.wf(),
            r@ == empty_view(),
    {
        let r = Store { apps: Vec::new(), items: Vec::new(), jobs: Vec::new(), events: Vec::new() };
        assert(app_rows_view(r.apps@) =~= Seq::empty());
        assert(items_view(r.items@) =~= Seq::empty());
        assert(jobs_view(r.jobs@) =~= Seq::empty());
        assert(r@.events =~= Seq::empty());
        assert(r@.apps =~= Map::empty());
        assert(r@.items =~= Map::empty());
        assert(r@.jobs =~= Map::empty());
        r
    }

    fn find_app(&self, id: &String) -> (r: Option<usize>)
        requires
            self.wf(),
        ensures
            match r {
                Some(i) => i < self.apps@.len() && self.apps@[i as int]@.id == id@
                    && self@.apps.contains_key(id@) && self@.apps[id@] == self.apps@[i as int]@,
                None => !self@.apps.contains_key(id@),
            },
    {
        let ghost s = app_rows_view(self.apps@);
        let mut i: usize = 0;
        while i < self.apps.len()
            invariant
                i <= self.apps@.len(),
                s == app_rows_view(self.apps@),
                self.wf(),
                forall|k: int| 0 <= k < i ==> #[trigger] self.apps@[k]@.id != id@,
            decreases self.apps@.len() - i,
        {
            if self.apps[i].id == *id {
                proof {
                    lemma_keyed_at(s, app_key_fn(), i as int);
                }
                return Some(i);
            }
            i = i + 1;
        }
        proof {
            lemma_keyed_dom(s, app_key_fn(), id@);
            assert forall|k: int| 0 <= k < s.len() implies s[k].id != id@ by {
                assert(s[k] == self.apps@[k]@);
            }
        }
        None
    }

    fn find_item(&self, app_id: &String, id: &String) -> (r: Option<usize>)
        requires
            self.wf(),
        ensures
            match r {
                Some(i) => i < self.items@.len() && self.items@[i as int]@.app_id == app_id@
                    && self.items@[i as int]@.id == id@
                    && self@.items.contains_key((app_id@, id@))
                    && self@.items[(app_id@, id@)] == self.items@[i as int]@,
                None => !self@.items.contains_key((app_id@, id@)),
            },
    {
        let ghost s = items_view(self.items@);
        let mut i: usize = 0;
        while i < self.items.len()
            invariant
                i <= self.items@.len(),
                s == items_view(self.items@),
                self.wf(),
                forall|k: int| 0 <= k < i ==> (#[trigger] self.items@[k]@.app_id, self.items@[k]@.id) != (app_id@, id@),
            decreases self.items@.len() - i,
        {
            if self.items[i].app_id == *app_id && self.items[i].id == *id {
                proof {
                    lemma_keyed_at(s, item_key_fn(), i as int);
                }
                return Some(i);
            }
            i = i + 1;
        }
        proof {
            lemma_keyed_dom(s, item_key_fn(), (app_id@, id@));
            assert forall|k: int| 0 <= k < s.len() implies (s[k].app_id, s[k].id) != (app_id@, id@) by {
                assert(s[k] == self.items@[k]@);
            }
        }
        None
    }

    fn find_job(&self, id: &String) -> (r: Option<usize>)
        requires
            self.wf(),
        ensures
            match r {
                Some(i) => i < self.jobs@.len() && self.jobs@[i as int]@.id == id@
                    && self@.jobs.contains_key(id@),
                None => !self@.jobs.contains_key(id@),
            },
    {
        let ghost s = jobs_view(self.jobs@);
        let mut i: usize = 0;
        while i < self.jobs.len()
            invariant
                i <= self.jobs@.len(),
                s == jobs_view(self.jobs@),
                self.wf(),
                forall|k: int| 0 <= k < i ==> #[trigger] self.jobs@[k]@.id != id@,
            decreases self.jobs@.len() - i,
        {
            if self.jobs[i].id == *id {
                proof {
                    lemma_keyed_at(s, job_key_fn(), i as int);
                }
                return Some(i);
            }
            i = i + 1;
        }
        proof {
            lemma_keyed_dom(s, job_key_fn(), id@);
            assert forall|k: int| 0 <= k < s.len() implies s[k].id != id@ by {
                assert(s[k] == self.jobs@[k]@);
            }
        }
        None
    }
}


impl Store {
    /// Inserts or updates the row for `row`'s key, as `upserted` says.
    fn put_item(&mut self, row: Item, resurface: bool)
        requires
            old(self).wf(),
            old(self)@.apps.contains_key(row.app_id@),
        ensures
            final(self).wf(),
            final(self)@.items == upsert_row(old(self)@.items, row@, resurface),
            final(self)@.apps == old(self)@.apps,
            final(self)@.jobs == old(self)@.jobs,
            final(self)@.events == old(self)@.events,
    {
        let ghost s = items_view(self.items@);
        match self.find_item(&row.app_id, &row.id) {
            Some(i) => {
                let created_at = self.items[i].created_at;
                let dismissed = !resurface && self.items[i].dismissed;
                let new_row = Item {
                    app_id: row.app_id,
                    id: row.id,
                    persistent: row.persistent,
                    state_key: row.state_key,
                    data: row.data,
                    notify: row.notify,
                    updated_at: row.updated_at,
                    created_at,
                    dismissed,
                };
                proof {
                    lemma_keyed_update(s, item_key_fn(), i as int, new_row@);
                }
                self.items[i] = new_row;
                assert(items_view(self.items@) =~= s.update(i as int, new_row@));
            },
            None => {
                let new_row = Item {
                    app_id: row.app_id,
                    id: row.id,
                    persistent: row.persistent,
                    state_key: row.state_key,
                    data: row.data,
                    notify: row.notify,
                    updated_at: row.updated_at,
                    created_at: row.created_at,
                    dismissed: false,
                };
                proof {
                    lemma_keyed_push(s, item_key_fn(), new_row@);
                }
                self.items.push(new_row);
                assert(items_view(self.items@) =~= s.push(new_row@));
            },
        }
        assert(self@.items =~= upsert_row(old(self)@.items, row@, resurface));
    }

    /// Inserts an item, or updates the stored one with the same app id and
    /// id: the stored one keeps its creation time, and its dismissed flag
    /// unless `resurface`. Fails with `Db` when the store holds no app
    /// `item.app_id`, as the foreign key of the items would.
    pub fn create_or_update_item(&mut self, item: Item, resurface: bool) -> (r: Result<(), Error>)
        requires
            old(self).wf(),
        ensures
            final(self).wf(),
            (r is Ok) == old(self)@.apps.contains_key(item.app_id@),
            (r is Ok) ==> final(self)@ == upsert_item_spec(old(self)@, item@, resurface),
            (r is Err) ==> (r == Err::<(), Error>(Error::Db)) && final(self)@ == old(self)@,
    {
        match self.find_app(&item.app_id) {
            Some(_) => {
                self.put_item(item, resurface);
                Ok(())
            },
            None => Err(Error::Db),
        }
    }

    /// Sets the dismissed flag of item `item_id` of app `app_id`, if the store
    /// holds it.
    pub fn set_item_dismissed(&mut self, app_id: &String, item_id: &String, dismissed: bool)
        requires
            old(self).wf(),
        ensures
            final(self).wf(),
            final(self)@ == set_dismissed_spec(old(self)@, app_id@, item_id@, dismissed),
    {
        let ghost s = items_view(self.items@);
        match self.find_item(app_id, item_id) {
            Some(i) => {
                let old_row = self.items[i].copy();
                let new_row = Item { dismissed, ..old_row };
                proof {
                    lemma_keyed_update(s, item_key_fn(), i as int, new_row@);
                }
                self.items[i] = new_row;
                assert(items_view(self.items@) =~= s.update(i as int, new_row@));
            },
            None => {},
        }
        assert(self@.items =~= set_dismissed_spec(old(self)@, app_id@, item_id@, dismissed).items);
    }

    /// Records `error` as the status of app `app_id`, if the store holds it.
    pub fn update_app_status(&mut self, app_id: &String, error: Option<String>, now: Timestamp)
        requires
            old(self).wf(),
        ensures
            final(self).wf(),
            final(self)@ == update_status_spec(old(self)@, app_id@, opt_view(error), now),
    {
        let ghost s = app_rows_view(self.apps@);
        match self.find_app(app_id) {
            Some(i) => {
                let old_row = &self.apps[i];
                let new_row = StoredApp {
                    id: old_row.id.clone(),
                    name: old_row.name.clone(),
                    path: old_row.path.clone(),
                    ui: match &old_row.ui {
                        Some(u) => Some(u.copy()),
                        None => None,
                    },
                    version: old_row.version,
                    error,
                    updated_at: now,
                };
                proof {
                    lemma_keyed_update(s, app_key_fn(), i as int, new_row@);
                }
                self.apps[i] = new_row;
                assert(app_rows_view(self.apps@) =~= s.update(i as int, new_row@));
            },
            None => {},
        }
        assert(self@.apps =~= update_status_spec(old(self)@, app_id@, opt_view(error), now).apps);
    }
}

impl Store {
    /// Removes the items of app `app_id` whose id `keep` does not hold.
    fn drop_items(&mut self, app_id: &String, keep: &Vec<String>)
        requires
            old(self).wf(),
        ensures
            final(self).wf(),
            final(self)@.items == drop_items_spec(old(self)@.items, app_id@, strings_view(keep@)),
            final(self)@.apps == old(self)@.apps,
            final(self)@.jobs == old(self)@.jobs,
            final(self)@.events == old(self)@.events,
    {
        let ghost s = items_view(self.items@);
        let ghost kv = strings_view(keep@);
        let ghost p = keep_items_fn(app_id@, kv);
        let mut rest: Vec<Item> = Vec::new();
        core::mem::swap(&mut self.items, &mut rest);
        let n = rest.len();
        let mut i: usize = 0;
        assert(items_view(self.items@) =~= Seq::empty());
        assert(s.take(0) =~= Seq::empty());
        while rest.len() > 0
            invariant
                unique(s, item_key_fn()),
                n == s.len(),
                i + rest@.len() == n,
                items_view(rest@) == s.subrange(i as int, n as int),
                unique(items_view(self.items@), item_key_fn()),
                self.apps == old(self).apps,
                self.jobs == old(self).jobs,
                self.events == old(self).events,
                keyed(items_view(self.items@), item_key_fn()) == keyed(s.take(i as int), item_key_fn()).filter_keys(p),
                kv == strings_view(keep@),
                p == keep_items_fn(app_id@, kv),
            decreases rest@.len(),
        {
            let ghost r0 = rest@;
            assert(items_view(r0)[0] == r0[0]@);
            assert(s.subrange(i as int, n as int)[0] == s[i as int]);
            let it = rest.remove(0);
            assert(it@ == s[i as int]);
            assert(rest@ =~= r0.subrange(1, r0.len() as int));
            assert forall|k: int| 0 <= k < rest@.len() implies #[trigger] items_view(rest@)[k] == s.subrange(i + 1, n as int)[k] by {
                assert(items_view(r0)[k + 1] == r0[k + 1]@);
                assert(s.subrange(i as int, n as int)[k + 1] == s[i + 1 + k]);
            }
            assert(items_view(rest@) =~= s.subrange(i + 1, n as int));
            proof {
                lemma_keyed_filter_step(s, item_key_fn(), p, i as int);
            }
            let keep_it = !(it.app_id == *app_id && !contains_str(keep, &it.id));
            assert(keep_it == p(item_key_fn()(s[i as int])));
            if keep_it {
                let ghost before = items_view(self.items@);
                proof {
                    lemma_unique_push_filtered(before, s, item_key_fn(), p, i as int);
                }
                self.items.push(it);
                assert(items_view(self.items@) =~= before.push(s[i as int]));
            }
            i = i + 1;
        }
        assert(s.take(n as int) =~= s);
        assert(self@.items =~= drop_items_spec(old(self)@.items, app_id@, kv));
    }

    /// Removes the jobs whose id starts with `prefix`.
    fn drop_jobs(&mut self, prefix: &String)
        requires
            old(self).wf(),
        ensures
            final(self).wf(),
            final(self)@.jobs == drop_jobs_spec(old(self)@.jobs, prefix@),
            final(self)@.apps == old(self)@.apps,
            final(self)@.items == old(self)@.items,
            final(self)@.events == old(self)@.events,
    {
        let ghost s = jobs_view(self.jobs@);
        let ghost p = keep_jobs_fn(prefix@);
        let mut rest: Vec<RecurringJob> = Vec::new();
        core::mem::swap(&mut self.jobs, &mut rest);
        let n = rest.len();
        let mut i: usize = 0;
        assert(jobs_view(self.jobs@) =~= Seq::empty());
        assert(s.take(0) =~= Seq::empty());
        while rest.len() > 0
            invariant
                unique(s, job_key_fn()),
                n == s.len(),
                i + rest@.len() == n,
                jobs_view(rest@) == s.subrange(i as int, n as int),
                p == keep_jobs_fn(prefix@),
                unique(jobs_view(self.jobs@), job_key_fn()),
                self.apps == old(self).apps,
                self.items == old(self).items,
                self.events == old(self).events,
                keyed(jobs_view(self.jobs@), job_key_fn()) == keyed(s.take(i as int), job_key_fn()).filter_keys(p),
            decreases rest@.len(),
        {
            let ghost r0 = rest@;
            assert(jobs_view(r0)[0] == r0[0]@);
            assert(s.subrange(i as int, n as int)[0] == s[i as int]);
            let job = rest.remove(0);
            assert(job@ == s[i as int]);
            assert(rest@ =~= r0.subrange(1, r0.len() as int));
            assert forall|k: int| 0 <= k < rest@.len() implies #[trigger] jobs_view(rest@)[k] == s.subrange(i + 1, n as int)[k] by {
                assert(jobs_view(r0)[k + 1] == r0[k + 1]@);
                assert(s.subrange(i as int, n as int)[k + 1] == s[i + 1 + k]);
            }
            assert(jobs_view(rest@) =~= s.subrange(i + 1, n as int));
            proof {
                lemma_keyed_filter_step(s, job_key_fn(), p, i as int);
            }
            let keep_it = !starts_with(job.id.as_str(), prefix.as_str());
            assert(keep_it == p(job_key_fn()(s[i as int])));
            if keep_it {
                let ghost before = jobs_view(self.jobs@);
                proof {
                    lemma_unique_push_filtered(before, s, job_key_fn(), p, i as int);
                }
                self.jobs.push(job);
                assert(jobs_view(self.jobs@) =~= before.push(s[i as int]));
            }
            i = i + 1;
        }
        assert(s.take(n as int) =~= s);
        assert(self@.jobs =~= drop_jobs_spec(old(self)@.jobs, prefix@));
    }

    /// Removes app `app_id`, which has no items left.
    fn drop_app(&mut self, app_id: &String)
        requires
            old(self).wf(),
            forall|k: (Seq<char>, Seq<char>)| #[trigger] old(self)@.items.contains_key(k) ==> k.0 != app_id@,
        ensures
            final(self).wf(),
            final(self)@.apps == old(self)@.apps.remove(app_id@),
            final(self)@.items == old(self)@.items,
            final(self)@.jobs == old(self)@.jobs,
            final(self)@.events == old(self)@.events,
    {
        let ghost s = app_rows_view(self.apps@);
        let ghost p = keep_apps_fn(app_id@);
        let mut rest: Vec<StoredApp> = Vec::new();
        core::mem::swap(&mut self.apps, &mut rest);
        let n = rest.len();
        let mut i: usize = 0;
        assert(app_rows_view(self.apps@) =~= Seq::empty());
        assert(s.take(0) =~= Seq::empty());
        while rest.len() > 0
            invariant
                unique(s, app_key_fn()),
                n == s.len(),
                i + rest@.len() == n,
                app_rows_view(rest@) == s.subrange(i as int, n as int),
                p == keep_apps_fn(app_id@),
                unique(app_rows_view(self.apps@), app_key_fn()),
                self.items == old(self).items,
                self.jobs == old(self).jobs,
                self.events == old(self).events,
                keyed(app_rows_view(self.apps@), app_key_fn()) == keyed(s.take(i as int), app_key_fn()).filter_keys(p),
            decreases rest@.len(),
        {
            let ghost r0 = rest@;
            assert(app_rows_view(r0)[0] == r0[0]@);
            assert(s.subrange(i as int, n as int)[0] == s[i as int]);
            let app = rest.remove(0);
            assert(app@ == s[i as int]);
            assert(rest@ =~= r0.subrange(1, r0.len() as int));
            assert forall|k: int| 0 <= k < rest@.len() implies #[trigger] app_rows_view(rest@)[k] == s.subrange(i + 1, n as int)[k] by {
                assert(app_rows_view(r0)[k + 1] == r0[k + 1]@);
                assert(s.subrange(i as int, n as int)[k + 1] == s[i + 1 + k]);
            }
            assert(app_rows_view(rest@) =~= s.subrange(i + 1, n as int));
            proof {
                lemma_keyed_filter_step(s, app_key_fn(), p, i as int);
            }
            let keep_it = !(app.id == *app_id);
            assert(keep_it == p(app_key_fn()(s[i as int])));
            if keep_it {
                let ghost before = app_rows_view(self.apps@);
                proof {
                    lemma_unique_push_filtered(before, s, app_key_fn(), p, i as int);
                }
                self.apps.push(app);
                assert(app_rows_view(self.apps@) =~= before.push(s[i as int]));
            }
            i = i + 1;
        }
        assert(s.take(n as int) =~= s);
        assert(self@.apps =~= old(self)@.apps.remove(app_id@));
    }
}

impl Store {
    /// Removes app `app_id`, its items, and the jobs whose id starts with
    /// `"{app_id}:"`.
    pub fn remove_app(&mut self, app_id: &String)
        requires
            old(self).wf(),
        ensures
            final(self).wf(),
            final(self)@ == remove_app_spec(old(self)@, app_id@),
    {
        let keep: Vec<String> = Vec::new();
        assert(strings_view(keep@) =~= Seq::empty());
        self.drop_items(app_id, &keep);
        self.drop_app(app_id);
        let prefix = job_prefix(app_id.as_str());
        self.drop_jobs(&prefix);
    }

    /// Removes the items of app `app_id` whose id `item_ids` does not hold.
    pub fn remove_unfound_items(&mut self, app_id: &String, item_ids: &Vec<String>)
        requires
            old(self).wf(),
        ensures
            final(self).wf(),
            final(self)@ == (StoreView { items: drop_items_spec(old(self)@.items, app_id@, strings_view(item_ids@)), ..old(self)@ }),
    {
        self.drop_items(app_id, item_ids);
    }

    /// Inserts a job, or replaces the one with its id.
    fn put_job(&mut self, job: RecurringJob)
        requires
            old(self).wf(),
        ensures
            final(self).wf(),
            final(self)@ == (StoreView { jobs: old(self)@.jobs.insert(job@.id, job@), ..old(self)@ }),
    {
        let ghost s = jobs_view(self.jobs@);
        match self.find_job(&job.id) {
            Some(i) => {
                let ghost j = job@;
                proof {
                    lemma_keyed_update(s, job_key_fn(), i as int, j);
                }
                self.jobs[i] = job;
                assert(jobs_view(self.jobs@) =~= s.update(i as int, j));
            },
            None => {
                let ghost j = job@;
                proof {
                    lemma_keyed_push(s, job_key_fn(), j);
                }
                self.jobs.push(job);
                assert(jobs_view(self.jobs@) =~= s.push(j));
            },
        }
    }

    /// Brings the jobs of app `app_id` in line with its schedules.
    fn converge_jobs(&mut self, app_id: &String, path: &String, schedule: &Vec<AppSchedule>)
        requires
            old(self).wf(),
        ensures
            final(self).wf(),
            final(self)@ == (StoreView {
                jobs: converge_jobs_spec(old(self)@.jobs, app_id@, path@, schedules_view(schedule@)),
                ..old(self)@
            }),
    {
        let ghost scheds = schedules_view(schedule@);
        let prefix = job_prefix(app_id.as_str());
        self.drop_jobs(&prefix);
        let ghost base = self@;
        let mut i: usize = 0;
        while i < schedule.len()
            invariant
                self.wf(),
                i <= schedule@.len(),
                scheds == schedules_view(schedule@),
                base.jobs == drop_jobs_spec(old(self)@.jobs, job_prefix_spec(app_id@)),
                self@ == (StoreView { jobs: put_jobs_spec(base.jobs, app_id@, path@, scheds.take(i as int)), ..base }),
            decreases schedule@.len() - i,
        {
            let job = RecurringJob::for_schedule(app_id.as_str(), path.as_str(), &schedule[i]);
            assert(scheds.take(i + 1).drop_last() =~= scheds.take(i as int));
            self.put_job(job);
            i = i + 1;
        }
        assert(scheds.take(schedule@.len() as int) =~= scheds);
    }

    /// Inserts or updates the row of app `app_id` for submission `app`.
    fn put_app(&mut self, app_id: &String, app: &AppData, now: Timestamp)
        requires
            old(self).wf(),
        ensures
            final(self).wf(),
            final(self)@ == (StoreView { apps: upsert_app_spec(old(self)@.apps, app_id@, app@, now), ..old(self)@ }),
    {
        let ghost s = app_rows_view(self.apps@);
        let found = self.find_app(app_id);
        let row = match found {
            Some(i) => {
                let stored = &self.apps[i];
                if app.version == 0 || app.version >= stored.version {
                    StoredApp {
                        id: app_id.clone(),
                        name: app.name.clone(),
                        path: app.path.clone(),
                        ui: match &app.ui {
                            Some(u) => Some(u.copy()),
                            None => None,
                        },
                        version: if app.version == 0 { stored.version } else { app.version },
                        error: None,
                        updated_at: now,
                    }
                } else {
                    StoredApp {
                        id: stored.id.clone(),
                        name: stored.name.clone(),
                        path: stored.path.clone(),
                        ui: match &stored.ui {
                            Some(u) => Some(u.copy()),
                            None => None,
                        },
                        version: stored.version,
                        error: None,
                        updated_at: now,
                    }
                }
            },
            None => StoredApp {
                id: app_id.clone(),
                name: app.name.clone(),
                path: app.path.clone(),
                ui: match &app.ui {
                    Some(u) => Some(u.copy()),
                    None => None,
                },
                version: app.version,
                error: None,
                updated_at: now,
            },
        };
        assert(row@ == app_row_after(old(self)@.apps, app_id@, app@, now));
        match found {
            Some(i) => {
                let ghost r = row@;
                proof {
                    lemma_keyed_update(s, app_key_fn(), i as int, r);
                }
                self.apps[i] = row;
                assert(app_rows_view(self.apps@) =~= s.update(i as int, r));
            },
            None => {
                let ghost r = row@;
                proof {
                    lemma_keyed_push(s, app_key_fn(), r);
                }
                self.apps.push(row);
                assert(app_rows_view(self.apps@) =~= s.push(r));
            },
        }
    }

    /// Writes the metadata of submission `app` for app `app_id`, guarded by
    /// its version, and brings the app's jobs in line with its schedules.
    pub fn create_or_update_app(&mut self, app_id: &String, app: &AppData, now: Timestamp)
        requires
            old(self).wf(),
        ensures
            final(self).wf(),
            final(self)@.apps == upsert_app_spec(old(self)@.apps, app_id@, app@, now),
            final(self)@.jobs == converge_jobs_spec(old(self)@.jobs, app_id@, app@.path, app@.schedule),
            final(self)@.items == old(self)@.items,
            final(self)@.events == old(self)@.events,
    {
        self.put_app(app_id, app, now);
        self.converge_jobs(app_id, &app.path, &app.schedule);
    }
}

impl Store {
    /// Reconciles submission `app` for app `app_id` at time `now`: writes the
    /// app's metadata (guarded by its version) and clears its error, upserts
    /// each submitted item with the resurface decision taken against the
    /// items stored before, removes the app's other items unless `merge`,
    /// and brings the app's jobs in line with its schedules.
    pub fn handle_change(&mut self, app_id: &String, app: AppData, merge: bool, now: Timestamp)
        requires
            old(self).wf(),
        ensures
            final(self).wf(),
            final(self)@ == handle_change_spec(old(self)@, app_id@, app@, merge, now),
    {
        let ghost d = app@;
        let ghost v0 = self@;
        self.create_or_update_app(app_id, &app, now);
        let ghost v1 = self@;
        let AppData { items, .. } = app;
        let ghost subs = d.items;
        assert(subs == app_items_view(items@));
        let mut flags: Vec<bool> = Vec::new();
        let mut ids: Vec<String> = Vec::new();
        let mut i: usize = 0;
        while i < items.len()
            invariant
                self.wf(),
                self@ == v1,
                v1.items == v0.items,
                i <= items@.len(),
                subs == app_items_view(items@),
                flags@.len() == i,
                ids@.len() == i,
                forall|k: int| 0 <= k < i ==> #[trigger] flags@[k] == resurface_spec(v0.items, app_id@, subs[k]),
                forall|k: int| 0 <= k < i ==> #[trigger] ids@[k]@ == subs[k].id,
            decreases items@.len() - i,
        {
            let s = &items[i];
            assert(s@ == subs[i as int]);
            let r = match self.find_item(app_id, &s.id) {
                Some(k) => self.items[k].changed_from(s),
                None => true,
            };
            flags.push(r);
            ids.push(s.id.clone());
            i = i + 1;
        }
        assert(strings_view(ids@) =~= ids_of(subs));
        let mut rest = items;
        let n = rest.len();
        let mut j: usize = 0;
        assert(subs.take(0) =~= Seq::<AppItemView>::empty());
        while rest.len() > 0
            invariant
                self.wf(),
                self@.apps == v1.apps,
                self@.jobs == v1.jobs,
                self@.events == v1.events,
                v1.apps.contains_key(app_id@),
                v1.items == v0.items,
                n == subs.len(),
                flags@.len() == n,
                j + rest@.len() == n,
                app_items_view(rest@) == subs.subrange(j as int, n as int),
                forall|k: int| 0 <= k < n ==> #[trigger] flags@[k] == resurface_spec(v0.items, app_id@, subs[k]),
                self@.items == reconcile_items(v0.items, v0.items, app_id@, subs.take(j as int), now),
            decreases rest@.len(),
        {
            let ghost r0 = rest@;
            assert(app_items_view(r0)[0] == r0[0]@);
            assert(subs.subrange(j as int, n as int)[0] == subs[j as int]);
            let it = rest.remove(0);
            assert(it@ == subs[j as int]);
            assert(rest@ =~= r0.subrange(1, r0.len() as int));
            assert forall|k: int| 0 <= k < rest@.len() implies #[trigger] app_items_view(rest@)[k] == subs.subrange(j + 1, n as int)[k] by {
                assert(app_items_view(r0)[k + 1] == r0[k + 1]@);
                assert(subs.subrange(j as int, n as int)[k + 1] == subs[j + 1 + k]);
            }
            assert(app_items_view(rest@) =~= subs.subrange(j + 1, n as int));
            assert(subs.take(j + 1).drop_last() =~= subs.take(j as int));
            let row = Item::from_app_item_at(app_id.clone(), it, now);
            self.put_item(row, flags[j]);
            j = j + 1;
        }
        assert(subs.take(n as int) =~= subs);
        if !merge {
            self.drop_items(app_id, &ids);
        }
    }

    /// Removes app `app_id`, as an empty input asks.
    pub fn handle_remove(&mut self, app_id: &String)
        requires
            old(self).wf(),
        ensures
            final(self).wf(),
            final(self)@ == remove_app_spec(old(self)@, app_id@),
    {
        self.remove_app(app_id);
    }

    /// Handles raw input for app `app_id` once it has been decoded: a
    /// submission is reconciled; a decoding error is recorded as the app's
    /// status.
    pub fn handle_raw_data(&mut self, app_id: &String, decoded: Result<AppData, String>, merge: bool, now: Timestamp)
        requires
            old(self).wf(),
        ensures
            final(self).wf(),
            match decoded {
                Ok(d) => final(self)@ == handle_change_spec(old(self)@, app_id@, d@, merge, now),
                Err(e) => final(self)@ == update_status_spec(old(self)@, app_id@, Some(e@), now),
            },
    {
        match decoded {
            Ok(d) => self.handle_change(app_id, d, merge, now),
            Err(e) => self.update_app_status(app_id, Some(e), now),
        }
    }

    /// Handles one input whose contents are empty or parsed.
    pub fn handle_change_or_error(&mut self, input: AppFileInput, now: Timestamp)
        requires
            old(self).wf(),
            !(input.contents is Raw),
        ensures
            final(self).wf(),
            final(self)@ == handle_input_spec(old(self)@, input, now),
    {
        let AppFileInput { app_id, contents, merge_items } = input;
        match contents {
            AppFileContents::Empty => self.handle_remove(&app_id),
            AppFileContents::Parsed(d) => self.handle_change(&app_id, *d, merge_items, now),
            AppFileContents::Raw(_) => {},
        }
    }

    /// Handles inputs in the order given.
    pub fn handle_changes(&mut self, inputs: Vec<AppFileInput>, now: Timestamp)
        requires
            old(self).wf(),
            forall|k: int| 0 <= k < inputs@.len() ==> !(#[trigger] inputs@[k].contents is Raw),
        ensures
            final(self).wf(),
            final(self)@ == run_inputs(old(self)@, inputs@, now),
    {
        let ghost all = inputs@;
        let mut rest = inputs;
        let n = rest.len();
        let mut j: usize = 0;
        assert(all.take(0) =~= Seq::<AppFileInput>::empty());
        while rest.len() > 0
            invariant
                self.wf(),
                n == all.len(),
                j + rest@.len() == n,
                rest@ == all.subrange(j as int, n as int),
                forall|k: int| 0 <= k < n ==> !(#[trigger] all[k].contents is Raw),
                self@ == run_inputs(old(self)@, all.take(j as int), now),
            decreases rest@.len(),
        {
            let input = rest.remove(0);
            assert(input == all[j as int]);
            assert(rest@ =~= all.subrange(j + 1, n as int));
            assert(all.take(j + 1).drop_last() =~= all.take(j as int));
            self.handle_change_or_error(input, now);
            j = j + 1;
        }
        assert(all.take(n as int) =~= all);
    }
}

impl Store {
    /// Copies of the items of app `app_id`, only the undismissed ones when `active`.
    fn collect_items(&self, app_id: &String, active: bool) -> (r: Vec<Item>)
        requires
            self.wf(),
        ensures
            unique(items_view(r@), item_key_fn()),
            keyed(items_view(r@), item_key_fn()) == self@.items.filter_keys(item_sel_fn(self@.items, app_id@, active)),
    {
        let ghost s = items_view(self.items@);
        let ghost m = self@.items;
        let ghost p = item_sel_fn(m, app_id@, active);
        let mut r: Vec<Item> = Vec::new();
        let mut i: usize = 0;
        assert(items_view(r@) =~= Seq::empty());
        assert(s.take(0) =~= Seq::empty());
        while i < self.items.len()
            invariant
                self.wf(),
                s == items_view(self.items@),
                m == self@.items,
                p == item_sel_fn(m, app_id@, active),
                i <= s.len(),
                unique(items_view(r@), item_key_fn()),
                keyed(items_view(r@), item_key_fn()) == keyed(s.take(i as int), item_key_fn()).filter_keys(p),
            decreases s.len() - i,
        {
            proof {
                lemma_keyed_filter_step(s, item_key_fn(), p, i as int);
                lemma_keyed_at(s, item_key_fn(), i as int);
            }
            assert(s[i as int] == self.items@[i as int]@);
            let it = &self.items[i];
            let sel = it.app_id == *app_id && (!active || !it.dismissed);
            assert(sel == p(item_key_fn()(s[i as int])));
            if sel {
                let ghost before = items_view(r@);
                proof {
                    lemma_unique_push_filtered(before, s, item_key_fn(), p, i as int);
                }
                r.push(it.copy());
                assert(items_view(r@) =~= before.push(s[i as int]));
            }
            i = i + 1;
        }
        assert(s.take(s.len() as int) =~= s);
        r
    }

    /// The items of app `app_id`, in no particular order.
    pub fn read_app_items(&self, app_id: &String) -> (r: Vec<Item>)
        requires
            self.wf(),
        ensures
            unique(items_view(r@), item_key_fn()),
            keyed(items_view(r@), item_key_fn()) == self@.items.filter_keys(item_sel_fn(self@.items, app_id@, false)),
    {
        self.collect_items(app_id, false)
    }

    /// The apps whose ids `app_ids` holds, each once, in no particular order.
    pub fn get_apps(&self, app_ids: &Vec<String>) -> (r: Vec<AppInfo>)
        requires
            self.wf(),
        ensures
            forall|g: int| 0 <= g < r@.len() ==> self@.apps.contains_key(#[trigger] r@[g]@.id)
                && strings_view(app_ids@).contains(r@[g]@.id) && r@[g]@ == info_of(self@.apps[r@[g]@.id]),
            forall|g: int, h: int| 0 <= g < r@.len() && 0 <= h < r@.len() && g != h ==> #[trigger] r@[g]@.id != #[trigger] r@[h]@.id,
            forall|k: Seq<char>| #[trigger] self@.apps.contains_key(k) && strings_view(app_ids@).contains(k)
                ==> exists|g: int| 0 <= g < r@.len() && #[trigger] r@[g]@.id == k,
    {
        let ghost s = app_rows_view(self.apps@);
        let ghost ids = strings_view(app_ids@);
        let ghost p = keep_listed_fn(ids);
        let ghost mut picked: Seq<AppRowView> = Seq::empty();
        let mut r: Vec<AppInfo> = Vec::new();
        let mut i: usize = 0;
        assert(s.take(0) =~= Seq::empty());
        while i < self.apps.len()
            invariant
                self.wf(),
                s == app_rows_view(self.apps@),
                ids == strings_view(app_ids@),
                p == keep_listed_fn(ids),
                i <= s.len(),
                r@.len() == picked.len(),
                forall|g: int| 0 <= g < r@.len() ==> #[trigger] r@[g]@ == info_of(picked[g]),
                unique(picked, app_key_fn()),
                keyed(picked, app_key_fn()) == keyed(s.take(i as int), app_key_fn()).filter_keys(p),
            decreases s.len() - i,
        {
            proof {
                lemma_keyed_filter_step(s, app_key_fn(), p, i as int);
            }
            assert(s[i as int] == self.apps@[i as int]@);
            let a = &self.apps[i];
            if contains_str(app_ids, &a.id) {
                proof {
                    lemma_unique_push_filtered(picked, s, app_key_fn(), p, i as int);
                    picked = picked.push(s[i as int]);
                }
                r.push(AppInfo { id: a.id.clone(), name: a.name.clone(), path: a.path.clone() });
            }
            i = i + 1;
        }
        assert(s.take(s.len() as int) =~= s);
        proof {
            assert forall|g: int| 0 <= g < r@.len() implies self@.apps.contains_key(#[trigger] r@[g]@.id)
                && ids.contains(r@[g]@.id) && r@[g]@ == info_of(self@.apps[r@[g]@.id]) by {
                lemma_keyed_at(picked, app_key_fn(), g);
            }
            assert forall|g: int, h: int| 0 <= g < r@.len() && 0 <= h < r@.len() && g != h implies #[trigger] r@[g]@.id != #[trigger] r@[h]@.id by {
                assert(app_key_fn()(picked[g]) != app_key_fn()(picked[h]));
            }
            assert forall|k: Seq<char>| #[trigger] self@.apps.contains_key(k) && ids.contains(k) implies exists|g: int| 0 <= g < r@.len() && #[trigger] r@[g]@.id == k by {
                assert(self@.apps.filter_keys(p).contains_key(k));
                lemma_keyed_dom(picked, app_key_fn(), k);
                let g = choose|g: int| 0 <= g < picked.len() && app_key_fn()(picked[g]) == k;
                assert(r@[g]@.id == k);
            }
        }
        r
    }

    /// The app `app_id`, or `NotFound("App")`.
    pub fn get_app(&self, app_id: &String) -> (r: Result<AppInfo, Error>)
        requires
            self.wf(),
        ensures
            (r is Ok) == self@.apps.contains_key(app_id@),
            (r is Ok) ==> r->Ok_0@ == info_of(self@.apps[app_id@]),
            (r is Err) ==> (r == Err::<AppInfo, Error>(Error::NotFound("App"))),
    {
        match self.find_app(app_id) {
            Some(i) => {
                let a = &self.apps[i];
                Ok(AppInfo { id: a.id.clone(), name: a.name.clone(), path: a.path.clone() })
            },
            None => Err(Error::NotFound("App")),
        }
    }

    /// The undismissed items, grouped by app: one group per app that has
    /// any, with the app's info; in no particular order.
    pub fn read_active_items(&self) -> (r: Vec<AppItems>)
        requires
            self.wf(),
        ensures
            forall|g: int| 0 <= g < r@.len() ==> is_active_group(self@, #[trigger] r@[g]@),
            forall|g: int, h: int| 0 <= g < r@.len() && 0 <= h < r@.len() && g != h ==> #[trigger] r@[g]@.app.id != #[trigger] r@[h]@.app.id,
            forall|a: Seq<char>| #[trigger] has_active(self@, a) ==> exists|g: int| 0 <= g < r@.len() && #[trigger] r@[g]@.app.id == a,
    {
        let ghost s = app_rows_view(self.apps@);
        let ghost v = self@;
        let ghost p = keep_active_fn(v);
        let ghost mut picked: Seq<AppRowView> = Seq::empty();
        let mut r: Vec<AppItems> = Vec::new();
        let mut i: usize = 0;
        assert(s.take(0) =~= Seq::empty());
        while i < self.apps.len()
            invariant
                self.wf(),
                v == self@,
                s == app_rows_view(self.apps@),
                p == keep_active_fn(v),
                i <= s.len(),
                r@.len() == picked.len(),
                forall|g: int| 0 <= g < r@.len() ==> #[trigger] r@[g]@.app == info_of(picked[g]),
                forall|g: int| 0 <= g < r@.len() ==> #[trigger] r@[g]@.items.len() > 0,
                forall|g: int| 0 <= g < r@.len() ==> unique(#[trigger] r@[g]@.items, item_key_fn()),
                forall|g: int| 0 <= g < r@.len() ==> keyed(#[trigger] r@[g]@.items, item_key_fn())
                    == v.items.filter_keys(item_sel_fn(v.items, picked[g].id, true)),
                unique(picked, app_key_fn()),
                keyed(picked, app_key_fn()) == keyed(s.take(i as int), app_key_fn()).filter_keys(p),
            decreases s.len() - i,
        {
            proof {
                lemma_keyed_filter_step(s, app_key_fn(), p, i as int);
            }
            assert(s[i as int] == self.apps@[i as int]@);
            let a = &self.apps[i];
            let items = self.collect_items(&a.id, true);
            proof {
                if has_active(v, s[i as int].id) {
                    let k = choose|k: (Seq<char>, Seq<char>)| #[trigger] v.items.contains_key(k) && k.0 == s[i as int].id && !v.items[k].dismissed;
                    assert(v.items.filter_keys(item_sel_fn(v.items, a.id@, true)).contains_key(k));
                    lemma_keyed_dom(items_view(items@), item_key_fn(), k);
                }
                if items@.len() > 0 {
                    lemma_keyed_at(items_view(items@), item_key_fn(), 0);
                    assert(has_active(v, s[i as int].id));
                }
            }
            if items.len() > 0 {
                proof {
                    lemma_unique_push_filtered(picked, s, app_key_fn(), p, i as int);
                    picked = picked.push(s[i as int]);
                }
                r.push(AppItems {
                    app: AppInfo { id: a.id.clone(), name: a.name.clone(), path: a.path.clone() },
                    items,
                });
            }
            i = i + 1;
        }
        assert(s.take(s.len() as int) =~= s);
        proof {
            assert forall|g: int| 0 <= g < r@.len() implies is_active_group(v, #[trigger] r@[g]@) by {
                lemma_keyed_at(picked, app_key_fn(), g);
            }
            assert forall|g: int, h: int| 0 <= g < r@.len() && 0 <= h < r@.len() && g != h implies #[trigger] r@[g]@.app.id != #[trigger] r@[h]@.app.id by {
                assert(app_key_fn()(picked[g]) != app_key_fn()(picked[h]));
            }
            assert forall|k: Seq<char>| #[trigger] has_active(v, k) implies exists|g: int| 0 <= g < r@.len() && #[trigger] r@[g]@.app.id == k by {
                let q = choose|q: (Seq<char>, Seq<char>)| #[trigger] v.items.contains_key(q) && q.0 == k && !v.items[q].dismissed;
                assert(v.apps.contains_key(k));
                assert(v.apps.filter_keys(p).contains_key(k));
                lemma_keyed_dom(picked, app_key_fn(), k);
                let g = choose|g: int| 0 <= g < picked.len() && app_key_fn()(picked[g]) == k;
                assert(r@[g]@.app.id == k);
            }
        }
        r
    }
}

impl Store {
    /// Appends an entry to the audit log.
    pub fn record_event(&mut self, event_type: EventType, app_id: &String, item_id: Option<String>, data: Option<String>, now: Timestamp)
        requires
            old(self).wf(),
        ensures
            final(self).wf(),
            final(self)@.events == old(self)@.events.push(EventView {
                event_type,
                app_id: app_id@,
                item_id: opt_view(item_id),
                data: opt_view(data),
                ts: now,
            }),
            final(self)@.apps == old(self)@.apps,
            final(self)@.items == old(self)@.items,
            final(self)@.jobs == old(self)@.jobs,
    {
        let e = Event { event_type, app_id: app_id.clone(), item_id, data, ts: now };
        let ghost before = self.events@;
        self.events.push(e);
        assert(self.events@.map_values(|e: Event| e@) =~= before.map_values(|e: Event| e@).push(e@));
    }

    /// The apps, each once, in no particular order.
    pub fn apps(&self) -> (r: &Vec<StoredApp>)
        requires
            self.wf(),
        ensures
            unique(app_rows_view(r@), app_key_fn()),
            keyed(app_rows_view(r@), app_key_fn()) == self@.apps,
    {
        &self.apps
    }

    /// The items, each once, in no particular order.
    pub fn items(&self) -> (r: &Vec<Item>)
        requires
            self.wf(),
        ensures
            unique(items_view(r@), item_key_fn()),
            keyed(items_view(r@), item_key_fn()) == self@.items,
    {
        &self.items
    }

    /// The recurring jobs, each once, in no particular order.
    pub fn jobs(&self) -> (r: &Vec<RecurringJob>)
        requires
            self.wf(),
        ensures
            unique(jobs_view(r@), job_key_fn()),
            keyed(jobs_view(r@), job_key_fn()) == self@.jobs,
    {
        &self.jobs
    }

    /// The audit log, oldest first.
    pub fn events(&self) -> (r: &Vec<Event>)
        ensures
            r@.map_values(|e: Event| e@) == self@.events,
    {
        &self.events
    }
}
} // verus!
