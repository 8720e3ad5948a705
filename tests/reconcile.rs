use glance::app_data::{AppData, AppItem, AppItemData, AppSchedule, AppUiInfo, Notification, NotificationData, Timestamp};
use glance::input::{AppFileContents, AppFileInput};
use glance::items::AppItems;
use glance::store::Store;

const T0: Timestamp = Timestamp { secs: 1_704_067_200, nanos: 0 };
const T1: Timestamp = Timestamp { secs: 1_704_067_260, nanos: 0 };

fn s(x: &str) -> String {
    x.to_string()
}

fn item(id: &str, title: &str, state_key: Option<&str>) -> AppItem {
    AppItem {
        id: s(id),
        data: AppItemData {
            title: s(title),
            subtitle: None,
            detail: None,
            url: None,
            icon: None,
            data: None,
        },
        state_key: state_key.map(s),
        persistent: false,
        notify: Vec::new(),
        updated: T0,
    }
}

fn app(name: &str, path: &str, items: Vec<AppItem>, schedule: Vec<AppSchedule>) -> AppData {
    AppData { name: s(name), path: s(path), items, schedule, ui: None, version: 0 }
}

fn weather(items: Vec<AppItem>) -> AppData {
    app("W", "/bin/w", items, Vec::new())
}

fn active_ids(store: &Store) -> Vec<(String, Vec<String>)> {
    let groups: Vec<AppItems> = store.read_active_items();
    let mut out: Vec<(String, Vec<String>)> = groups
        .iter()
        .map(|g| {
            let mut ids: Vec<String> = g.items.iter().map(|i| i.id.clone()).collect();
            ids.sort();
            (g.app.id.clone(), ids)
        })
        .collect();
    out.sort();
    out
}

fn job_ids(store: &Store) -> Vec<String> {
    let mut ids: Vec<String> = store.jobs().iter().map(|j| j.id.clone()).collect();
    ids.sort();
    ids
}

fn snapshot(store: &Store) -> String {
    let mut apps: Vec<String> = store
        .apps()
        .iter()
        .map(|a| format!("{}|{}|{}|{:?}|{}|{:?}|{:?}", a.id, a.name, a.path, a.ui.as_ref().map(|u| u.icon.clone()), a.version, a.error, a.updated_at))
        .collect();
    apps.sort();
    let mut items: Vec<String> = store
        .items()
        .iter()
        .map(|i| {
            format!(
                "{}|{}|{}|{:?}|{}|{:?}|{:?}|{:?}|{}|{}",
                i.app_id,
                i.id,
                i.persistent,
                i.state_key,
                i.data.title,
                i.data.subtitle,
                i.updated_at,
                i.created_at,
                i.dismissed,
                i.notify.as_ref().map(|n| n.len()).unwrap_or(0)
            )
        })
        .collect();
    items.sort();
    let mut jobs: Vec<String> = store
        .jobs()
        .iter()
        .map(|j| format!("{}|{}|{}|{}|{}", j.id, j.kind, j.cron, j.payload.command, j.timeout_secs))
        .collect();
    jobs.sort();
    format!("{:?}\n{:?}\n{:?}", apps, items, jobs)
}

#[test]
fn put_then_active_items_lists_the_item() {
    let mut store = Store::new();
    store.handle_change(&s("weather"), weather(vec![item("x", "T", None)]), false, T0);
    let groups = store.read_active_items();
    assert_eq!(groups.len(), 1);
    assert_eq!(groups[0].app.id, "weather");
    assert_eq!(groups[0].app.name, "W");
    assert_eq!(groups[0].app.path, "/bin/w");
    assert_eq!(groups[0].items.len(), 1);
    assert_eq!(groups[0].items[0].id, "x");
    assert_eq!(groups[0].items[0].data.title, "T");
    assert!(!groups[0].items[0].dismissed);
}

#[test]
fn dismiss_hides_the_item() {
    let mut store = Store::new();
    store.handle_change(&s("weather"), weather(vec![item("x", "T", None)]), false, T0);
    store.set_item_dismissed(&s("weather"), &s("x"), true);
    assert!(store.read_active_items().is_empty());
}

#[test]
fn same_body_again_keeps_it_dismissed() {
    let mut store = Store::new();
    store.handle_change(&s("weather"), weather(vec![item("x", "T", None)]), false, T0);
    store.set_item_dismissed(&s("weather"), &s("x"), true);
    store.handle_change(&s("weather"), weather(vec![item("x", "T", None)]), false, T1);
    assert!(store.read_active_items().is_empty());
}

#[test]
fn new_state_key_resurfaces() {
    let mut store = Store::new();
    store.handle_change(&s("weather"), weather(vec![item("x", "T", None)]), false, T0);
    store.set_item_dismissed(&s("weather"), &s("x"), true);
    store.handle_change(&s("weather"), weather(vec![item("x", "T", None)]), false, T1);
    store.handle_change(&s("weather"), weather(vec![item("x", "T", Some("v2"))]), false, T1);
    assert_eq!(active_ids(&store), vec![(s("weather"), vec![s("x")])]);
}

#[test]
fn schedule_creates_and_removes_job() {
    let mut store = Store::new();
    let sched = AppSchedule { cron: s("*/5 * * * *"), arguments: vec![s("--once")], timeout: None };
    store.handle_change(&s("weather"), app("W", "/bin/w", Vec::new(), vec![sched]), false, T0);
    assert_eq!(job_ids(&store), vec![s("weather:*/5 * * * *")]);
    let job = &store.jobs()[0];
    assert_eq!(job.kind, "scheduled-app");
    assert_eq!(job.cron, "*/5 * * * *");
    assert_eq!(job.timeout_secs, 300);
    assert_eq!(job.payload.app_id, "weather");
    assert_eq!(job.payload.command, "/bin/w");
    assert_eq!(job.payload.schedule.arguments, vec![s("--once")]);
    store.handle_change(&s("weather"), app("W", "/bin/w", Vec::new(), Vec::new()), false, T1);
    assert!(job_ids(&store).is_empty());
}

#[test]
fn file_written_then_deleted_removes_app_and_jobs() {
    let mut store = Store::new();
    let sched = AppSchedule { cron: s("0 * * * *"), arguments: Vec::new(), timeout: Some(60) };
    let data = app("W", "/bin/w", vec![item("x", "T", None)], vec![sched]);
    let write = AppFileInput { app_id: s("weather"), contents: AppFileContents::Parsed(Box::new(data)), merge_items: false };
    store.handle_change_or_error(write, T0);
    assert_eq!(store.jobs()[0].timeout_secs, 60);
    assert!(store.get_app(&s("weather")).is_ok());
    let delete = AppFileInput { app_id: s("weather"), contents: AppFileContents::Empty, merge_items: false };
    store.handle_change_or_error(delete, T1);
    assert!(store.get_app(&s("weather")).is_err());
    assert!(store.read_app_items(&s("weather")).is_empty());
    assert!(store.jobs().is_empty());
}

#[test]
fn reingest_is_idempotent() {
    let mut store = Store::new();
    let sched = AppSchedule { cron: s("*/5 * * * *"), arguments: Vec::new(), timeout: None };
    let make = || app("W", "/bin/w", vec![item("x", "T", Some("a")), item("y", "U", None)], vec![AppSchedule { cron: sched.cron.clone(), arguments: Vec::new(), timeout: None }]);
    store.handle_change(&s("other"), app("O", "/bin/o", vec![item("z", "Z", None)], Vec::new()), false, T0);
    store.handle_change(&s("weather"), make(), false, T0);
    store.set_item_dismissed(&s("weather"), &s("y"), true);
    let first = snapshot(&store);
    store.handle_change(&s("weather"), make(), false, T0);
    assert_eq!(snapshot(&store), first);
}

#[test]
fn unchanged_fields_keep_dismissed() {
    let mut store = Store::new();
    store.handle_change(&s("a"), weather(vec![item("x", "T", Some("k"))]), false, T0);
    store.set_item_dismissed(&s("a"), &s("x"), true);
    let mut changed = item("x", "Another title", Some("k"));
    changed.updated = T1;
    store.handle_change(&s("a"), weather(vec![changed]), false, T1);
    let items = store.read_app_items(&s("a"));
    assert_eq!(items.len(), 1);
    assert!(items[0].dismissed);
    assert_eq!(items[0].data.title, "Another title");
    assert_eq!(items[0].updated_at, T1);
    assert_eq!(items[0].created_at, T0);
}

#[test]
fn changed_display_without_state_key_resurfaces() {
    let mut store = Store::new();
    store.handle_change(&s("a"), weather(vec![item("x", "T", None)]), false, T0);
    store.set_item_dismissed(&s("a"), &s("x"), true);
    store.handle_change(&s("a"), weather(vec![item("x", "T2", None)]), false, T1);
    assert!(!store.read_app_items(&s("a"))[0].dismissed);
}

#[test]
fn state_key_appearing_resurfaces() {
    let mut store = Store::new();
    store.handle_change(&s("a"), weather(vec![item("x", "T", None)]), false, T0);
    store.set_item_dismissed(&s("a"), &s("x"), true);
    store.handle_change(&s("a"), weather(vec![item("x", "T", Some("k"))]), false, T1);
    assert!(!store.read_app_items(&s("a"))[0].dismissed);
}

#[test]
fn state_key_change_resurfaces_dismissed_item() {
    let mut store = Store::new();
    store.handle_change(&s("a"), weather(vec![item("x", "T", Some("A"))]), false, T0);
    store.set_item_dismissed(&s("a"), &s("x"), true);
    store.handle_change(&s("a"), weather(vec![item("x", "T", Some("B"))]), false, T1);
    let items = store.read_app_items(&s("a"));
    assert!(!items[0].dismissed);
    assert_eq!(items[0].state_key, Some(s("B")));
}

#[test]
fn missing_items_are_deleted_unless_merging() {
    let mut store = Store::new();
    store.handle_change(&s("a"), weather(vec![item("x", "T", None), item("y", "U", None)]), false, T0);
    store.handle_change(&s("a"), weather(vec![item("y", "U", None)]), true, T1);
    assert_eq!(store.read_app_items(&s("a")).len(), 2);
    store.handle_change(&s("a"), weather(vec![item("y", "U", None)]), false, T1);
    let items = store.read_app_items(&s("a"));
    assert_eq!(items.len(), 1);
    assert_eq!(items[0].id, "y");
}

#[test]
fn deletion_leaves_other_apps_alone() {
    let mut store = Store::new();
    store.handle_change(&s("a"), weather(vec![item("x", "T", None)]), false, T0);
    store.handle_change(&s("b"), weather(vec![item("x", "T", None)]), false, T0);
    store.handle_change(&s("a"), weather(Vec::new()), false, T1);
    assert!(store.read_app_items(&s("a")).is_empty());
    assert_eq!(store.read_app_items(&s("b")).len(), 1);
}

#[test]
fn schedule_rename_converges() {
    let mut store = Store::new();
    let a = AppSchedule { cron: s("0 1 * * *"), arguments: Vec::new(), timeout: None };
    let b = AppSchedule { cron: s("0 2 * * *"), arguments: Vec::new(), timeout: None };
    store.handle_change(&s("w"), app("W", "/bin/w", Vec::new(), vec![a]), false, T0);
    store.handle_change(&s("other"), app("O", "/bin/o", Vec::new(), vec![AppSchedule { cron: s("0 3 * * *"), arguments: Vec::new(), timeout: None }]), false, T0);
    store.handle_change(&s("w"), app("W", "/bin/w", Vec::new(), vec![b]), false, T1);
    assert_eq!(job_ids(&store), vec![s("other:0 3 * * *"), s("w:0 2 * * *")]);
}

#[test]
fn empty_input_removes_items_and_jobs() {
    let mut store = Store::new();
    let sched = AppSchedule { cron: s("0 1 * * *"), arguments: Vec::new(), timeout: None };
    store.handle_change(&s("w"), app("W", "/bin/w", vec![item("x", "T", None)], vec![sched]), false, T0);
    store.handle_change(&s("wx"), app("X", "/bin/x", vec![item("x", "T", None)], Vec::new()), false, T0);
    store.handle_remove(&s("w"));
    assert!(store.read_app_items(&s("w")).is_empty());
    assert!(store.jobs().is_empty());
    assert_eq!(store.read_app_items(&s("wx")).len(), 1);
}

#[test]
fn inputs_apply_in_order() {
    let mut batch = Store::new();
    let mut single = Store::new();
    let a = || AppFileInput { app_id: s("w"), contents: AppFileContents::Parsed(Box::new(weather(vec![item("x", "T", None)]))), merge_items: false };
    let b = || AppFileInput { app_id: s("w"), contents: AppFileContents::Parsed(Box::new(weather(vec![item("y", "U", None)]))), merge_items: false };
    batch.handle_changes(vec![a(), b()], T0);
    single.handle_change_or_error(a(), T0);
    single.handle_change_or_error(b(), T0);
    assert_eq!(snapshot(&batch), snapshot(&single));
    let items = batch.read_app_items(&s("w"));
    assert_eq!(items.len(), 1);
    assert_eq!(items[0].id, "y");
}

#[test]
fn lower_version_keeps_metadata_but_reconciles_items() {
    let mut store = Store::new();
    let mut v5 = app("Five", "/bin/five", vec![item("x", "T", None)], Vec::new());
    v5.version = 5;
    v5.ui = Some(AppUiInfo { icon: Some(s("sun")) });
    store.handle_change(&s("w"), v5, false, T0);
    let mut v3 = app("Three", "/bin/three", vec![item("y", "U", None)], Vec::new());
    v3.version = 3;
    store.handle_change(&s("w"), v3, false, T1);
    let row = &store.apps()[0];
    assert_eq!(row.name, "Five");
    assert_eq!(row.path, "/bin/five");
    assert_eq!(row.version, 5);
    assert_eq!(row.ui.as_ref().and_then(|u| u.icon.clone()), Some(s("sun")));
    let items = store.read_app_items(&s("w"));
    assert_eq!(items.len(), 1);
    assert_eq!(items[0].id, "y");
    let mut v7 = app("Seven", "/bin/seven", Vec::new(), Vec::new());
    v7.version = 7;
    store.handle_change(&s("w"), v7, false, T1);
    assert_eq!(store.apps()[0].name, "Seven");
    assert_eq!(store.apps()[0].version, 7);
    store.handle_change(&s("w"), app("Plain", "/bin/p", Vec::new(), Vec::new()), false, T1);
    assert_eq!(store.apps()[0].name, "Plain");
    assert_eq!(store.apps()[0].version, 7);
}

#[test]
fn raw_decode_error_is_recorded_and_cleared() {
    let mut store = Store::new();
    store.handle_change(&s("w"), weather(Vec::new()), false, T0);
    store.handle_raw_data(&s("w"), Err(s("expected value at line 1")), false, T1);
    assert_eq!(store.apps()[0].error, Some(s("expected value at line 1")));
    assert_eq!(store.apps()[0].updated_at, T1);
    store.handle_raw_data(&s("w"), Ok(weather(Vec::new())), false, T1);
    assert_eq!(store.apps()[0].error, None);
}

#[test]
fn status_of_unknown_app_changes_nothing() {
    let mut store = Store::new();
    store.update_app_status(&s("nope"), Some(s("bad")), T0);
    assert!(store.apps().is_empty());
}

#[test]
fn item_post_needs_its_app() {
    let mut store = Store::new();
    let row = glance::items::Item::from_app_item_at(s("w"), item("x", "T", None), T0);
    assert!(matches!(store.create_or_update_item(row, false), Err(glance::error::Error::Db)));
    store.handle_change(&s("w"), weather(Vec::new()), false, T0);
    let row = glance::items::Item::from_app_item_at(s("w"), item("x", "T", None), T0);
    assert!(store.create_or_update_item(row, false).is_ok());
    store.set_item_dismissed(&s("w"), &s("x"), true);
    let again = glance::items::Item::from_app_item_at(s("w"), item("x", "T", None), T1);
    store.create_or_update_item(again, false).unwrap();
    assert!(store.read_app_items(&s("w"))[0].dismissed);
    assert_eq!(store.read_app_items(&s("w"))[0].created_at, T0);
    let third = glance::items::Item::from_app_item_at(s("w"), item("x", "T", None), T1);
    store.create_or_update_item(third, true).unwrap();
    assert!(!store.read_app_items(&s("w"))[0].dismissed);
}

#[test]
fn undismiss_brings_item_back() {
    let mut store = Store::new();
    store.handle_change(&s("w"), weather(vec![item("x", "T", None)]), false, T0);
    store.set_item_dismissed(&s("w"), &s("x"), true);
    store.set_item_dismissed(&s("w"), &s("x"), false);
    assert_eq!(active_ids(&store), vec![(s("w"), vec![s("x")])]);
}

#[test]
fn active_items_group_by_app_and_skip_apps_without_any() {
    let mut store = Store::new();
    store.handle_change(&s("a"), weather(vec![item("x", "T", None), item("y", "U", None)]), false, T0);
    store.handle_change(&s("b"), weather(vec![item("z", "Z", None)]), false, T0);
    store.handle_change(&s("c"), weather(Vec::new()), false, T0);
    store.set_item_dismissed(&s("b"), &s("z"), true);
    assert_eq!(active_ids(&store), vec![(s("a"), vec![s("x"), s("y")])]);
}

#[test]
fn get_apps_lists_requested_apps() {
    let mut store = Store::new();
    store.handle_change(&s("a"), weather(Vec::new()), false, T0);
    store.handle_change(&s("b"), weather(Vec::new()), false, T0);
    let apps = store.get_apps(&vec![s("b"), s("zzz")]);
    assert_eq!(apps.len(), 1);
    assert_eq!(apps[0].id, "b");
    match store.get_app(&s("zzz")) {
        Err(e) => {
            assert_eq!(e.status_code(), 404);
            assert_eq!(e.message(), "App not found");
        }
        Ok(_) => panic!("expected an error"),
    }
}

#[test]
fn notifications_are_stored() {
    let mut store = Store::new();
    let mut it = item("x", "T", None);
    it.notify = vec![Notification { id: s("n"), data: NotificationData { title: s("N"), subtitle: None, icon: None } }];
    store.handle_change(&s("a"), weather(vec![it]), false, T0);
    let items = store.read_app_items(&s("a"));
    let notify = items[0].notify.as_ref().unwrap();
    assert_eq!(notify.len(), 1);
    assert_eq!(notify[0].data.title, "N");
}

#[test]
fn events_are_appended() {
    let mut store = Store::new();
    store.handle_change(&s("a"), weather(Vec::new()), false, T0);
    store.record_event(glance::store::EventType::ScheduledRun, &s("a"), None, None, T1);
    assert_eq!(store.events().len(), 1);
    assert_eq!(store.events()[0].event_type, glance::store::EventType::ScheduledRun);
}

#[test]
fn reingest_with_repeated_ids_is_idempotent() {
    let mut store = Store::new();
    store.handle_change(&s("w"), weather(vec![item("x", "T", Some("a"))]), false, T0);
    store.set_item_dismissed(&s("w"), &s("x"), true);
    let make = || weather(vec![item("x", "T", Some("b")), item("x", "T", Some("a"))]);
    store.handle_change(&s("w"), make(), false, T1);
    let first = snapshot(&store);
    assert!(!store.read_app_items(&s("w"))[0].dismissed);
    store.handle_change(&s("w"), make(), false, T1);
    assert_eq!(snapshot(&store), first);
}

#[test]
fn remove_unfound_items_keeps_listed_ids() {
    let mut store = Store::new();
    store.handle_change(&s("a"), weather(vec![item("x", "T", None), item("y", "U", None), item("z", "V", None)]), false, T0);
    store.remove_unfound_items(&s("a"), &vec![s("x"), s("z")]);
    let mut ids: Vec<String> = store.read_app_items(&s("a")).iter().map(|i| i.id.clone()).collect();
    ids.sort();
    assert_eq!(ids, vec![s("x"), s("z")]);
}

#[test]
fn create_or_update_app_writes_metadata_and_jobs_only() {
    let mut store = Store::new();
    let sched = AppSchedule { cron: s("0 5 * * *"), arguments: Vec::new(), timeout: Some(30) };
    let data = app("W", "/bin/w", vec![item("x", "T", None)], vec![sched]);
    store.create_or_update_app(&s("w"), &data, T0);
    assert_eq!(store.apps().len(), 1);
    assert_eq!(store.apps()[0].name, "W");
    assert_eq!(store.apps()[0].error, None);
    assert!(store.items().is_empty());
    assert_eq!(job_ids(&store), vec![s("w:0 5 * * *")]);
    assert_eq!(store.jobs()[0].timeout_secs, 30);
}
