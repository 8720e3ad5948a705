use glance::app_data::{zero, AppItem, AppItemData, AppSchedule, Timestamp};
use glance::config::BootstrapCommand;
use glance::error::{Error, ErrorResponseData};
use glance::input::AppFileContents;
use glance::items::Item;
use glance::models::{OrganizationCreatePayloadAndUpdatePayload, UserCreatePayloadAndUpdatePayload};
use glance::paths::{join, App};
use glance::runner::{log_file_paths, remaining_millis, run_result, worker_concurrency, RunOutcome};
use glance::schedule::{job_id, job_prefix, plan_schedule, starts_with, timeout_secs};
use glance::source::{app_id_for_path, input_for_read, FileRead};

const T0: Timestamp = Timestamp { secs: 1_704_067_200, nanos: 0 };

fn s(x: &str) -> String {
    x.to_string()
}

fn data(title: &str) -> AppItemData {
    AppItemData { title: s(title), subtitle: None, detail: None, url: None, icon: None, data: None }
}

fn app_item(id: &str, title: &str, key: Option<&str>, persistent: bool) -> AppItem {
    AppItem { id: s(id), data: data(title), state_key: key.map(s), persistent, notify: Vec::new(), updated: T0 }
}

fn stored(id: &str, title: &str, key: Option<&str>) -> Item {
    Item::from_app_item_at(s("app"), app_item(id, title, key, false), T0)
}

#[test]
fn changed_from_compares_state_keys() {
    assert!(!stored("x", "T", Some("a")).changed_from(&app_item("x", "Other", Some("a"), true)));
    assert!(stored("x", "T", Some("a")).changed_from(&app_item("x", "T", Some("b"), false)));
    assert!(stored("x", "T", Some("a")).changed_from(&app_item("x", "T", None, false)));
    assert!(stored("x", "T", None).changed_from(&app_item("x", "T", Some("a"), false)));
}

#[test]
fn changed_from_compares_fields_without_state_keys() {
    assert!(!stored("x", "T", None).changed_from(&app_item("x", "T", None, false)));
    assert!(stored("x", "T", None).changed_from(&app_item("x", "T2", None, false)));
    assert!(stored("x", "T", None).changed_from(&app_item("x", "T", None, true)));
    let mut other = app_item("x", "T", None, false);
    other.data.subtitle = Some(s("sub"));
    assert!(stored("x", "T", None).changed_from(&other));
    let mut url_only = app_item("x", "T", None, false);
    url_only.data.url = Some(s("https://example.com"));
    url_only.updated = Timestamp { secs: 5, nanos: 0 };
    assert!(!stored("x", "T", None).changed_from(&url_only));
}

#[test]
fn equal_stateless_checks_id_and_display() {
    assert!(stored("x", "T", None).equal_stateless(&app_item("x", "T", Some("k"), false)));
    assert!(!stored("x", "T", None).equal_stateless(&app_item("y", "T", None, false)));
}

#[test]
fn from_app_item_takes_the_current_time() {
    let item = Item::from_app_item(s("app"), app_item("x", "T", Some("k"), true));
    assert!(item.created_at.secs > 1_600_000_000);
    assert_eq!(item.updated_at, T0);
    assert_eq!(item.app_id, "app");
    assert_eq!(item.state_key, Some(s("k")));
    assert!(item.persistent);
    assert!(!item.dismissed);
}

#[test]
fn job_ids_join_app_and_cron() {
    assert_eq!(job_id("weather", "*/5 * * * *"), "weather:*/5 * * * *");
    assert_eq!(job_prefix("weather"), "weather:");
    assert!(starts_with("weather:x", "weather:"));
    assert!(!starts_with("weathe", "weather:"));
    assert!(!starts_with("other:x", "weather:"));
    assert!(starts_with("", ""));
}

#[test]
fn timeout_defaults_to_five_minutes() {
    let a = AppSchedule { cron: s("* * * * *"), arguments: Vec::new(), timeout: None };
    let b = AppSchedule { cron: s("* * * * *"), arguments: Vec::new(), timeout: Some(12) };
    assert_eq!(timeout_secs(&a), 300);
    assert_eq!(timeout_secs(&b), 12);
}

#[test]
fn plan_upserts_each_schedule_and_removes_the_rest() {
    let schedules = vec![
        AppSchedule { cron: s("0 1 * * *"), arguments: vec![s("--a")], timeout: None },
        AppSchedule { cron: s("0 2 * * *"), arguments: Vec::new(), timeout: Some(9) },
    ];
    let existing = vec![s("w:0 1 * * *"), s("w:old"), s("w:older")];
    let plan = plan_schedule("w", "/bin/w", &existing, &schedules);
    let ids: Vec<String> = plan.upserts.iter().map(|j| j.id.clone()).collect();
    assert_eq!(ids, vec![s("w:0 1 * * *"), s("w:0 2 * * *")]);
    assert_eq!(plan.upserts[1].timeout_secs, 9);
    assert_eq!(plan.upserts[0].payload.schedule.arguments, vec![s("--a")]);
    assert_eq!(plan.removals, vec![s("w:old"), s("w:older")]);
}

#[test]
fn error_kinds_and_statuses() {
    assert_eq!(Error::ReadAppData.status_code(), 400);
    assert_eq!(Error::ReadAppData.error_kind(), "read_app_data");
    assert_eq!(Error::Db.status_code(), 500);
    assert_eq!(Error::Db.error_kind(), "db");
    assert_eq!(Error::DbInit.error_kind(), "db_init");
    assert_eq!(Error::TaskQueue.error_kind(), "task_queue");
    assert_eq!(Error::TaskQueue.status_code(), 500);
    assert_eq!(Error::ScheduledTask.error_kind(), "scheduled_task");
    assert_eq!(Error::ServerStart.error_kind(), "server");
    assert_eq!(Error::Shutdown.error_kind(), "shutdown");
    assert_eq!(Error::NotFound("App").error_kind(), "not_found");
    assert_eq!(Error::NotFound("App").status_code(), 404);
    assert_eq!(Error::Db.message(), "Database error");
    let (code, body) = Error::NotFound("Item").response_tuple();
    assert_eq!(code, 404);
    assert_eq!(body.error.kind, "not_found");
    assert_eq!(body.error.message, "Item not found");
    let d = ErrorResponseData::new(s("k"), s("m"));
    assert_eq!(d.error.kind, "k");
    assert_eq!(d.error.message, "m");
}

#[test]
fn paths_follow_the_layout() {
    assert_eq!(join("/base", "app_data"), "/base/app_data");
    assert_eq!(join("/base/", "tmp"), "/base/tmp");
    assert_eq!(join("", "tmp"), "tmp");
    assert_eq!(join("/base", "/abs"), "/abs");
    let app = App::new(s("weather"));
    assert_eq!(App::base_data_dir_in("/home/u/.local/share"), "/home/u/.local/share/glance-dashboards");
    assert_eq!(App::data_dir_in("/b"), "/b/app_data");
    assert_eq!(App::tmp_data_dir_in("/b"), "/b/tmp");
    assert_eq!(app.data_file_in("/b"), "/b/app_data/weather.json");
    assert_eq!(app.state_dir_in("/b"), "/b/app_state");
    assert_eq!(app.tmp_file_name("1700000000000"), "weather-1700000000000.json");
    if let Some(d) = App::data_dir() {
        assert!(d.ends_with("glance-dashboards/app_data"));
    }
    if let Some(f) = app.data_file() {
        assert!(f.ends_with("glance-dashboards/app_data/weather.json"));
    }
    if let Some(t) = App::tmp_data_dir() {
        assert!(t.ends_with("/tmp"));
    }
    if let Some(st) = app.state_dir() {
        assert!(st.ends_with("/app_state"));
    }
}

#[test]
fn only_json_files_name_apps() {
    assert_eq!(app_id_for_path("/d/app_data/weather.json"), Some(s("weather")));
    assert_eq!(app_id_for_path("weather.json"), Some(s("weather")));
    assert_eq!(app_id_for_path("/d/app_data/weather.txt"), None);
    assert_eq!(app_id_for_path("/d/app_data/.json"), None);
    assert_eq!(app_id_for_path("/d/app_data/a.b.json"), Some(s("a.b")));
    assert_eq!(app_id_for_path("/d/x.json/readme"), None);
}

#[test]
fn reads_become_inputs() {
    let i = input_for_read(s("w"), FileRead::Contents(s("{}"))).unwrap();
    assert_eq!(i.app_id, "w");
    assert!(matches!(i.contents, AppFileContents::Raw(ref t) if t == "{}"));
    assert!(!i.contents.is_empty());
    let gone = input_for_read(s("w"), FileRead::Missing).unwrap();
    assert!(gone.contents.is_empty());
    assert_eq!(input_for_read(s("w"), FileRead::Failed(s("denied"))).err(), Some(s("denied")));
}

#[test]
fn remaining_time_until_expiry() {
    let now = Timestamp { secs: 100, nanos: 250_000_000 };
    assert_eq!(remaining_millis(160, now), Some(59_750));
    assert_eq!(remaining_millis(100, now), None);
    assert_eq!(remaining_millis(i64::MAX, Timestamp { secs: 0, nanos: 0 }), Some(u64::MAX));
}

#[test]
fn run_outcomes_become_job_results() {
    assert_eq!(run_result(RunOutcome::Succeeded), Ok(()));
    assert_eq!(run_result(RunOutcome::TimedOut), Err(s("Task timed out")));
    assert_eq!(run_result(RunOutcome::Failed(s("exit status: 2"))), Err(s("Command failed with exit status: 2")));
    let (out, err) = log_file_paths("/logs", "weather");
    assert_eq!(out, "/logs/weather.stdout.log");
    assert_eq!(err, "/logs/weather.stderr.log");
    assert_eq!(worker_concurrency(None), 4);
    assert_eq!(worker_concurrency(Some(8)), 8);
    assert_eq!(worker_concurrency(Some(100_000)), u16::MAX);
}

#[test]
fn payload_defaults_are_empty() {
    let u = UserCreatePayloadAndUpdatePayload::default();
    assert!(u.id.is_none() && u.email.is_none() && u.avatar_url.is_none());
    assert_eq!(u.name, "");
    assert_eq!(UserCreatePayloadAndUpdatePayload::default_name(), "");
    let o = OrganizationCreatePayloadAndUpdatePayload::default();
    assert!(o.id.is_none() && o.owner.is_none() && o.default_role.is_none());
    assert_eq!(OrganizationCreatePayloadAndUpdatePayload::default_name(), "");
    assert_eq!(zero(), 0);
}

#[test]
fn bootstrap_names_default() {
    let cmd = BootstrapCommand { admin_email: s("a@b"), admin_name: None, admin_password: None, organization_name: None, force: false };
    assert_eq!(cmd.admin_name_or_default(), "Admin");
    assert_eq!(cmd.organization_name_or_default(), "Administration");
    let named = BootstrapCommand { admin_email: s("a@b"), admin_name: Some(s("Ann")), admin_password: None, organization_name: Some(s("Org")), force: true };
    assert_eq!(named.admin_name_or_default(), "Ann");
    assert_eq!(named.organization_name_or_default(), "Org");
}
