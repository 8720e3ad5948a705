//! The submission schema: what an app hands to the platform.

use vstd::prelude::*;

verus! {

/// A point in time, in whole seconds since the Unix epoch and nanoseconds
/// within that second.
#[derive(Clone, Copy, Debug, PartialEq, Eq, Structural)]
pub struct Timestamp {
    pub secs: i64,
    pub nanos: u32,
}

impl Timestamp {
    pub open spec fn wf(self) -> bool {
        self.nanos < 1_000_000_000
    }
}

/// The view of an optional string.
pub open spec fn opt_view(o: Option<String>) -> Option<Seq<char>> {
    match o {
        Some(s) => Some(s@),
        None => None,
    }
}

/// Copies an optional string.
pub fn copy_opt(o: &Option<String>) -> (r: Option<String>)
    ensures
        r == *o,
{
    match o {
        Some(s) => Some(s.clone()),
        None => None,
    }
}

/// Compares two optional strings by their characters.
pub fn opt_eq(a: &Option<String>, b: &Option<String>) -> (r: bool)
    ensures
        r == (opt_view(*a) == opt_view(*b)),
{
    match (a, b) {
        (Some(x), Some(y)) => *x == *y,
        (None, None) => true,
        _ => false,
    }
}

/// Copies a list of strings.
pub fn copy_strings(v: &Vec<String>) -> (r: Vec<String>)
    ensures
        r@ == v@,
{
    let mut r: Vec<String> = Vec::new();
    let mut i: usize = 0;
    while i < v.len()
        invariant
            i <= v.len(),
            r@ == v@.subrange(0, i as int),
        decreases v.len() - i,
    {
        r.push(v[i].clone());
        i = i + 1;
    }
    assert(r@ =~= v@);
    r
}


/// Display hints for an app.
pub struct AppUiInfo {
    /// The icon that the app shows
    pub icon: Option<String>,
}

pub struct UiView {
    pub icon: Option<Seq<char>>,
}

impl View for AppUiInfo {
    type V = UiView;

    open spec fn view(&self) -> UiView {
        UiView { icon: opt_view(self.icon) }
    }
}

pub open spec fn ui_view(u: Option<AppUiInfo>) -> Option<UiView> {
    match u {
        Some(u) => Some(u@),
        None => None,
    }
}

impl AppUiInfo {
    pub fn copy(&self) -> (r: AppUiInfo)
        ensures
            r@ == self@,
    {
        AppUiInfo { icon: copy_opt(&self.icon) }
    }
}

/// The display data of an item.
pub struct AppItemData {
    /// The title at the top of the card
    pub title: String,
    /// A subtitle shown below the title
    pub subtitle: Option<String>,
    /// Extra information that can be shown
    pub detail: Option<String>,
    /// A URL to open when the title is clicked
    pub url: Option<String>,
    /// An icon shown with the item
    pub icon: Option<String>,
    /// Extra structured data, kept as JSON text
    pub data: Option<String>,
}

pub struct ItemDataView {
    pub title: Seq<char>,
    pub subtitle: Option<Seq<char>>,
    pub detail: Option<Seq<char>>,
    pub url: Option<Seq<char>>,
    pub icon: Option<Seq<char>>,
    pub data: Option<Seq<char>>,
}

impl View for AppItemData {
    type V = ItemDataView;

    open spec fn view(&self) -> ItemDataView {
        ItemDataView {
            title: self.title@,
            subtitle: opt_view(self.subtitle),
            detail: opt_view(self.detail),
            url: opt_view(self.url),
            icon: opt_view(self.icon),
            data: opt_view(self.data),
        }
    }
}

impl AppItemData {
    pub fn copy(&self) -> (r: AppItemData)
        ensures
            r@ == self@,
    {
        AppItemData {
            title: self.title.clone(),
            subtitle: copy_opt(&self.subtitle),
            detail: copy_opt(&self.detail),
            url: copy_opt(&self.url),
            icon: copy_opt(&self.icon),
            data: copy_opt(&self.data),
        }
    }
}

/// The display data of a notification.
pub struct NotificationData {
    /// The title of the notification
    pub title: String,
    /// A subtitle shown below the title
    pub subtitle: Option<String>,
    /// An icon shown with the notification
    pub icon: Option<String>,
}

/// A notification attached to an item.
pub struct Notification {
    /// An id that is unique among the app's notifications
    pub id: String,
    /// What the notification shows
    pub data: NotificationData,
}

pub struct NotificationView {
    pub id: Seq<char>,
    pub title: Seq<char>,
    pub subtitle: Option<Seq<char>>,
    pub icon: Option<Seq<char>>,
}

impl View for Notification {
    type V = NotificationView;

    open spec fn view(&self) -> NotificationView {
        NotificationView {
            id: self.id@,
            title: self.data.title@,
            subtitle: opt_view(self.data.subtitle),
            icon: opt_view(self.data.icon),
        }
    }
}

pub open spec fn notifications_view(v: Seq<Notification>) -> Seq<NotificationView> {
    v.map_values(|n: Notification| n@)
}

impl Notification {
    pub fn copy(&self) -> (r: Notification)
        ensures
            r@ == self@,
    {
        Notification {
            id: self.id.clone(),
            data: NotificationData {
                title: self.data.title.clone(),
                subtitle: copy_opt(&self.data.subtitle),
                icon: copy_opt(&self.data.icon),
            },
        }
    }
}

/// Copies a list of notifications.
pub fn copy_notifications(v: &Vec<Notification>) -> (r: Vec<Notification>)
    ensures
        notifications_view(r@) == notifications_view(v@),
{
    let mut r: Vec<Notification> = Vec::new();
    let mut i: usize = 0;
    while i < v.len()
        invariant
            i <= v.len(),
            r@.len() == i,
            forall|k: int| 0 <= k < i ==> #[trigger] r@[k]@ == v@[k]@,
        decreases v.len() - i,
    {
        let n = v[i].copy();
        r.push(n);
        i = i + 1;
    }
    assert(notifications_view(r@) =~= notifications_view(v@));
    r
}

/// A cron schedule on which the platform runs the app.
pub struct AppSchedule {
    /// The cron expression
    pub cron: String,
    /// The arguments passed to the app
    pub arguments: Vec<String>,
    /// How many seconds the app may run before it is killed; five minutes when absent
    pub timeout: Option<u32>,
}

pub struct ScheduleView {
    pub cron: Seq<char>,
    pub arguments: Seq<String>,
    pub timeout: Option<u32>,
}

impl View for AppSchedule {
    type V = ScheduleView;

    open spec fn view(&self) -> ScheduleView {
        ScheduleView { cron: self.cron@, arguments: self.arguments@, timeout: self.timeout }
    }
}

impl AppSchedule {
    pub fn copy(&self) -> (r: AppSchedule)
        ensures
            r@ == self@,
    {
        AppSchedule {
            cron: self.cron.clone(),
            arguments: copy_strings(&self.arguments),
            timeout: self.timeout,
        }
    }
}

/// An item that an app publishes.
pub struct AppItem {
    /// An id that is unique among the app's items
    pub id: String,
    /// What the item shows
    pub data: AppItemData,
    /// A fingerprint: a new value marks a change worth showing again
    pub state_key: Option<String>,
    /// Whether the item stays on the dashboard
    pub persistent: bool,
    /// Notifications for this item
    pub notify: Vec<Notification>,
    /// When the app last updated the item
    pub updated: Timestamp,
}

pub struct AppItemView {
    pub id: Seq<char>,
    pub data: ItemDataView,
    pub state_key: Option<Seq<char>>,
    pub persistent: bool,
    pub notify: Seq<NotificationView>,
    pub updated: Timestamp,
}

impl View for AppItem {
    type V = AppItemView;

    open spec fn view(&self) -> AppItemView {
        AppItemView {
            id: self.id@,
            data: self.data@,
            state_key: opt_view(self.state_key),
            persistent: self.persistent,
            notify: notifications_view(self.notify@),
            updated: self.updated,
        }
    }
}

impl AppItem {
    pub fn copy(&self) -> (r: AppItem)
        ensures
            r@ == self@,
    {
        AppItem {
            id: self.id.clone(),
            data: self.data.copy(),
            state_key: copy_opt(&self.state_key),
            persistent: self.persistent,
            notify: copy_notifications(&self.notify),
            updated: self.updated,
        }
    }
}

/// A full snapshot of an app: its metadata, items and schedules.
pub struct AppData {
    /// The name of the app
    pub name: String,
    /// The command that runs the app
    pub path: String,
    /// The items that the app publishes
    pub items: Vec<AppItem>,
    /// The schedules on which the platform runs the app
    pub schedule: Vec<AppSchedule>,
    /// Display hints
    pub ui: Option<AppUiInfo>,
    /// A guard for the metadata: zero when the submission carries no version
    pub version: u32,
}

pub struct AppDataView {
    pub name: Seq<char>,
    pub path: Seq<char>,
    pub items: Seq<AppItemView>,
    pub schedule: Seq<ScheduleView>,
    pub ui: Option<UiView>,
    pub version: u32,
}

impl View for AppData {
    type V = AppDataView;

    open spec fn view(&self) -> AppDataView {
        AppDataView {
            name: self.name@,
            path: self.path@,
            items: app_items_view(self.items@),
            schedule: schedules_view(self.schedule@),
            ui: ui_view(self.ui),
            version: self.version,
        }
    }
}

pub open spec fn app_items_view(s: Seq<AppItem>) -> Seq<AppItemView> {
    s.map_values(|i: AppItem| i@)
}

pub open spec fn schedules_view(s: Seq<AppSchedule>) -> Seq<ScheduleView> {
    s.map_values(|s: AppSchedule| s@)
}

/// The version that a submission without one carries.
pub fn zero() -> (r: u32)
    ensures
        r == 0,
{
    0
}

} // verus!
