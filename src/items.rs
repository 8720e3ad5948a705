//! Items as the store holds them, and the rule that decides when a changed
//! item comes back to the dashboard.

use vstd::prelude::*;
use crate::app_data::{
    opt_eq, opt_view, copy_opt, copy_notifications, notifications_view, AppItem, AppItemData,
    AppItemView, ItemDataView, Notification, NotificationView, Timestamp,
};

verus! {

/// An app as the read side shows it.
pub struct AppInfo {
    pub id: String,
    pub name: String,
    pub path: String,
}

pub struct AppInfoView {
    pub id: Seq<char>,
    pub name: Seq<char>,
    pub path: Seq<char>,
}

impl View for AppInfo {
    type V = AppInfoView;

    open spec fn view(&self) -> AppInfoView {
        AppInfoView { id: self.id@, name: self.name@, path: self.path@ }
    }
}

/// An app together with its items.
pub struct AppItems {
    pub app: AppInfo,
    pub items: Vec<Item>,
}

pub struct AppItemsView {
    pub app: AppInfoView,
    pub items: Seq<ItemView>,
}

impl View for AppItems {
    type V = AppItemsView;

    open spec fn view(&self) -> AppItemsView {
        AppItemsView { app: self.app@, items: items_view(self.items@) }
    }
}

/// An item as the store holds it.
pub struct Item {
    pub app_id: String,
    pub id: String,
    pub persistent: bool,
    pub state_key: Option<String>,
    pub data: AppItemData,
    pub notify: Option<Vec<Notification>>,
    /// When the app last updated the item
    pub updated_at: Timestamp,
    /// When the store first saw the item
    pub created_at: Timestamp,
    /// Whether the user has dismissed the item
    pub dismissed: bool,
}

pub struct ItemView {
    pub app_id: Seq<char>,
    pub id: Seq<char>,
    pub persistent: bool,
    pub state_key: Option<Seq<char>>,
    pub data: ItemDataView,
    pub notify: Option<Seq<NotificationView>>,
    pub updated_at: Timestamp,
    pub created_at: Timestamp,
    pub dismissed: bool,
}

pub open spec fn opt_notifications_view(n: Option<Vec<Notification>>) -> Option<Seq<NotificationView>> {
    match n {
        Some(v) => Some(notifications_view(v@)),
        None => None,
    }
}

impl View for Item {
    type V = ItemView;

    open spec fn view(&self) -> ItemView {
        ItemView {
            app_id: self.app_id@,
            id: self.id@,
            persistent: self.persistent,
            state_key: opt_view(self.state_key),
            data: self.data@,
            notify: opt_notifications_view(self.notify),
            updated_at: self.updated_at,
            created_at: self.created_at,
            dismissed: self.dismissed,
        }
    }
}

pub open spec fn items_view(s: Seq<Item>) -> Seq<ItemView> {
    s.map_values(|i: Item| i@)
}

/// The row that a submitted item becomes when it is first stored.
pub open spec fn new_row(app_id: Seq<char>, s: AppItemView, now: Timestamp) -> ItemView {
    ItemView {
        app_id,
        id: s.id,
        persistent: s.persistent,
        state_key: s.state_key,
        data: s.data,
        notify: Some(s.notify),
        updated_at: s.updated,
        created_at: now,
        dismissed: false,
    }
}

/// The fields that, without state keys, decide whether an item changed.
pub open spec fn same_display(c: ItemView, s: AppItemView) -> bool {
    &&& c.data.title == s.data.title
    &&& c.data.subtitle == s.data.subtitle
    &&& c.data.detail == s.data.detail
    &&& c.data.icon == s.data.icon
    &&& c.persistent == s.persistent
}

pub open spec fn equal_stateless_spec(c: ItemView, s: AppItemView) -> bool {
    c.id == s.id && same_display(c, s)
}

/// Whether a submitted item differs from the stored one enough to show it again.
pub open spec fn changed_from_spec(c: ItemView, s: AppItemView) -> bool {
    match (c.state_key, s.state_key) {
        (Some(a), Some(b)) => a != b,
        (None, None) => !equal_stateless_spec(c, s),
        _ => true,
    }
}

/// Relies on chrono::Utc::now: the current time in seconds and nanoseconds.
#[verifier::external_body]
fn utc_now() -> (r: Timestamp) {
    let t = chrono::Utc::now();
    Timestamp { secs: t.timestamp(), nanos: t.timestamp_subsec_nanos() }
}

impl Item {
    /// The row for a submitted item, first stored at `now`.
    pub fn from_app_item_at(app_id: String, item: AppItem, now: Timestamp) -> (r: Item)
        ensures
            r@ == new_row(app_id@, item@, now),
    {
        Item {
            app_id,
            id: item.id,
            persistent: item.persistent,
            data: item.data,
            notify: Some(item.notify),
            state_key: item.state_key,
            updated_at: item.updated,
            created_at: now,
            dismissed: false,
        }
    }

    /// The row for a submitted item, first stored now.
    pub fn from_app_item(app_id: String, item: AppItem) -> (r: Item)
        ensures
            r@ == new_row(app_id@, item@, r.created_at),
    {
        let now = utc_now();
        Item::from_app_item_at(app_id, item, now)
    }

    /// Whether `other` should bring this item back to the dashboard: by the
    /// state keys where both have one, by the displayed fields where neither
    /// has, and always where only one has.
    pub fn changed_from(&self, other: &AppItem) -> (r: bool)
        ensures
            r == changed_from_spec(self@, other@),
    {
        match (&self.state_key, &other.state_key) {
            (Some(a), Some(b)) => *a != *b,
            (None, None) => !self.equal_stateless(other),
            _ => true,
        }
    }

    /// Whether `other` has this item's id and shows the same thing, apart from
    /// its timestamp.
    pub fn equal_stateless(&self, other: &AppItem) -> (r: bool)
        ensures
            r == equal_stateless_spec(self@, other@),
    {
        self.id == other.id && self.data.title == other.data.title && opt_eq(
            &self.data.subtitle,
            &other.data.subtitle,
        ) && opt_eq(&self.data.detail, &other.data.detail) && opt_eq(
            &self.data.icon,
            &other.data.icon,
        ) && self.persistent == other.persistent
    }

    pub fn copy(&self) -> (r: Item)
        ensures
            r@ == self@,
    {
        let notify = match &self.notify {
            Some(n) => Some(copy_notifications(n)),
            None => None,
        };
        Item {
            app_id: self.app_id.clone(),
            id: self.id.clone(),
            persistent: self.persistent,
            state_key: copy_opt(&self.state_key),
            data: self.data.copy(),
            notify,
            updated_at: self.updated_at,
            created_at: self.created_at,
            dismissed: self.dismissed,
        }
    }
}

} // verus!
