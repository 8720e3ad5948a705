//! What the sources hand to the reconciler.

use vstd::prelude::*;
use crate::app_data::AppData;

verus! {

/// The contents of an input for one app.
pub enum AppFileContents {
    /// No data: the app is to be removed
    Empty,
    /// Text that has yet to be decoded, as read from a file
    Raw(String),
    /// A decoded submission
    Parsed(Box<AppData>),
}

impl AppFileContents {
    /// Whether there is no data.
    pub fn is_empty(&self) -> (r: bool)
        ensures
            r == (*self is Empty),
    {
        match self {
            AppFileContents::Empty => true,
            _ => false,
        }
    }
}

/// An app's data, to be reconciled against what the store holds.
pub struct AppFileInput {
    pub app_id: String,
    pub contents: AppFileContents,
    /// Keep stored items that the submission leaves out
    pub merge_items: bool,
}

} // verus!
