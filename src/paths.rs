//! Where the platform and its apps keep their files.

use vstd::prelude::*;

verus! {

/// The directory, under the base directory, that holds the apps' data files.
pub const APP_DATA_SUBDIR: &'static str = "app_data";

/// The path of `comp` under `base`, as joining paths gives it: an absolute
/// `comp` stands alone, and one separator stands between the two.
pub open spec fn path_join(base: Seq<char>, comp: Seq<char>) -> Seq<char> {
    if comp.len() > 0 && comp[0] == '/' {
        comp
    } else if base.len() == 0 {
        comp
    } else if base.last() == '/' {
        base + comp
    } else {
        base + seq!['/'] + comp
    }
}

/// Joins `comp` onto the path `base`.
pub fn join(base: &str, comp: &str) -> (r: String)
    ensures
        r@ == path_join(base@, comp@),
{
    let mut r = String::from_str(base);
    let n = base.unicode_len();
    if comp.unicode_len() > 0 && comp.get_char(0) == '/' {
        return String::from_str(comp);
    }
    if n > 0 && base.get_char(n - 1) != '/' {
        proof {
            reveal_strlit("/");
        }
        r.append("/");
    }
    r.append(comp);
    r
}

/// Relies on dirs::data_local_dir: the user's local data directory, when
/// the platform has one, as text.
#[verifier::external_body]
fn local_data_dir() -> (r: Option<String>) {
    dirs::data_local_dir().map(|p| p.to_string_lossy().to_string())
}

/// Paths that an app uses.
pub struct App {
    /// The app's id
    pub app_id: String,
}

impl App {
    pub fn new(app_id: String) -> (r: App)
        ensures
            r.app_id == app_id,
    {
        App { app_id }
    }

    /// The platform's base directory inside the local data directory `local`.
    pub fn base_data_dir_in(local: &str) -> (r: String)
        ensures
            r@ == path_join(local@, "glance-dashboards"@),
    {
        join(local, "glance-dashboards")
    }

    /// The platform's base directory, when the platform has a local data
    /// directory.
    pub fn base_data_dir() -> (r: Option<String>)
        ensures
            r matches Some(d) ==> exists|l: Seq<char>| d@ == path_join(l, "glance-dashboards"@),
    {
        match local_data_dir() {
            Some(l) => Some(App::base_data_dir_in(l.as_str())),
            None => None,
        }
    }

    /// The directory of the apps' data files under `base`.
    pub fn data_dir_in(base: &str) -> (r: String)
        ensures
            r@ == path_join(base@, APP_DATA_SUBDIR@),
    {
        join(base, APP_DATA_SUBDIR)
    }

    /// The directory of the apps' data files.
    pub fn data_dir() -> (r: Option<String>)
        ensures
            r matches Some(d) ==> exists|b: Seq<char>| d@ == path_join(b, APP_DATA_SUBDIR@),
    {
        match App::base_data_dir() {
            Some(b) => Some(App::data_dir_in(b.as_str())),
            None => None,
        }
    }

    /// The directory for temporary files under `base`, on the same file
    /// system as the data files.
    pub fn tmp_data_dir_in(base: &str) -> (r: String)
        ensures
            r@ == path_join(base@, "tmp"@),
    {
        join(base, "tmp")
    }

    /// The directory for temporary files.
    pub fn tmp_data_dir() -> (r: Option<String>)
        ensures
            r matches Some(d) ==> exists|b: Seq<char>| d@ == path_join(b, "tmp"@),
    {
        match App::base_data_dir() {
            Some(b) => Some(App::tmp_data_dir_in(b.as_str())),
            None => None,
        }
    }

    /// The file name of the app's data file.
    pub fn data_file_name(&self) -> (r: String)
        ensures
            r@ == self.app_id@ + ".json"@,
    {
        let mut r = self.app_id.clone();
        r.append(".json");
        r
    }

    /// The data file of the app under `base`.
    pub fn data_file_in(&self, base: &str) -> (r: String)
        ensures
            r@ == path_join(path_join(base@, APP_DATA_SUBDIR@), self.app_id@ + ".json"@),
    {
        let dir = App::data_dir_in(base);
        let name = self.data_file_name();
        join(dir.as_str(), name.as_str())
    }

    /// The data file of the app.
    pub fn data_file(&self) -> (r: Option<String>)
        ensures
            r matches Some(d) ==> exists|b: Seq<char>| d@ == path_join(path_join(b, APP_DATA_SUBDIR@), self.app_id@ + ".json"@),
    {
        match App::base_data_dir() {
            Some(b) => Some(self.data_file_in(b.as_str())),
            None => None,
        }
    }

    /// The directory where the app may keep its own state, under `base`.
    pub fn state_dir_in(&self, base: &str) -> (r: String)
        ensures
            r@ == path_join(base@, "app_state"@),
    {
        join(base, "app_state")
    }

    /// The directory where the app may keep its own state.
    pub fn state_dir(&self) -> (r: Option<String>)
        ensures
            r matches Some(d) ==> exists|b: Seq<char>| d@ == path_join(b, "app_state"@),
    {
        match App::base_data_dir() {
            Some(b) => Some(self.state_dir_in(b.as_str())),
            None => None,
        }
    }

    /// The name of the temporary file that a write at `millis` (since the
    /// Unix epoch) stages before it renames it to the data file.
    pub fn tmp_file_name(&self, millis: &str) -> (r: String)
        ensures
            r@ == self.app_id@ + "-"@ + millis@ + ".json"@,
    {
        let mut r = self.app_id.clone();
        r.append("-");
        r.append(millis);
        r.append(".json");
        r
    }
}

} // verus!
