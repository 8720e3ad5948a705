//! Configuration values handed in by the program around the library.

use vstd::prelude::*;

verus! {

/// Where to send telemetry: Honeycomb.
pub struct HoneycombConfig {
    /// The team to export to
    pub team: String,
    /// The dataset to export to, also the service name
    pub dataset: String,
}

/// Where to send telemetry: Jaeger.
pub struct JaegerConfig {
    /// The service name
    pub service_name: String,
    /// The endpoint to send traces to
    pub endpoint: String,
}

/// How to export telemetry.
pub enum TracingExportConfig {
    /// Print to the console only
    NoExport,
    Honeycomb(HoneycombConfig),
    Jaeger(JaegerConfig),
}

/// Setting up telemetry failed.
pub struct TraceConfigureError;

/// The file-system watcher failed.
pub struct WatcherError;

/// What bootstrapping the database takes: an administrator and an organization.
pub struct BootstrapCommand {
    /// The administrator's email
    pub admin_email: String,
    /// The administrator's name; "Admin" when absent
    pub admin_name: Option<String>,
    /// The administrator's password, already hashed
    pub admin_password: Option<String>,
    /// The organization's name; "Administration" when absent
    pub organization_name: Option<String>,
    /// Bootstrap even when the database holds an organization
    pub force: bool,
}

impl BootstrapCommand {
    /// The administrator's name.
    pub fn admin_name_or_default(&self) -> (r: String)
        ensures
            r@ == match self.admin_name {
                Some(n) => n@,
                None => "Admin"@,
            },
    {
        match &self.admin_name {
            Some(n) => n.clone(),
            None => String::from_str("Admin"),
        }
    }

    /// The organization's name.
    pub fn organization_name_or_default(&self) -> (r: String)
        ensures
            r@ == match self.organization_name {
                Some(n) => n@,
                None => "Administration"@,
            },
    {
        match &self.organization_name {
            Some(n) => n.clone(),
            None => String::from_str("Administration"),
        }
    }
}

} // verus!
