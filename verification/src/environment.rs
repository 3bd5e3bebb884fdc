//! The identity of each build of the application (development, production, test): the
//! directory, bundle and tray names, and the default listen address, so that a
//! development or test build never touches the data of the installed one.
use vstd::prelude::*;

verus! {

/// The build the application runs as.
#[derive(Clone, Copy, Debug, PartialEq, Eq, Structural)]
pub enum AppEnvironment {
    Development,
    Production,
    Test,
}

/// The name of the application's configuration directory.
pub fn app_dir_name(env: AppEnvironment) -> (r: &'static str)
    ensures
        r@ == match env {
            AppEnvironment::Development => "autodns-dev"@,
            AppEnvironment::Production => "autodns"@,
            AppEnvironment::Test => "autodns-test"@,
        },
{
    match env {
        AppEnvironment::Development => "autodns-dev",
        AppEnvironment::Production => "autodns",
        AppEnvironment::Test => "autodns-test",
    }
}

/// The bundle identifier.
pub fn app_identifier(env: AppEnvironment) -> (r: &'static str)
    ensures
        r@ == match env {
            AppEnvironment::Development => "com.autodns.desktop.dev"@,
            AppEnvironment::Production => "com.autodns.desktop"@,
            AppEnvironment::Test => "com.autodns.desktop.test"@,
        },
{
    match env {
        AppEnvironment::Development => "com.autodns.desktop.dev",
        AppEnvironment::Production => "com.autodns.desktop",
        AppEnvironment::Test => "com.autodns.desktop.test",
    }
}

/// The product name.
pub fn product_name(env: AppEnvironment) -> (r: &'static str)
    ensures
        r@ == match env {
            AppEnvironment::Development => "autodns-dev"@,
            AppEnvironment::Production => "autodns"@,
            AppEnvironment::Test => "autodns-test"@,
        },
{
    match env {
        AppEnvironment::Development => "autodns-dev",
        AppEnvironment::Production => "autodns",
        AppEnvironment::Test => "autodns-test",
    }
}

/// The tray icon's identifier.
pub fn tray_id(env: AppEnvironment) -> (r: &'static str)
    ensures
        r@ == match env {
            AppEnvironment::Development => "autodns-dev"@,
            AppEnvironment::Production => "autodns"@,
            AppEnvironment::Test => "autodns-test"@,
        },
{
    match env {
        AppEnvironment::Development => "autodns-dev",
        AppEnvironment::Production => "autodns",
        AppEnvironment::Test => "autodns-test",
    }
}

/// The listen address of a fresh configuration; the installed build and the others use
/// different ports.
pub fn default_listen_addr(env: AppEnvironment) -> (r: &'static str)
    ensures
        r@ == match env {
            AppEnvironment::Development => "127.0.0.1:15453"@,
            AppEnvironment::Production => "127.0.0.1:15353"@,
            AppEnvironment::Test => "127.0.0.1:15453"@,
        },
{
    match env {
        AppEnvironment::Development => "127.0.0.1:15453",
        AppEnvironment::Production => "127.0.0.1:15353",
        AppEnvironment::Test => "127.0.0.1:15453",
    }
}

/// The name of the start-at-login entry.
pub fn autostart_entry_name(env: AppEnvironment) -> (r: &'static str)
    ensures
        r@ == match env {
            AppEnvironment::Development => "autodns-dev"@,
            AppEnvironment::Production => "autodns"@,
            AppEnvironment::Test => "autodns-test"@,
        },
{
    match env {
        AppEnvironment::Development => "autodns-dev",
        AppEnvironment::Production => "autodns",
        AppEnvironment::Test => "autodns-test",
    }
}

} // verus!
