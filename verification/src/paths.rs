//! Where the per-user state lives.
use vstd::prelude::*;

use crate::text::views;

verus! {

/// The file that holds the relay's generation.
pub const VERSION_FILE: &'static str = "relay.version";

/// The file that holds the relay's log.
pub const LOG_FILE: &'static str = "forwarder.log";

/// Which rules the state directory follows.
#[derive(Debug, Clone, Copy, PartialEq, Eq, Structural)]
pub enum Platform {
    Windows,
    /// The XDG base-directory rules.
    Other,
}

/// The environment variables the state directory depends on, each where it is
/// set.
#[derive(Debug, Clone, PartialEq, Eq)]
pub struct Environment {
    pub local_app_data: Option<String>,
    pub xdg_data_home: Option<String>,
    pub home: Option<String>,
}

/// A path: a directory, and the names that lead on from it.
#[derive(Debug, Clone, PartialEq, Eq)]
pub struct DataPath {
    pub base: String,
    pub names: Vec<String>,
}

/// A path, in mathematical terms.
pub struct Location {
    pub base: Seq<char>,
    pub names: Seq<Seq<char>>,
}

impl View for DataPath {
    type V = Location;

    open spec fn view(&self) -> Location {
        Location { base: self.base@, names: views(self.names@) }
    }
}

impl Location {
    /// The path one name further on.
    pub open spec fn join(self, name: Seq<char>) -> Location {
        Location { base: self.base, names: self.names.push(name) }
    }
}

pub open spec fn set_or_empty(var: Option<String>) -> Seq<char> {
    match var {
        Some(s) => s@,
        None => Seq::empty(),
    }
}

/// The state directory: below the local application data on Windows; elsewhere
/// below the XDG data directory when one is named, and below `.local/share` in
/// the home directory when none is.
pub open spec fn state_dir(platform: Platform, env: Environment) -> Location {
    match platform {
        Platform::Windows => Location {
            base: set_or_empty(env.local_app_data),
            names: seq!["AGUnlocker"@],
        },
        Platform::Other => Location {
            base: if set_or_empty(env.xdg_data_home).len() > 0 {
                set_or_empty(env.xdg_data_home)
            } else {
                set_or_empty(env.home) + "/.local/share"@
            },
            names: seq!["agunlocker"@],
        },
    }
}

fn or_empty(var: &Option<String>) -> (s: String)
    ensures
        s@ == set_or_empty(*var),
{
    match var {
        Some(s) => s.clone(),
        None => String::new(),
    }
}

fn push_name(path: DataPath, name: &str) -> (longer: DataPath)
    ensures
        longer@ == path@.join(name@),
{
    let mut longer = path;
    longer.names.push(name.to_owned());
    assert(longer@.names == path@.names.push(name@));
    longer
}

/// The directory of the log and the version file. Under the user profile, not
/// next to the program: the relay runs unelevated, and the directory an
/// administrator installed it into is not writable for it.
pub fn log_dir(platform: Platform, env: &Environment) -> (dir: DataPath)
    ensures
        dir@ == state_dir(platform, *env),
{
    let (base, name) = match platform {
        Platform::Windows => (or_empty(&env.local_app_data), "AGUnlocker"),
        Platform::Other => {
            let named = or_empty(&env.xdg_data_home);
            if named.as_str().is_empty() {
                let mut base = or_empty(&env.home);
                base.append("/.local/share");
                (base, "agunlocker")
            } else {
                (named, "agunlocker")
            }
        },
    };
    let dir = push_name(DataPath { base, names: Vec::new() }, name);
    assert(dir@.names == seq![name@]);
    dir
}

pub fn log_path(platform: Platform, env: &Environment) -> (path: DataPath)
    ensures
        path@ == state_dir(platform, *env).join(LOG_FILE@),
{
    push_name(log_dir(platform, env), LOG_FILE)
}

pub fn version_path(platform: Platform, env: &Environment) -> (path: DataPath)
    ensures
        path@ == state_dir(platform, *env).join(VERSION_FILE@),
{
    push_name(log_dir(platform, env), VERSION_FILE)
}

/// The state directory is one name below a directory that is taken as it is named:
/// the local application data on Windows, whatever else is set; elsewhere the XDG
/// data directory, whatever else is set, and without one the place in the home
/// directory.
pub proof fn a_named_directory_is_taken_as_it_is(platform: Platform, env: Environment)
    ensures
        state_dir(platform, env).names.len() == 1,
        platform == Platform::Windows && env.local_app_data is Some ==> state_dir(
            platform,
            env,
        ).base == env.local_app_data->0@,
        platform == Platform::Windows && env.local_app_data is None ==> state_dir(
            platform,
            env,
        ).base.len() == 0,
        platform == Platform::Other && env.xdg_data_home is Some && env.xdg_data_home->0@.len() > 0
            ==> state_dir(platform, env).base == env.xdg_data_home->0@,
        platform == Platform::Other && (env.xdg_data_home is None || env.xdg_data_home->0@.len()
            == 0) ==> state_dir(platform, env).base == (if env.home is Some {
            env.home->0@
        } else {
            Seq::empty()
        }) + "/.local/share"@,
        state_dir(Platform::Windows, env).names[0] == "AGUnlocker"@,
        state_dir(Platform::Other, env).names[0] == "agunlocker"@,
{
}

/// The log and the version are two files of the same directory.
pub proof fn the_files_stand_side_by_side(platform: Platform, env: Environment)
    ensures
        ({
            let dir = state_dir(platform, env);
            let log = dir.join(LOG_FILE@);
            let version = dir.join(VERSION_FILE@);
            &&& log.base == dir.base && version.base == dir.base
            &&& log.names.drop_last() == dir.names && version.names.drop_last() == dir.names
            &&& log.names.last() == "forwarder.log"@ && version.names.last() == "relay.version"@
        }),
{
    let dir = state_dir(platform, env);
    assert(dir.join(LOG_FILE@).names.drop_last() =~= dir.names);
    assert(dir.join(VERSION_FILE@).names.drop_last() =~= dir.names);
}

} // verus!
