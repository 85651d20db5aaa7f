//! Where the global configuration file lives: `~/.prism/config.toml`.
//! Reading and writing it are the application's business.

use vstd::prelude::*;
use crate::error::GratError;
use crate::text::{append, chars_of};

verus! {

/// The home directory of the current user, as `directories::BaseDirs`
/// finds it (lossily converted to text).
///
/// Trusted: nothing is claimed of the result, which depends on the
/// environment.
#[verifier::external_body]
fn home_directory() -> (r: Option<String>) {
    directories::BaseDirs::new().map(|dirs| dirs.home_dir().to_string_lossy().into_owned())
}

/// A path with one more component (`Path::join` on Unix): an absolute
/// component replaces the path, an empty path yields the component, and a
/// separator is added unless the path already ends with one.
pub open spec fn path_join(base: Seq<char>, part: Seq<char>) -> Seq<char> {
    if part.len() > 0 && part[0] == '/' {
        part
    } else if base.len() == 0 {
        part
    } else if base.last() == '/' {
        base + part
    } else {
        base + seq!['/'] + part
    }
}

/// A path with one more component.
pub fn join_path(base: &str, part: &str) -> (r: String)
    ensures
        r@ == path_join(base@, part@),
{
    let b = chars_of(base);
    let p = chars_of(part);
    if p.len() > 0 && p[0] == '/' {
        return String::from_str(part);
    }
    if b.len() == 0 {
        return String::from_str(part);
    }
    let mut s = String::from_str(base);
    if b[b.len() - 1] != '/' {
        crate::text::push_char(&mut s, '/');
    }
    append(&mut s, part);
    s
}

/// The configuration file under a home directory.
pub open spec fn config_path_under(home: Seq<char>) -> Seq<char> {
    path_join(path_join(home, ".prism"@), "config.toml"@)
}

/// Locates Prism's global configuration file.
#[derive(Debug, Clone, PartialEq, Eq)]
pub struct ConfigManager {
    config_path: String,
}

impl ConfigManager {
    /// The path this manager reads and writes.
    pub closed spec fn path_v(&self) -> Seq<char> {
        self.config_path@
    }

    /// A manager for the default location, `.prism/config.toml` under the
    /// home directory; an error when there is no home directory.
    pub fn new() -> (r: Result<Self, GratError>)
        ensures
            r matches Ok(m) ==> exists|home: Seq<char>| m.path_v() == config_path_under(home),
            r matches Err(e) ==> e matches GratError::Internal(msg) && msg@
                == "Could not determine home directory for Prism config"@,
    {
        let home = home_directory();
        let r = ConfigManager::for_home(home);
        assert(r matches Ok(m) ==> m.path_v() == config_path_under(home->Some_0@));
        r
    }

    /// A manager for `.prism/config.toml` under a home directory, as the
    /// home directory lookup found it; an error when it found none.
    pub fn for_home(home: Option<String>) -> (r: Result<Self, GratError>)
        ensures
            match home {
                Some(h) => r matches Ok(m) && m.path_v() == config_path_under(h@),
                None => r matches Err(GratError::Internal(msg)) && msg@
                    == "Could not determine home directory for Prism config"@,
            },
    {
        match home {
            Some(home) => {
                let dir = join_path(home.as_str(), ".prism");
                let path = join_path(dir.as_str(), "config.toml");
                Ok(ConfigManager { config_path: path })
            },
            None => Err(GratError::Internal(String::from_str("Could not determine home directory for Prism config"))),
        }
    }

    /// A manager for an explicit configuration file.
    pub fn with_path(config_path: String) -> (r: Self)
        ensures
            r.path_v() == config_path@,
    {
        ConfigManager { config_path }
    }

    /// The full path of the configuration file.
    pub fn path(&self) -> (r: &str)
        ensures
            r@ == self.path_v(),
    {
        self.config_path.as_str()
    }
}

} // verus!
