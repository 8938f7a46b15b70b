//! Where the daemon keeps its socket and its database.

use vstd::prelude::*;
use crate::resource;
use crate::text;

verus! {

pub const RUNTIME_HOME: &'static str = "XDG_RUNTIME_DIR";

pub const DATA_HOME: &'static str = "XDG_DATA_HOME";

#[derive(Clone, Debug, PartialEq, Eq)]
pub struct FubunPaths {
    pub runtime_directory: String,
    pub socket_path: String,
    pub data_directory: String,
    pub database_path: String,
}

#[derive(Clone, Debug, PartialEq, Eq)]
pub enum PathError {
    MissingRuntimeDirectory,
    MissingDataHome,
    NotAbsolute { name: &'static str, path: String },
}

impl PathError {
    pub open spec fn message_text(self) -> Seq<char> {
        match self {
            PathError::MissingRuntimeDirectory => "XDG_RUNTIME_DIR is required"@,
            PathError::MissingDataHome => "XDG_DATA_HOME is unset and HOME is unavailable"@,
            PathError::NotAbsolute { name, path } => name@ + " must be an absolute path: "@ + path@,
        }
    }

    pub fn message(&self) -> (message: String)
        ensures
            message@ == self.message_text(),
    {
        match self {
            PathError::MissingRuntimeDirectory => "XDG_RUNTIME_DIR is required".to_owned(),
            PathError::MissingDataHome => {
                "XDG_DATA_HOME is unset and HOME is unavailable".to_owned()
            },
            PathError::NotAbsolute { name, path } => {
                let mut message: String = (*name).to_owned();
                message.append(" must be an absolute path: ");
                message.append(path.as_str());
                message
            },
        }
    }
}

/// A relative path below a directory.
pub open spec fn joined(base: Seq<char>, name: Seq<char>) -> Seq<char> {
    if base.len() == 0 || base.last() == '/' {
        base + name
    } else {
        base + seq!['/'] + name
    }
}

/// Joins a relative path to a directory.
pub fn join(base: &str, name: &str) -> (r: String)
    ensures
        r@ == joined(base@, name@),
{
    let chars = text::chars_of(base);
    let mut r: String = base.to_owned();
    if chars.len() > 0 && chars[chars.len() - 1] != '/' {
        r.push('/');
    }
    r.append(name);
    proof {
        assert(r@ =~= joined(base@, name@));
    }
    r
}

fn ensure_absolute(name: &'static str, path: &str) -> (r: Result<(), PathError>)
    ensures
        if resource::is_absolute_path(path@) {
            r is Ok
        } else {
            r is Err && r->Err_0 is NotAbsolute && r->Err_0->name == name && r->Err_0->path@
                == path@
        },
{
    if !resource::absolute_path(path) {
        return Err(PathError::NotAbsolute { name, path: path.to_owned() });
    }
    Ok(())
}

/// Whether paths are the ones below the two base directories.
pub open spec fn are_below(paths: FubunPaths, runtime_home: Seq<char>, data_home: Seq<char>) -> bool {
    &&& paths.runtime_directory@ == joined(runtime_home, "fubun"@)
    &&& paths.socket_path@ == joined(joined(runtime_home, "fubun"@), "core.sock"@)
    &&& paths.data_directory@ == joined(data_home, "fubun"@)
    &&& paths.database_path@ == joined(joined(data_home, "fubun"@), "fubun.db"@)
}

/// Whether an error says that a base directory is not absolute.
pub open spec fn is_not_absolute(error: PathError, name: &'static str, path: Seq<char>) -> bool {
    error is NotAbsolute && error->name == name && error->path@ == path
}

impl FubunPaths {
    /// The paths below the two base directories, which have to be absolute.
    pub fn from_xdg_roots(runtime_home: &str, data_home: &str) -> (r: Result<FubunPaths, PathError>)
        ensures
            if !resource::is_absolute_path(runtime_home@) {
                r is Err && is_not_absolute(r->Err_0, RUNTIME_HOME, runtime_home@)
            } else if !resource::is_absolute_path(data_home@) {
                r is Err && is_not_absolute(r->Err_0, DATA_HOME, data_home@)
            } else {
                r is Ok && are_below(r->Ok_0, runtime_home@, data_home@)
            },
    {
        if let Err(error) = ensure_absolute(RUNTIME_HOME, runtime_home) {
            return Err(error);
        }
        if let Err(error) = ensure_absolute(DATA_HOME, data_home) {
            return Err(error);
        }
        let runtime_directory = join(runtime_home, "fubun");
        let data_directory = join(data_home, "fubun");
        Ok(
            FubunPaths {
                socket_path: join(runtime_directory.as_str(), "core.sock"),
                database_path: join(data_directory.as_str(), "fubun.db"),
                runtime_directory,
                data_directory,
            },
        )
    }

    /// The paths for the base directories that the environment names. Without a data
    /// directory of its own, the one below the home directory is taken.
    pub fn discover(
        runtime_home: Option<&str>,
        data_home: Option<&str>,
        home: Option<&str>,
    ) -> (r: Result<FubunPaths, PathError>)
        ensures
            match (runtime_home, data_home, home) {
                (None, _, _) => r == Err::<FubunPaths, PathError>(
                    PathError::MissingRuntimeDirectory,
                ),
                (Some(_), None, None) => r == Err::<FubunPaths, PathError>(
                    PathError::MissingDataHome,
                ),
                (Some(runtime_home), _, _) => {
                    let data = match data_home {
                        Some(data_home) => data_home@,
                        None => joined(home->0@, ".local/share"@),
                    };
                    if !resource::is_absolute_path(runtime_home@) {
                        r is Err && is_not_absolute(r->Err_0, RUNTIME_HOME, runtime_home@)
                    } else if !resource::is_absolute_path(data) {
                        r is Err && is_not_absolute(r->Err_0, DATA_HOME, data)
                    } else {
                        r is Ok && are_below(r->Ok_0, runtime_home@, data)
                    }
                },
            },
    {
        let runtime_home = match runtime_home {
            Some(runtime_home) => runtime_home,
            None => return Err(PathError::MissingRuntimeDirectory),
        };
        let data_home: String = match data_home {
            Some(data_home) => data_home.to_owned(),
            None => match home {
                Some(home) => join(home, ".local/share"),
                None => return Err(PathError::MissingDataHome),
            },
        };
        FubunPaths::from_xdg_roots(runtime_home, data_home.as_str())
    }
}

/// The socket and the database lie below absolute base directories, so they are absolute
/// themselves.
pub proof fn paths_are_absolute(paths: FubunPaths, runtime_home: Seq<char>, data_home: Seq<char>)
    requires
        resource::is_absolute_path(runtime_home),
        resource::is_absolute_path(data_home),
        are_below(paths, runtime_home, data_home),
    ensures
        resource::is_absolute_path(paths.runtime_directory@),
        resource::is_absolute_path(paths.socket_path@),
        resource::is_absolute_path(paths.data_directory@),
        resource::is_absolute_path(paths.database_path@),
{
}

} // verus!
