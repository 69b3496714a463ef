//! Where a run finds its database, its statements and its looks.

use std::path::PathBuf;
use vstd::prelude::*;

verus! {

/// `std::path::PathBuf`, taken as it is: a path is handed on, never
/// looked into.
#[verifier::external_type_specification]
#[verifier::external_body]
pub struct ExPathBuf(PathBuf);

/// The settings of one run.
#[derive(Debug)]
pub struct Environment {
    /// The database file.
    pub dbfile: PathBuf,
    /// The file of statements.
    pub infile: PathBuf,
    /// The name of the theme.
    pub theme: String,
    /// The directory of templates and of the browser.
    pub data_dir: PathBuf,
    /// The directory of themes.
    pub themes_dir: PathBuf,
}

/// The name of the theme that is used where none is asked for.
pub open spec fn default_theme() -> Seq<char> {
    "default-light"@
}

impl Environment {
    /// The settings of a run on `dbfile` and `infile`, in the theme
    /// asked for, or in the default theme where none is.
    pub fn new(
        dbfile: PathBuf,
        infile: PathBuf,
        theme: Option<String>,
        data_dir: PathBuf,
        themes_dir: PathBuf,
    ) -> (env: Environment)
        ensures
            env.dbfile == dbfile,
            env.infile == infile,
            env.data_dir == data_dir,
            env.themes_dir == themes_dir,
            env.theme@ == match theme {
                Some(name) => name@,
                None => default_theme(),
            },
    {
        let theme = match theme {
            Some(name) => name,
            None => String::from_str("default-light"),
        };
        Environment { dbfile, infile, theme, data_dir, themes_dir }
    }
}

} // verus!
