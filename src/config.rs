//! Run settings and their defaults.

use vstd::prelude::*;

verus! {

/// Which files are considered.
#[derive(Debug, Clone)]
pub struct GeneralSettings {
    /// Shell patterns whose matches are scanned, in order.
    pub includes: Vec<String>,
    /// Shell patterns whose matches are never scanned.
    pub excludes: Vec<String>,
}

/// What is reported.
#[derive(Debug, Clone)]
pub struct DisplaySettings {
    /// Report every occurrence with its line and column.
    pub show_details: bool,
    /// Skip files whose content is not valid text without reporting them.
    pub ignore_invalid_data: Option<bool>,
    /// Report files with no occurrence too.
    pub verbose: Option<bool>,
}

/// All settings of a run.
#[derive(Debug, Clone)]
pub struct Config {
    pub general: GeneralSettings,
    pub display: DisplaySettings,
}

/// The include patterns used when no configuration is given.
pub open spec fn default_includes() -> Seq<Seq<char>> {
    seq!["**/*"@]
}

/// The exclude patterns used when no configuration is given: binary files,
/// archives and version-control metadata.
pub open spec fn default_excludes() -> Seq<Seq<char>> {
    seq![
        "**/*.jpg"@,
        "**/*.png"@,
        "**/*.gif"@,
        "**/*.zip"@,
        "**/*.tar"@,
        "**/*.gz"@,
        "**/*.bz2"@,
        "**/*.7z"@,
        "**/*.class"@,
        "**/*.rlib"@,
        "**/*.so"@,
        "**/.git/*"@,
    ]
}

/// The text values of a list of strings.
pub open spec fn texts(v: Seq<String>) -> Seq<Seq<char>> {
    v.map_values(|s: String| s@)
}

/// The settings used when no configuration file is present.
pub fn get_default_config() -> (r: Config)
    ensures
        texts(r.general.includes@) == default_includes(),
        texts(r.general.excludes@) == default_excludes(),
        r.display.show_details,
        r.display.ignore_invalid_data == Some(true),
        r.display.verbose == Some(true),
{
    let mut includes: Vec<String> = Vec::new();
    includes.push("**/*".to_owned());
    let mut excludes: Vec<String> = Vec::new();
    excludes.push("**/*.jpg".to_owned());
    excludes.push("**/*.png".to_owned());
    excludes.push("**/*.gif".to_owned());
    excludes.push("**/*.zip".to_owned());
    excludes.push("**/*.tar".to_owned());
    excludes.push("**/*.gz".to_owned());
    excludes.push("**/*.bz2".to_owned());
    excludes.push("**/*.7z".to_owned());
    excludes.push("**/*.class".to_owned());
    excludes.push("**/*.rlib".to_owned());
    excludes.push("**/*.so".to_owned());
    excludes.push("**/.git/*".to_owned());
    assert(texts(includes@) =~= default_includes());
    assert(texts(excludes@) =~= default_excludes());
    Config {
        general: GeneralSettings { includes, excludes },
        display: DisplaySettings {
            show_details: true,
            ignore_invalid_data: Some(true),
            verbose: Some(true),
        },
    }
}

impl DisplaySettings {
    /// Whether files with no occurrence are reported; on when unset.
    pub fn verbose_output(&self) -> (r: bool)
        ensures
            r == match self.verbose {
                Some(v) => v,
                None => true,
            },
    {
        match self.verbose {
            Some(v) => v,
            None => true,
        }
    }

    /// Whether undecodable files are skipped silently; on when unset.
    pub fn ignores_invalid_data(&self) -> (r: bool)
        ensures
            r == match self.ignore_invalid_data {
                Some(v) => v,
                None => true,
            },
    {
        match self.ignore_invalid_data {
            Some(v) => v,
            None => true,
        }
    }
}

} // verus!
