//! What a scan found about one site.

use vstd::prelude::*;

verus! {

/// The spec value of an optional string.
pub open spec fn opt_view(o: Option<String>) -> Option<Seq<char>> {
    match o {
        Some(s) => Some(s@),
        None => None,
    }
}

/// A copy of an optional string.
pub fn clone_opt(o: &Option<String>) -> (r: Option<String>)
    ensures
        opt_view(r) == opt_view(*o),
{
    match o {
        Some(s) => Some(s.clone()),
        None => None,
    }
}

/// The site's theme.
#[derive(Debug, Clone)]
pub struct ThemeInfo {
    /// Theme slug (its directory under `/wp-content/themes/`).
    pub slug: String,
    /// Installed version, when one was found.
    pub version: Option<String>,
    /// Latest version in the catalog, when known.
    pub latest_version: Option<String>,
}

/// One plugin of the site.
#[derive(Debug, Clone)]
pub struct PluginInfo {
    /// Plugin slug (its directory under `/wp-content/plugins/`).
    pub slug: String,
    /// Installed version, when one was found.
    pub version: Option<String>,
    /// Latest version in the catalog, when known.
    pub latest_version: Option<String>,
}

/// Everything a scan found about one site.
#[derive(Debug, Clone)]
pub struct ScanResult {
    /// The scanned URL.
    pub url: String,
    /// Whether WordPress was detected, with or without a version.
    pub wordpress_detected: bool,
    /// Installed WordPress version, when found.
    pub wordpress_version: Option<String>,
    /// Latest WordPress release, when known.
    pub wordpress_latest: Option<String>,
    /// The theme, when detected.
    pub theme: Option<ThemeInfo>,
    /// The plugins detected.
    pub plugins: Vec<PluginInfo>,
}

} // verus!
