//! The decisions of a scan, as a state machine: the caller performs each
//! request that the session asks for and hands back what came of it.

use crate::detect::{
    cookies_indicate_wordpress, cookies_show_wordpress, detect_plugins_in, detect_theme_in,
    detect_version_from_meta, first_capture, markup_theme, meta_version, plugin_slugs_of,
    plugin_version_of, regex_captures_of, rest_indicates_wordpress, rest_shows_wordpress,
    theme_parts, version_from_feed, version_from_readme, RestRoot, FEED_VERSION_PATTERN,
    README_VERSION_PATTERN,
};
use crate::report::{opt_view, PluginInfo, ScanResult, ThemeInfo};
use vstd::prelude::*;

verus! {

/// The feed, whose generator line names the core version.
pub const FEED_PATH: &'static str = "/feed/";

/// The bundled readme, which names the core version.
pub const README_PATH: &'static str = "/readme.html";

/// The REST API root.
pub const REST_PATH: &'static str = "/wp-json/";

/// The catalog's core release list.
pub const CORE_CATALOG_URL: &'static str = "https://api.wordpress.org/core/version-check/1.7/";

/// The catalog's plugin information, followed by the slug.
pub const PLUGIN_CATALOG_URL: &'static str =
    "https://api.wordpress.org/plugins/info/1.2/?action=plugin_information&slug=";

/// The catalog's theme information, followed by the slug.
pub const THEME_CATALOG_URL: &'static str =
    "https://api.wordpress.org/themes/info/1.2/?action=theme_information&slug=";

/// The URL that `path` names relative to `base`; `None` when `base` is not
/// a URL or the join fails.
pub uninterp spec fn url_join_of(base: Seq<char>, path: Seq<char>) -> Option<Seq<char>>;

/// Relies on `url::Url::parse` and `Url::join`: a deterministic resolution
/// of a reference against a base URL.
#[verifier::external_body]
fn join_url(base: &str, path: &str) -> (r: Option<String>)
    ensures
        opt_view(r) == url_join_of(base@, path@),
{
    let base = url::Url::parse(base).ok()?;
    base.join(path).ok().map(|u| u.to_string())
}

/// A probe that the session waits on.
#[derive(Debug, Clone, Copy, PartialEq, Eq, Structural)]
pub enum Probe {
    /// Fetch the feed; answer with `Reply::Page`.
    Feed,
    /// Fetch the readme; answer with `Reply::Page`.
    Readme,
    /// Fetch the REST API root; answer with `Reply::Rest`.
    RestApi,
    /// Fetch the homepage for its cookies; answer with `Reply::Cookies`.
    Cookies,
    /// Query the catalog for the latest core release; answer with
    /// `Reply::CoreOffers`.
    CoreCatalog,
    /// Query the catalog for the theme; answer with `Reply::Latest`.
    ThemeCatalog,
    /// Query the catalog for the plugin at this index; answer with
    /// `Reply::Latest`.
    PluginCatalog(usize),
}

/// What came of a probe; `None` wherever the request or its decoding failed.
#[derive(Debug, Clone)]
pub enum Reply {
    /// The body of a successful page fetch.
    Page(Option<String>),
    /// The decoded REST API root.
    Rest(Option<RestRoot>),
    /// The cookie names of the response and its raw `Set-Cookie` header.
    Cookies(Option<(Vec<String>, Option<String>)>),
    /// The versions of the catalog's core offers, in order.
    CoreOffers(Option<Vec<String>>),
    /// The `version` of a catalog entry.
    Latest(Option<String>),
}

/// The probe that follows the catalog query for the plugin before `i`.
pub open spec fn plugin_probe(i: int, n: int) -> Option<Probe> {
    if 0 <= i < n {
        Some(Probe::PluginCatalog(i as usize))
    } else {
        None
    }
}

/// The probe that follows the core catalog query.
pub open spec fn after_core(r: ScanResult) -> Option<Probe> {
    if r.theme is Some {
        Some(Probe::ThemeCatalog)
    } else {
        plugin_probe(0, r.plugins@.len() as int)
    }
}

/// The first offer's version.
pub open spec fn first_offer(o: Option<Vec<String>>) -> Option<Seq<char>> {
    match o {
        Some(v) => if v@.len() > 0 {
            Some(v@[0]@)
        } else {
            None
        },
        None => None,
    }
}

pub open spec fn page_version(body: Option<String>, pattern: Seq<char>) -> Option<Seq<char>> {
    match body {
        Some(b) => first_capture(regex_captures_of(pattern, b@)),
        None => None,
    }
}

/// The state of one scan.
pub struct ScanSession {
    base: String,
    result: ScanResult,
    pending: Option<Probe>,
}

impl ScanSession {
    /// What has been found so far.
    pub closed spec fn found(&self) -> ScanResult {
        self.result
    }

    /// The probe the session waits on; `None` once the scan is complete.
    pub closed spec fn waiting(&self) -> Option<Probe> {
        self.pending
    }

    /// The scanned URL.
    pub closed spec fn base_url(&self) -> Seq<char> {
        self.base@
    }

    /// Every probe refers to something that was found.
    pub closed spec fn wf(&self) -> bool {
        &&& self.result.url@ == self.base@
        &&& (self.pending == Some(Probe::ThemeCatalog) ==> self.result.theme is Some)
        &&& (self.pending matches Some(Probe::PluginCatalog(i)) ==> i < self.result.plugins@.len())
    }

    /// Starts a scan from the fetched homepage of `base_url`: reads the
    /// core version from the generator tags, and the theme and plugins from
    /// the markup. Without a version the feed is probed next, else the
    /// core catalog.
    pub fn start(base_url: &str, homepage: &str) -> (r: Self)
        ensures
            r.wf(),
            r.base_url() == base_url@,
            r.found().url@ == base_url@,
            opt_view(r.found().wordpress_version) == meta_version(homepage@),
            r.found().wordpress_detected == (meta_version(homepage@) is Some),
            r.found().wordpress_latest is None,
            r.found().theme matches Some(t) ==> markup_theme(homepage@) == Some(theme_parts(t))
                && t.latest_version is None,
            r.found().theme is None ==> markup_theme(homepage@) is None,
            r.found().plugins@.len() == plugin_slugs_of(homepage@).len(),
            forall|i: int|
                0 <= i < r.found().plugins@.len() ==> {
                    &&& (#[trigger] r.found().plugins@[i]).slug@ == plugin_slugs_of(homepage@)[i]
                    &&& opt_view(r.found().plugins@[i].version) == plugin_version_of(
                        homepage@,
                        plugin_slugs_of(homepage@)[i],
                    )
                    &&& r.found().plugins@[i].latest_version is None
                },
            r.waiting() == if meta_version(homepage@) is Some {
                Some(Probe::CoreCatalog)
            } else {
                Some(Probe::Feed)
            },
    {
        let version = detect_version_from_meta(homepage);
        let detected = version.is_some();
        let theme = detect_theme_in(homepage);
        let plugins = detect_plugins_in(homepage);
        let pending = if detected {
            Some(Probe::CoreCatalog)
        } else {
            Some(Probe::Feed)
        };
        ScanSession {
            base: base_url.to_owned(),
            result: ScanResult {
                url: base_url.to_owned(),
                wordpress_detected: detected,
                wordpress_version: version,
                wordpress_latest: None,
                theme,
                plugins,
            },
            pending,
        }
    }

    /// The probe the session waits on; `None` once the scan is complete.
    pub fn pending(&self) -> (r: Option<Probe>)
        ensures
            r == self.waiting(),
    {
        self.pending
    }

    /// The URL to request for the pending probe: a path joined to the
    /// scanned URL, the scanned URL itself for cookies, or a catalog URL
    /// ending in the slug. `None` when no probe is pending or the join fails.
    pub fn request_url(&self) -> (r: Option<String>)
        requires
            self.wf(),
        ensures
            self.waiting() == Some(Probe::Feed) ==> opt_view(r) == url_join_of(
                self.base_url(),
                FEED_PATH@,
            ),
            self.waiting() == Some(Probe::Readme) ==> opt_view(r) == url_join_of(
                self.base_url(),
                README_PATH@,
            ),
            self.waiting() == Some(Probe::RestApi) ==> opt_view(r) == url_join_of(
                self.base_url(),
                REST_PATH@,
            ),
            self.waiting() == Some(Probe::Cookies) ==> opt_view(r) == Some(self.base_url()),
            self.waiting() == Some(Probe::CoreCatalog) ==> opt_view(r) == Some(CORE_CATALOG_URL@),
            self.waiting() == Some(Probe::ThemeCatalog) ==> opt_view(r) == Some(
                THEME_CATALOG_URL@ + self.found().theme->0.slug@,
            ),
            self.waiting() matches Some(Probe::PluginCatalog(i)) ==> opt_view(r) == Some(
                PLUGIN_CATALOG_URL@ + self.found().plugins@[i as int].slug@,
            ),
            self.waiting() is None ==> r is None,
    {
        match self.pending {
            None => None,
            Some(Probe::Feed) => join_url(self.base.as_str(), FEED_PATH),
            Some(Probe::Readme) => join_url(self.base.as_str(), README_PATH),
            Some(Probe::RestApi) => join_url(self.base.as_str(), REST_PATH),
            Some(Probe::Cookies) => Some(self.base.clone()),
            Some(Probe::CoreCatalog) => Some(String::from_str(CORE_CATALOG_URL)),
            Some(Probe::ThemeCatalog) => match &self.result.theme {
                Some(t) => {
                    let mut u = String::from_str(THEME_CATALOG_URL);
                    u.append(t.slug.as_str());
                    Some(u)
                },
                None => None,
            },
            Some(Probe::PluginCatalog(i)) => {
                let mut u = String::from_str(PLUGIN_CATALOG_URL);
                u.append(self.result.plugins[i].slug.as_str());
                Some(u)
            },
        }
    }

    fn core_found(&mut self, version: String)
        requires
            old(self).wf(),
        ensures
            final(self).wf(),
            final(self).base == old(self).base,
            final(self).result.url == old(self).result.url,
            final(self).result.wordpress_version == Some(version),
            final(self).result.wordpress_detected,
            final(self).result.wordpress_latest == old(self).result.wordpress_latest,
            final(self).result.theme == old(self).result.theme,
            final(self).result.plugins == old(self).result.plugins,
            final(self).pending == Some(Probe::CoreCatalog),
    {
        self.result.wordpress_version = Some(version);
        self.result.wordpress_detected = true;
        self.pending = Some(Probe::CoreCatalog);
    }

    /// Hands over what came of the pending probe. The core version is
    /// sought in the feed, then the readme; failing both, presence is
    /// sought in the REST API root, then the cookies. Then the catalog is
    /// asked for the latest core release, the theme's, and each plugin's in
    /// turn. A reply of the wrong kind, or one with nothing pending, changes
    /// nothing.
    pub fn advance(&mut self, reply: Reply)
        requires
            old(self).wf(),
        ensures
            final(self).wf(),
            final(self).base_url() == old(self).base_url(),
            final(self).found().url == old(self).found().url,
            ({
                let (o, f) = (old(self).found(), final(self).found());
                match (old(self).waiting(), reply) {
                    (Some(Probe::Feed), Reply::Page(b)) => match page_version(
                        b,
                        FEED_VERSION_PATTERN@,
                    ) {
                        Some(v) => opt_view(f.wordpress_version) == Some(v) && f.wordpress_detected
                            && f.wordpress_latest == o.wordpress_latest && f.theme == o.theme
                            && f.plugins == o.plugins && final(self).waiting() == Some(
                            Probe::CoreCatalog,
                        ),
                        None => f == o && final(self).waiting() == Some(Probe::Readme),
                    },
                    (Some(Probe::Readme), Reply::Page(b)) => match page_version(
                        b,
                        README_VERSION_PATTERN@,
                    ) {
                        Some(v) => opt_view(f.wordpress_version) == Some(v) && f.wordpress_detected
                            && f.wordpress_latest == o.wordpress_latest && f.theme == o.theme
                            && f.plugins == o.plugins && final(self).waiting() == Some(
                            Probe::CoreCatalog,
                        ),
                        None => f == o && final(self).waiting() == Some(Probe::RestApi),
                    },
                    (Some(Probe::RestApi), Reply::Rest(root)) => if root matches Some(x)
                        && rest_shows_wordpress(x) {
                        f == ScanResult { wordpress_detected: true, ..o } && final(self).waiting()
                            == Some(Probe::CoreCatalog)
                    } else {
                        f == o && final(self).waiting() == Some(Probe::Cookies)
                    },
                    (Some(Probe::Cookies), Reply::Cookies(c)) => f == ScanResult {
                        wordpress_detected: match c {
                            Some(p) => cookies_show_wordpress(p.0@, p.1),
                            None => false,
                        },
                        ..o
                    } && final(self).waiting() == Some(Probe::CoreCatalog),
                    (Some(Probe::CoreCatalog), Reply::CoreOffers(offers)) => opt_view(
                        f.wordpress_latest,
                    ) == first_offer(offers) && f.wordpress_detected == o.wordpress_detected
                        && f.wordpress_version == o.wordpress_version && f.theme == o.theme
                        && f.plugins == o.plugins && final(self).waiting() == after_core(o),
                    (Some(Probe::ThemeCatalog), Reply::Latest(l)) => f.theme matches Some(t)
                        && t.slug == o.theme->0.slug && t.version == o.theme->0.version && opt_view(
                        t.latest_version,
                    ) == opt_view(l) && f.wordpress_detected == o.wordpress_detected
                        && f.wordpress_version == o.wordpress_version && f.wordpress_latest
                        == o.wordpress_latest && f.plugins == o.plugins && final(self).waiting()
                        == plugin_probe(0, o.plugins@.len() as int),
                    (Some(Probe::PluginCatalog(i)), Reply::Latest(l)) => f.plugins@.len()
                        == o.plugins@.len() && (forall|k: int|
                        0 <= k < o.plugins@.len() && k != i ==> #[trigger] f.plugins@[k]
                            == o.plugins@[k]) && f.plugins@[i as int].slug == o.plugins@[i as int].slug
                        && f.plugins@[i as int].version == o.plugins@[i as int].version && opt_view(
                        f.plugins@[i as int].latest_version,
                    ) == opt_view(l) && f.wordpress_detected == o.wordpress_detected
                        && f.wordpress_version == o.wordpress_version && f.wordpress_latest
                        == o.wordpress_latest && f.theme == o.theme && final(self).waiting()
                        == plugin_probe(i + 1, o.plugins@.len() as int),
                    _ => f == o && final(self).waiting() == old(self).waiting(),
                }
            }),
    {
        match (self.pending, reply) {
            (Some(Probe::Feed), Reply::Page(body)) => {
                let v = match &body {
                    Some(b) => version_from_feed(b.as_str()),
                    None => None,
                };
                match v {
                    Some(v) => self.core_found(v),
                    None => {
                        self.pending = Some(Probe::Readme);
                    },
                }
            },
            (Some(Probe::Readme), Reply::Page(body)) => {
                let v = match &body {
                    Some(b) => version_from_readme(b.as_str()),
                    None => None,
                };
                match v {
                    Some(v) => self.core_found(v),
                    None => {
                        self.pending = Some(Probe::RestApi);
                    },
                }
            },
            (Some(Probe::RestApi), Reply::Rest(root)) => {
                let shows = match &root {
                    Some(x) => rest_indicates_wordpress(x),
                    None => false,
                };
                if shows {
                    self.result.wordpress_detected = true;
                    self.pending = Some(Probe::CoreCatalog);
                } else {
                    self.pending = Some(Probe::Cookies);
                }
            },
            (Some(Probe::Cookies), Reply::Cookies(c)) => {
                let shows = match &c {
                    Some(p) => cookies_indicate_wordpress(&p.0, &p.1),
                    None => false,
                };
                self.result.wordpress_detected = shows;
                self.pending = Some(Probe::CoreCatalog);
            },
            (Some(Probe::CoreCatalog), Reply::CoreOffers(offers)) => {
                let latest = match offers {
                    Some(v) => {
                        if v.len() > 0 {
                            let mut v = v;
                            let ghost before = v@;
                            let x = v.swap_remove(0);
                            assert(x == before[0]);
                            Some(x)
                        } else {
                            None
                        }
                    },
                    None => None,
                };
                self.result.wordpress_latest = latest;
                self.pending = if self.result.theme.is_some() {
                    Some(Probe::ThemeCatalog)
                } else if self.result.plugins.len() > 0 {
                    Some(Probe::PluginCatalog(0))
                } else {
                    None
                };
            },
            (Some(Probe::ThemeCatalog), Reply::Latest(l)) => {
                match self.result.theme.take() {
                    Some(t) => {
                        self.result.theme = Some(
                            ThemeInfo { slug: t.slug, version: t.version, latest_version: l },
                        );
                    },
                    None => {},
                }
                self.pending = if self.result.plugins.len() > 0 {
                    Some(Probe::PluginCatalog(0))
                } else {
                    None
                };
            },
            (Some(Probe::PluginCatalog(i)), Reply::Latest(l)) => {
                let p = self.result.plugins.remove(i);
                self.result.plugins.insert(
                    i,
                    PluginInfo { slug: p.slug, version: p.version, latest_version: l },
                );
                let n = self.result.plugins.len();
                self.pending = if n - i > 1 {
                    Some(Probe::PluginCatalog(i + 1))
                } else {
                    None
                };
            },
            _ => {},
        }
    }

    /// What the scan found.
    pub fn finish(self) -> (r: ScanResult)
        ensures
            r == self.found(),
    {
        self.result
    }
}

} // verus!
