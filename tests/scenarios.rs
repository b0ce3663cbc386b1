use wordpress_audit::detect::{
    collect_plugin_slugs, cookie_name_of_header, cookies_indicate_wordpress, detect_plugins_in,
    href_version, detect_theme_in, detect_version_from_meta,
    extract_theme_from_url, find_plugin_version, plugin_slugs, rest_indicates_wordpress,
    trim_text, version_from_feed, version_from_generator, version_from_readme, RestRoot,
};
use wordpress_audit::{
    Analyzer, ComponentStatus, PluginInfo, Probe, Reply, ScanResult, ScanSession, ThemeInfo,
};

fn scan_with_core(version: &str, latest: &str) -> ScanResult {
    let homepage = format!(
        "<html><head><meta name=\"generator\" content=\"WordPress {}\"></head><body></body></html>",
        version
    );
    let mut session = ScanSession::start("https://example.com/", &homepage);
    assert_eq!(session.pending(), Some(Probe::CoreCatalog));
    session.advance(Reply::CoreOffers(Some(vec![latest.to_string(), "6.3".to_string()])));
    assert_eq!(session.pending(), None);
    session.finish()
}

#[test]
fn generator_version_outdated_or_current() {
    let scan = scan_with_core("6.4.2", "6.5");
    assert_eq!(scan.wordpress_version.as_deref(), Some("6.4.2"));
    assert_eq!(scan.wordpress_latest.as_deref(), Some("6.5"));
    let analysis = Analyzer::new(scan).analyze();
    assert_eq!(analysis.wordpress.status, ComponentStatus::Outdated);
    assert_eq!(analysis.outdated_count(), 1);
    assert!(analysis.is_wordpress());

    let analysis = Analyzer::new(scan_with_core("6.4.2", "6.4.2")).analyze();
    assert_eq!(analysis.wordpress.status, ComponentStatus::UpToDate);
    let analysis = Analyzer::new(scan_with_core("6.4.2", "6.4.1")).analyze();
    assert_eq!(analysis.wordpress.status, ComponentStatus::UpToDate);
    assert_eq!(analysis.outdated_count(), 0);
}

#[test]
fn no_plugins_gives_empty_mapping() {
    let scan = scan_with_core("6.4.2", "6.4.2");
    assert!(scan.plugins.is_empty());
    let analysis = Analyzer::new(scan).analyze();
    assert!(analysis.plugins.is_empty());
    assert_eq!(analysis.plugin_count(), 0);
    assert_eq!(analysis.theme.status, ComponentStatus::NotDetected);
    assert_eq!(analysis.theme.name, "-");
}

#[test]
fn plugin_hash_version_is_masked() {
    let html = "<script src=\"/wp-content/plugins/akismet/akismet.js?ver=569ab5664387d06c16a234c9771d3d57fb15720a\"></script>";
    let plugins = detect_plugins_in(html);
    assert_eq!(plugins.len(), 1);
    assert_eq!(plugins[0].slug, "akismet");
    assert_eq!(plugins[0].version.as_deref(), Some("(hash:569ab56)"));
    assert_eq!(plugins[0].latest_version, None);
}

#[test]
fn plugin_slugs_dedup_and_skip() {
    let html = "/wp-content/plugins/akismet/a.js /wp-content/mu-plugins/safe-redirect/x.php \
                /wp-content/plugins/akismet/b.css /wp-content/plugins/index/ /wp-content/plugins/cache/";
    assert_eq!(plugin_slugs(html), vec!["akismet".to_string(), "safe-redirect".to_string()]);
    let caps = vec![Some("b".to_string()), None, Some("cache".to_string()), Some("a".to_string()), Some("b".to_string())];
    assert_eq!(collect_plugin_slugs(&caps), vec!["b".to_string(), "a".to_string()]);
}

#[test]
fn plugin_version_with_escaped_slug() {
    let html = "<link href='/wp-content/plugins/contact-form-7/style.css?ver=5.8.1'>";
    assert_eq!(find_plugin_version(html, "contact-form-7").as_deref(), Some("5.8.1"));
    assert_eq!(find_plugin_version(html, "contact.form-7"), None);
    assert_eq!(find_plugin_version("/wp-content/plugins/x/y.js", "x"), None);
}

#[test]
fn meta_generator_detection() {
    let html = "<meta name=\"generator\" content=\"Site Kit\"><meta name=\"generator\" content=\"WordPress  6.4.2 \">";
    assert_eq!(detect_version_from_meta(html).as_deref(), Some("6.4.2"));
    assert_eq!(detect_version_from_meta("<p>hello</p>"), None);
    let blank = vec![Some("WordPress   ".to_string()), None, Some("WordPress 5.0".to_string())];
    assert_eq!(version_from_generator(&blank).as_deref(), Some("5.0"));
    assert_eq!(trim_text("\u{3000} a b\t\n"), "a b");
}

#[test]
fn feed_and_readme_versions() {
    let feed = "<generator>https://wordpress.org/?v=6.4.3</generator>";
    assert_eq!(version_from_feed(feed).as_deref(), Some("6.4.3"));
    assert_eq!(version_from_feed("no generator"), None);
    let readme = "<h1>WordPress</h1> Version 6.2.1 <br>";
    assert_eq!(version_from_readme(readme).as_deref(), Some("6.2.1"));
}

#[test]
fn theme_detection() {
    let html = "<link rel='stylesheet' href='/wp-content/plugins/p/a.css'>\
                <link rel='stylesheet' href='https://x.org/wp-content/themes/twentytwentyfour/style.css?ver=1.0'>";
    let theme = detect_theme_in(html).unwrap();
    assert_eq!(theme.slug, "twentytwentyfour");
    assert_eq!(theme.version.as_deref(), Some("1.0"));

    let html = "<style>@import url(/wp-content/themes/astra/x.css);</style>";
    let theme = detect_theme_in(html).unwrap();
    assert_eq!(theme.slug, "astra");
    assert_eq!(theme.version, None);

    let t = extract_theme_from_url("/wp-content/themes/kadence/style.css?ver=1748271784&x=1").unwrap();
    assert_eq!(t.version.as_deref(), Some("(timestamp:1748271784)"));
    assert!(detect_theme_in("<p>none</p>").is_none());

    let t = extract_theme_from_url("/wp-content/themes/foo/style.css?driver=9").unwrap();
    assert_eq!(t.slug, "foo");
    assert_eq!(t.version, None);
    assert_eq!(href_version("/s.css?server=x&ver=2").as_deref(), Some("2"));
    assert_eq!(href_version("/s.css?ver=3.1-beta_2#frag").as_deref(), Some("3.1-beta_2"));
    assert_eq!(href_version("/ver=3/s.css"), None);
}

#[test]
fn rest_and_cookie_presence() {
    let wp = RestRoot { name: None, url: None, namespaces: Some(vec!["oembed/1.0".into(), "wp/v2".into()]) };
    assert!(rest_indicates_wordpress(&wp));
    let other = RestRoot { name: None, url: None, namespaces: Some(vec!["oembed/1.0".into()]) };
    assert!(!rest_indicates_wordpress(&other));
    let named = RestRoot { name: Some("Blog".into()), url: None, namespaces: None };
    assert!(rest_indicates_wordpress(&named));

    assert!(cookies_indicate_wordpress(&vec!["wp_lang".into()], &None));
    assert!(cookies_indicate_wordpress(&vec!["wordpress_test_cookie".into()], &None));
    assert!(!cookies_indicate_wordpress(&vec!["session".into()], &None));
    assert!(cookies_indicate_wordpress(&vec![], &Some("wp-settings-1=x; Path=/".into())));
    assert!(cookies_indicate_wordpress(&vec![], &Some(" wp_lang=en".into())));
    assert!(!cookies_indicate_wordpress(&vec![], &Some("a=1; wp-settings-1=x".into())));
    assert!(!cookies_indicate_wordpress(&vec![], &Some("session=1; Path=/wp-admin".into())));
    assert!(!cookies_indicate_wordpress(&vec![], &Some("a=1".into())));
    assert_eq!(cookie_name_of_header(" wordpress_x = 1; a=b").as_deref(), Some("wordpress_x"));
    assert_eq!(cookie_name_of_header("novalue"), None);
}

#[test]
fn full_session_fallbacks() {
    let homepage = "<link rel='stylesheet' href='/wp-content/themes/astra/style.css?ver=4.1'>\
                    <script src='/wp-content/plugins/akismet/a.js?ver=5.0'></script>";
    let mut s = ScanSession::start("https://example.com/", homepage);
    assert_eq!(s.pending(), Some(Probe::Feed));
    assert_eq!(s.request_url().as_deref(), Some("https://example.com/feed/"));
    s.advance(Reply::Page(Some("nothing".into())));
    assert_eq!(s.pending(), Some(Probe::Readme));
    assert_eq!(s.request_url().as_deref(), Some("https://example.com/readme.html"));
    s.advance(Reply::Page(None));
    assert_eq!(s.pending(), Some(Probe::RestApi));
    assert_eq!(s.request_url().as_deref(), Some("https://example.com/wp-json/"));
    s.advance(Reply::Rest(None));
    assert_eq!(s.pending(), Some(Probe::Cookies));
    s.advance(Reply::Cookies(Some((vec!["wp_lang".into()], None))));
    assert_eq!(s.pending(), Some(Probe::CoreCatalog));
    s.advance(Reply::CoreOffers(Some(vec![])));
    assert_eq!(s.pending(), Some(Probe::ThemeCatalog));
    assert_eq!(
        s.request_url().as_deref(),
        Some("https://api.wordpress.org/themes/info/1.2/?action=theme_information&slug=astra")
    );
    s.advance(Reply::Latest(Some("4.6".into())));
    assert_eq!(s.pending(), Some(Probe::PluginCatalog(0)));
    assert_eq!(
        s.request_url().as_deref(),
        Some("https://api.wordpress.org/plugins/info/1.2/?action=plugin_information&slug=akismet")
    );
    s.advance(Reply::Latest(Some("5.0".into())));
    assert_eq!(s.pending(), None);
    let scan = s.finish();
    assert!(scan.wordpress_detected);
    assert_eq!(scan.wordpress_version, None);
    let a = Analyzer::new(scan).analyze();
    assert_eq!(a.wordpress.status, ComponentStatus::Unknown);
    assert_eq!(a.wordpress.version, "-");
    assert_eq!(a.theme.status, ComponentStatus::Outdated);
    assert_eq!(a.plugins[0].status, ComponentStatus::UpToDate);
    assert_eq!(a.outdated_count(), 1);
}

#[test]
fn feed_version_found() {
    let mut s = ScanSession::start("https://example.com/", "<p></p>");
    s.advance(Reply::Latest(None));
    assert_eq!(s.pending(), Some(Probe::Feed));
    s.advance(Reply::Page(Some("wordpress.org/?v=6.1.1".into())));
    assert_eq!(s.pending(), Some(Probe::CoreCatalog));
    s.advance(Reply::CoreOffers(None));
    assert_eq!(s.pending(), None);
    let scan = s.finish();
    assert_eq!(scan.wordpress_version.as_deref(), Some("6.1.1"));
    let a = Analyzer::new(scan).analyze();
    assert_eq!(a.wordpress.status, ComponentStatus::UpToDate);
    assert_eq!(a.wordpress.latest_version, "-");
}

#[test]
fn not_detected_core() {
    let scan = ScanResult {
        url: "https://example.com/".into(),
        wordpress_detected: false,
        wordpress_version: None,
        wordpress_latest: Some("6.5".into()),
        theme: Some(ThemeInfo { slug: "astra".into(), version: None, latest_version: None }),
        plugins: vec![
            PluginInfo { slug: "a".into(), version: Some("1.0".into()), latest_version: Some("2.0".into()) },
            PluginInfo { slug: "a".into(), version: Some("3.0".into()), latest_version: Some("2.0".into()) },
        ],
    };
    let a = Analyzer::new(scan).analyze();
    assert!(!a.is_wordpress());
    assert_eq!(a.wordpress.status, ComponentStatus::NotDetected);
    assert_eq!(a.theme.status, ComponentStatus::Unknown);
    assert_eq!(a.plugin_count(), 1);
    assert_eq!(a.plugins[0].version, "3.0");
    assert_eq!(a.plugins[0].status, ComponentStatus::UpToDate);
}
