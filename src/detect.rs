//! Detectors that read WordPress identity out of fetched content.

use crate::report::{opt_view, PluginInfo, ThemeInfo};
use crate::text::{
    find, find_exec, occurs_at, occurs_at_exec, starts_with, starts_with_exec, str_eq,
};
use crate::version::{all_digits, is_commit_hash, is_timestamp, normalize_version, normalized};
use vstd::prelude::*;

verus! {

/// The meta tags that announce the generating software.
pub const GENERATOR_SELECTOR: &'static str = "meta[name='generator']";

/// The stylesheet links of a page.
pub const STYLESHEET_SELECTOR: &'static str = "link[rel='stylesheet']";

/// The core version in a feed's generator line.
pub const FEED_VERSION_PATTERN: &'static str = r"wordpress\.org/\?v=([0-9.]+)";

/// The core version in the bundled readme.
pub const README_VERSION_PATTERN: &'static str = r"Version\s+([0-9.]+)";

/// A theme directory in a path.
pub const THEME_PATH_PATTERN: &'static str = r"/wp-content/themes/([^/]+)/";

/// A plugin or must-use plugin directory in a path.
pub const PLUGIN_PATH_PATTERN: &'static str = r"/wp-content/(?:mu-)?plugins/([a-zA-Z0-9_-]+)/";

/// What comes before a plugin's escaped slug in its version pattern.
pub const PLUGIN_VERSION_HEAD: &'static str = r"/wp-content/(?:mu-)?plugins/";

/// What follows a plugin's escaped slug in its version pattern.
pub const PLUGIN_VERSION_TAIL: &'static str = r#"/[^'"]*\?[^'"]*ver=([0-9a-zA-Z._-]+)"#;

/// The attribute values named `attr` of the elements of the HTML document
/// `html` that match the CSS selector `selector`, in the order the matcher
/// yields them (`None` for an element without it); `None` when the selector
/// does not parse.
pub uninterp spec fn selected_attributes_of(
    html: Seq<char>,
    selector: Seq<char>,
    attr: Seq<char>,
) -> Option<Seq<Option<Seq<char>>>>;

/// Relies on `scraper::Html::parse_document`, `scraper::Selector::parse`,
/// `Html::select` and `ElementRef::attr`: a deterministic HTML parse and
/// selector match.
#[verifier::external_body]
fn select_attribute(html: &str, selector: &str, attr: &str) -> (r: Option<Vec<Option<String>>>)
    ensures
        opt_seqs(r) == selected_attributes_of(html@, selector@, attr@),
{
    let selector = scraper::Selector::parse(selector).ok()?;
    let document = scraper::Html::parse_document(html);
    Some(document.select(&selector).map(|e| e.attr(attr).map(|v| v.to_string())).collect())
}

/// The group-1 text of each successive non-overlapping match of the
/// regular expression `pattern` in `text` (`None` where the group did not
/// take part); `None` when the pattern does not compile.
pub uninterp spec fn regex_captures_of(pattern: Seq<char>, text: Seq<char>) -> Option<
    Seq<Option<Seq<char>>>,
>;

/// Relies on `regex::Regex::new` and `Regex::captures_iter`, reading group
/// 1 of each match: a deterministic search.
#[verifier::external_body]
fn regex_captures(pattern: &str, text: &str) -> (r: Option<Vec<Option<String>>>)
    ensures
        opt_seqs(r) == regex_captures_of(pattern@, text@),
{
    let re = regex::Regex::new(pattern).ok()?;
    Some(re.captures_iter(text).map(|c| c.get(1).map(|m| m.as_str().to_string())).collect())
}

/// A character that `regex::escape` puts a backslash before.
pub open spec fn is_regex_meta(c: char) -> bool {
    c == '\\' || c == '.' || c == '+' || c == '*' || c == '?' || c == '(' || c == ')' || c == '|'
        || c == '[' || c == ']' || c == '{' || c == '}' || c == '^' || c == '$' || c == '#' || c
        == '&' || c == '-' || c == '~'
}

/// The text with a backslash before each meta character.
pub open spec fn regex_escaped(s: Seq<char>) -> Seq<char>
    decreases s.len(),
{
    if s.len() == 0 {
        s
    } else if is_regex_meta(s.last()) {
        regex_escaped(s.drop_last()) + seq!['\\', s.last()]
    } else {
        regex_escaped(s.drop_last()).push(s.last())
    }
}

/// Relies on `regex::escape`, which puts a backslash before each meta
/// character and copies every other character.
#[verifier::external_body]
fn escape_pattern(s: &str) -> (r: String)
    ensures
        r@ == regex_escaped(s@),
{
    regex::escape(s)
}

pub open spec fn opt_seqs(o: Option<Vec<Option<String>>>) -> Option<Seq<Option<Seq<char>>>> {
    match o {
        Some(v) => Some(v@.map_values(|x: Option<String>| opt_view(x))),
        None => None,
    }
}

/// The text of the first capture, if any.
pub open spec fn first_capture(r: Option<Seq<Option<Seq<char>>>>) -> Option<Seq<char>> {
    match r {
        Some(cs) => if cs.len() > 0 {
            cs[0]
        } else {
            None
        },
        None => None,
    }
}

fn first_capture_exec(r: Option<Vec<Option<String>>>) -> (o: Option<String>)
    ensures
        opt_view(o) == first_capture(opt_seqs(r)),
{
    match r {
        Some(v) => {
            if v.len() > 0 {
                let mut v = v;
                let ghost before = v@;
                let x = v.swap_remove(0);
                assert(x == before[0]);
                x
            } else {
                None
            }
        },
        None => None,
    }
}

/// Unicode white space, as `char::is_whitespace` defines it.
pub open spec fn is_white(c: char) -> bool {
    ('\u{9}' <= c && c <= '\u{d}') || c == ' ' || c == '\u{85}' || c == '\u{a0}' || c
        == '\u{1680}' || ('\u{2000}' <= c && c <= '\u{200a}') || c == '\u{2028}' || c
        == '\u{2029}' || c == '\u{202f}' || c == '\u{205f}' || c == '\u{3000}'
}

fn is_white_exec(c: char) -> (r: bool)
    ensures
        r == is_white(c),
{
    ('\u{9}' <= c && c <= '\u{d}') || c == ' ' || c == '\u{85}' || c == '\u{a0}' || c
        == '\u{1680}' || ('\u{2000}' <= c && c <= '\u{200a}') || c == '\u{2028}' || c
        == '\u{2029}' || c == '\u{202f}' || c == '\u{205f}' || c == '\u{3000}'
}

/// The index of the first non-white character at or after `i`.
pub open spec fn lead_end(s: Seq<char>, i: int) -> int
    decreases s.len() - i,
{
    if i >= s.len() {
        s.len() as int
    } else if is_white(s[i]) {
        lead_end(s, i + 1)
    } else {
        i
    }
}

/// The index after the last non-white character before `j`, not below `lo`.
pub open spec fn trail_start(s: Seq<char>, lo: int, j: int) -> int
    decreases j - lo,
{
    if j <= lo {
        lo
    } else if is_white(s[j - 1]) {
        trail_start(s, lo, j - 1)
    } else {
        j
    }
}

/// The text without leading and trailing white space.
pub open spec fn trimmed(s: Seq<char>) -> Seq<char> {
    let a = lead_end(s, 0);
    s.subrange(a, trail_start(s, a, s.len() as int))
}

/// The text without leading and trailing white space.
pub fn trim_text(s: &str) -> (r: String)
    ensures
        r@ == trimmed(s@),
{
    let n = s.unicode_len();
    let mut a: usize = 0;
    while a < n && is_white_exec(s.get_char(a))
        invariant
            n == s@.len(),
            a <= n,
            lead_end(s@, 0) == lead_end(s@, a as int),
        decreases n - a,
    {
        a = a + 1;
    }
    let mut b: usize = n;
    while b > a && is_white_exec(s.get_char(b - 1))
        invariant
            n == s@.len(),
            a <= b <= n,
            lead_end(s@, 0) == a,
            trail_start(s@, a as int, n as int) == trail_start(s@, a as int, b as int),
        decreases b - a,
    {
        b = b - 1;
    }
    s.substring_char(a, b).to_owned()
}

/// The core version announced by the first generator tag that reads
/// `WordPress <version>` with a version that is not blank.
pub open spec fn generator_version(contents: Seq<Option<Seq<char>>>) -> Option<Seq<char>>
    decreases contents.len(),
{
    if contents.len() == 0 {
        None
    } else {
        match contents[0] {
            Some(c) => if starts_with(c, "WordPress "@) && trimmed(c.skip(10)).len() > 0 {
                Some(trimmed(c.skip(10)))
            } else {
                generator_version(contents.drop_first())
            },
            None => generator_version(contents.drop_first()),
        }
    }
}

/// The core version from the `content` values of the generator tags.
pub fn version_from_generator(contents: &Vec<Option<String>>) -> (r: Option<String>)
    ensures
        opt_view(r) == generator_version(contents@.map_values(|x: Option<String>| opt_view(x))),
{
    let ghost all = contents@.map_values(|x: Option<String>| opt_view(x));
    let n = contents.len();
    let mut i: usize = 0;
    proof {
        reveal_strlit("WordPress ");
        assert(all.skip(0) == all);
    }
    while i < n
        invariant
            n == contents@.len(),
            i <= n,
            all == contents@.map_values(|x: Option<String>| opt_view(x)),
            generator_version(all) == generator_version(all.skip(i as int)),
        decreases n - i,
    {
        proof {
            assert(all.skip(i as int).drop_first() == all.skip(i + 1));
            assert(all.skip(i as int)[0] == opt_view(contents@[i as int]));
        }
        match &contents[i] {
            Some(c) => {
                if starts_with_exec(c.as_str(), "WordPress ") {
                    proof {
                        reveal_strlit("WordPress ");
                    }
                    let n_c = c.unicode_len();
                    let rest = c.as_str().substring_char(10, n_c);
                    assert(rest@ == c@.skip(10));
                    let v = trim_text(rest);
                    if v.unicode_len() > 0 {
                        return Some(v);
                    }
                }
            },
            None => {},
        }
        i = i + 1;
    }
    None
}

/// The core version from the generator tags of a homepage.
pub open spec fn meta_version(html: Seq<char>) -> Option<Seq<char>> {
    match selected_attributes_of(html, GENERATOR_SELECTOR@, "content"@) {
        Some(cs) => generator_version(cs),
        None => None,
    }
}

/// Detect the core version from the generator meta tags of a homepage.
pub fn detect_version_from_meta(html: &str) -> (r: Option<String>)
    ensures
        opt_view(r) == meta_version(html@),
{
    match select_attribute(html, GENERATOR_SELECTOR, "content") {
        Some(contents) => version_from_generator(&contents),
        None => None,
    }
}

/// The core version from a feed: the first `wordpress.org/?v=<digits and dots>`.
pub fn version_from_feed(body: &str) -> (r: Option<String>)
    ensures
        opt_view(r) == first_capture(regex_captures_of(FEED_VERSION_PATTERN@, body@)),
{
    first_capture_exec(regex_captures(FEED_VERSION_PATTERN, body))
}

/// The core version from the readme: the first `Version <digits and dots>`.
pub fn version_from_readme(body: &str) -> (r: Option<String>)
    ensures
        opt_view(r) == first_capture(regex_captures_of(README_VERSION_PATTERN@, body@)),
{
    first_capture_exec(regex_captures(README_VERSION_PATTERN, body))
}

/// A character of a `ver=` token: ASCII letter or digit, `.`, `-` or `_`.
pub open spec fn is_token_char(c: char) -> bool {
    ('a' <= c && c <= 'z') || ('A' <= c && c <= 'Z') || ('0' <= c && c <= '9') || c == '.' || c
        == '-' || c == '_'
}

/// The end of the run of token characters that starts at `i`.
pub open spec fn token_end(s: Seq<char>, i: int) -> int
    decreases s.len() - i,
{
    if i >= s.len() {
        s.len() as int
    } else if is_token_char(s[i]) {
        token_end(s, i + 1)
    } else {
        i
    }
}

/// A `ver` query parameter starts at `i`: `ver=` follows `?` or `&`.
pub open spec fn ver_param_at(s: Seq<char>, i: int) -> bool {
    1 <= i && occurs_at(s, "ver="@, i) && (s[i - 1] == '?' || s[i - 1] == '&')
}

/// The first index at or after `i` where a `ver` query parameter starts.
pub open spec fn ver_param_from(s: Seq<char>, i: int) -> Option<int>
    decreases s.len() - i,
{
    if i < 1 || i >= s.len() {
        None
    } else if ver_param_at(s, i) {
        Some(i)
    } else {
        ver_param_from(s, i + 1)
    }
}

/// The value of the first `ver` query parameter of a URL: the run of token
/// characters after its `ver=`.
pub open spec fn ver_token(url: Seq<char>) -> Option<Seq<char>> {
    match ver_param_from(url, 1) {
        Some(i) => Some(url.subrange(i + 4, token_end(url, i + 4))),
        None => None,
    }
}

proof fn lemma_ver_param_from(s: Seq<char>, i: int)
    requires
        1 <= i,
    ensures
        ver_param_from(s, i) matches Some(k) ==> ver_param_at(s, k),
    decreases s.len() - i,
{
    if i < s.len() && !ver_param_at(s, i) {
        lemma_ver_param_from(s, i + 1);
    }
}

fn ver_token_exec(url: &str) -> (r: Option<String>)
    ensures
        opt_view(r) == ver_token(url@),
{
    proof {
        lemma_ver_param_from(url@, 1);
        reveal_strlit("ver=");
    }
    let n = url.unicode_len();
    let mut i: usize = 1;
    while i < n
        invariant
            n == url@.len(),
            1 <= i,
            ver_param_from(url@, 1) == ver_param_from(url@, i as int),
        decreases n - i,
    {
        let c = url.get_char(i - 1);
        if (c == '?' || c == '&') && occurs_at_exec(url, "ver=", i) {
            proof {
                reveal_strlit("ver=");
                assert(ver_param_at(url@, i as int));
            }
            let start = i + 4;
            let mut end: usize = start;
            while end < n && is_token_char_exec(url.get_char(end))
                invariant
                    n == url@.len(),
                    start <= end <= n,
                    token_end(url@, start as int) == token_end(url@, end as int),
                decreases n - end,
            {
                end = end + 1;
            }
            return Some(url.substring_char(start, end).to_owned());
        }
        i = i + 1;
    }
    None
}

fn is_token_char_exec(c: char) -> (r: bool)
    ensures
        r == is_token_char(c),
{
    ('a' <= c && c <= 'z') || ('A' <= c && c <= 'Z') || ('0' <= c && c <= '9') || c == '.' || c
        == '-' || c == '_'
}

pub open spec fn normalized_opt(v: Option<Seq<char>>) -> Option<Seq<char>> {
    match v {
        Some(t) => Some(normalized(t)),
        None => None,
    }
}

/// The theme slug of a stylesheet URL, with the normalized `ver=` token
/// when the URL has one.
pub open spec fn theme_of_href(href: Seq<char>) -> Option<(Seq<char>, Option<Seq<char>>)> {
    match first_capture(regex_captures_of(THEME_PATH_PATTERN@, href)) {
        Some(slug) => Some((slug, normalized_opt(ver_token(href)))),
        None => None,
    }
}

pub open spec fn theme_parts(t: ThemeInfo) -> (Seq<char>, Option<Seq<char>>) {
    (t.slug@, opt_view(t.version))
}

/// Extract theme slug and version from a stylesheet URL.
pub fn extract_theme_from_url(url: &str) -> (r: Option<ThemeInfo>)
    ensures
        r matches Some(t) ==> theme_of_href(url@) == Some(theme_parts(t)) && t.latest_version is None,
        r is None ==> theme_of_href(url@) is None,
{
    let slug = match first_capture_exec(regex_captures(THEME_PATH_PATTERN, url)) {
        Some(s) => s,
        None => {
            return None;
        },
    };
    Some(ThemeInfo { slug, version: href_version(url), latest_version: None })
}

/// The installed version that a stylesheet URL carries: its `ver` query
/// parameter, normalized.
pub fn href_version(url: &str) -> (r: Option<String>)
    ensures
        opt_view(r) == normalized_opt(ver_token(url@)),
{
    match ver_token_exec(url) {
        Some(t) => Some(normalize_version(t.as_str())),
        None => None,
    }
}

/// The theme of the first stylesheet URL that names one.
pub open spec fn stylesheet_theme(hrefs: Seq<Option<Seq<char>>>) -> Option<
    (Seq<char>, Option<Seq<char>>),
>
    decreases hrefs.len(),
{
    if hrefs.len() == 0 {
        None
    } else {
        match hrefs[0] {
            Some(h) => if theme_of_href(h) is Some {
                theme_of_href(h)
            } else {
                stylesheet_theme(hrefs.drop_first())
            },
            None => stylesheet_theme(hrefs.drop_first()),
        }
    }
}

/// The theme of a homepage: from its stylesheet links, else from the first
/// theme path anywhere in the markup (without version).
pub open spec fn markup_theme(html: Seq<char>) -> Option<(Seq<char>, Option<Seq<char>>)> {
    match selected_attributes_of(html, STYLESHEET_SELECTOR@, "href"@) {
        None => None,
        Some(hrefs) => match stylesheet_theme(hrefs) {
            Some(t) => Some(t),
            None => match first_capture(regex_captures_of(THEME_PATH_PATTERN@, html)) {
                Some(slug) => Some((slug, None)),
                None => None,
            },
        },
    }
}

/// Detect the theme of a homepage; its latest version is left unknown.
pub fn detect_theme_in(html: &str) -> (r: Option<ThemeInfo>)
    ensures
        r matches Some(t) ==> markup_theme(html@) == Some(theme_parts(t)) && t.latest_version is None,
        r is None ==> markup_theme(html@) is None,
{
    let hrefs = match select_attribute(html, STYLESHEET_SELECTOR, "href") {
        Some(h) => h,
        None => {
            return None;
        },
    };
    let ghost all = hrefs@.map_values(|x: Option<String>| opt_view(x));
    let n = hrefs.len();
    let mut i: usize = 0;
    assert(all.skip(0) == all);
    while i < n
        invariant
            n == hrefs@.len(),
            i <= n,
            all == hrefs@.map_values(|x: Option<String>| opt_view(x)),
            selected_attributes_of(html@, STYLESHEET_SELECTOR@, "href"@) == Some(all),
            stylesheet_theme(all) == stylesheet_theme(all.skip(i as int)),
        decreases n - i,
    {
        proof {
            assert(all.skip(i as int).drop_first() == all.skip(i + 1));
            assert(all.skip(i as int)[0] == opt_view(hrefs@[i as int]));
        }
        match &hrefs[i] {
            Some(h) => match extract_theme_from_url(h.as_str()) {
                Some(t) => {
                    return Some(t);
                },
                None => {},
            },
            None => {},
        }
        i = i + 1;
    }
    match first_capture_exec(regex_captures(THEME_PATH_PATTERN, html)) {
        Some(slug) => Some(ThemeInfo { slug, version: None, latest_version: None }),
        None => None,
    }
}

/// Directory names that look like plugins but are not.
pub open spec fn is_skipped_slug(s: Seq<char>) -> bool {
    s == "index"@ || s == "cache"@
}

/// The distinct captured slugs in order of first appearance, without the
/// skipped ones.
pub open spec fn collect_slugs(caps: Seq<Option<Seq<char>>>) -> Seq<Seq<char>>
    decreases caps.len(),
{
    if caps.len() == 0 {
        Seq::empty()
    } else {
        let prev = collect_slugs(caps.drop_last());
        match caps.last() {
            Some(s) => if !is_skipped_slug(s) && !prev.contains(s) {
                prev.push(s)
            } else {
                prev
            },
            None => prev,
        }
    }
}

/// The plugin slugs that a homepage's markup names.
pub open spec fn plugin_slugs_of(html: Seq<char>) -> Seq<Seq<char>> {
    match regex_captures_of(PLUGIN_PATH_PATTERN@, html) {
        Some(caps) => collect_slugs(caps),
        None => Seq::empty(),
    }
}

fn contains_slug(v: &Vec<String>, s: &str) -> (r: bool)
    ensures
        r == v@.map_values(|x: String| x@).contains(s@),
{
    let ghost views = v@.map_values(|x: String| x@);
    let n = v.len();
    let mut i: usize = 0;
    while i < n
        invariant
            n == v@.len(),
            i <= n,
            views == v@.map_values(|x: String| x@),
            forall|k: int| 0 <= k < i ==> views[k] != s@,
        decreases n - i,
    {
        if str_eq(v[i].as_str(), s) {
            assert(views[i as int] == s@);
            return true;
        }
        i = i + 1;
    }
    false
}

/// The distinct plugin slugs named in a homepage's markup.
pub fn plugin_slugs(html: &str) -> (r: Vec<String>)
    ensures
        r@.map_values(|x: String| x@) == plugin_slugs_of(html@),
{
    match regex_captures(PLUGIN_PATH_PATTERN, html) {
        Some(caps) => collect_plugin_slugs(&caps),
        None => Vec::new(),
    }
}

/// The distinct captured slugs in order of first appearance, without
/// `index` and `cache`.
pub fn collect_plugin_slugs(caps: &Vec<Option<String>>) -> (r: Vec<String>)
    ensures
        r@.map_values(|x: String| x@) == collect_slugs(
            caps@.map_values(|x: Option<String>| opt_view(x)),
        ),
{
    let ghost all = caps@.map_values(|x: Option<String>| opt_view(x));
    let mut out: Vec<String> = Vec::new();
    let n = caps.len();
    let mut i: usize = 0;
    proof {
        reveal_strlit("index");
        reveal_strlit("cache");
        assert(all.take(0) == Seq::<Option<Seq<char>>>::empty());
        assert(out@.map_values(|x: String| x@) == Seq::<Seq<char>>::empty());
    }
    while i < n
        invariant
            n == caps@.len(),
            i <= n,
            all == caps@.map_values(|x: Option<String>| opt_view(x)),
            out@.map_values(|x: String| x@) == collect_slugs(all.take(i as int)),
        decreases n - i,
    {
        proof {
            assert(all.take(i + 1).drop_last() == all.take(i as int));
            assert(all.take(i + 1).last() == opt_view(caps@[i as int]));
        }
        match &caps[i] {
            Some(s) => {
                if !(str_eq(s.as_str(), "index") || str_eq(s.as_str(), "cache")) && !contains_slug(
                    &out,
                    s.as_str(),
                ) {
                    let ghost before = out@;
                    out.push(s.clone());
                    assert(out@.map_values(|x: String| x@) == before.map_values(|x: String| x@).push(
                        s@,
                    ));
                }
            },
            None => {},
        }
        i = i + 1;
    }
    assert(all.take(n as int) == all);
    out
}

/// The pattern that finds a plugin's `ver=` token.
pub open spec fn plugin_version_pattern(slug: Seq<char>) -> Seq<char> {
    PLUGIN_VERSION_HEAD@ + regex_escaped(slug) + PLUGIN_VERSION_TAIL@
}

/// A plugin's installed version: the normalized `ver=` token of the first
/// URL under its directory that carries one.
pub open spec fn plugin_version_of(html: Seq<char>, slug: Seq<char>) -> Option<Seq<char>> {
    normalized_opt(first_capture(regex_captures_of(plugin_version_pattern(slug), html)))
}

/// Find a plugin's installed version in the markup.
pub fn find_plugin_version(html: &str, slug: &str) -> (r: Option<String>)
    ensures
        opt_view(r) == plugin_version_of(html@, slug@),
{
    let mut pattern = String::from_str(PLUGIN_VERSION_HEAD);
    let escaped = escape_pattern(slug);
    pattern.append(escaped.as_str());
    pattern.append(PLUGIN_VERSION_TAIL);
    match first_capture_exec(regex_captures(pattern.as_str(), html)) {
        Some(v) => Some(normalize_version(v.as_str())),
        None => None,
    }
}

/// Detect the plugins of a homepage with their installed versions; their
/// latest versions are left unknown.
pub fn detect_plugins_in(html: &str) -> (r: Vec<PluginInfo>)
    ensures
        r@.len() == plugin_slugs_of(html@).len(),
        forall|i: int|
            0 <= i < r@.len() ==> {
                &&& (#[trigger] r@[i]).slug@ == plugin_slugs_of(html@)[i]
                &&& opt_view(r@[i].version) == plugin_version_of(html@, plugin_slugs_of(html@)[i])
                &&& r@[i].latest_version is None
            },
{
    let slugs = plugin_slugs(html);
    let ghost views = slugs@.map_values(|x: String| x@);
    let n = slugs.len();
    let mut out: Vec<PluginInfo> = Vec::new();
    let mut i: usize = 0;
    while i < n
        invariant
            n == slugs@.len(),
            i <= n,
            views == slugs@.map_values(|x: String| x@),
            views == plugin_slugs_of(html@),
            out@.len() == i,
            forall|k: int|
                0 <= k < i ==> {
                    &&& (#[trigger] out@[k]).slug@ == views[k]
                    &&& opt_view(out@[k].version) == plugin_version_of(html@, views[k])
                    &&& out@[k].latest_version is None
                },
        decreases n - i,
    {
        let slug = slugs[i].clone();
        let version = find_plugin_version(html, slug.as_str());
        out.push(PluginInfo { slug, version, latest_version: None });
        i = i + 1;
    }
    out
}

/// The root of a site's REST API, as far as detection reads it.
#[derive(Debug, Clone)]
pub struct RestRoot {
    /// Site name
    pub name: Option<String>,
    /// Site URL
    pub url: Option<String>,
    /// Available namespaces (e.g. `wp/v2`, `oembed/1.0`)
    pub namespaces: Option<Vec<String>>,
}

/// A REST root shows WordPress when a namespace starts with `wp/`, or when
/// it has a name or a URL.
pub open spec fn rest_shows_wordpress(r: RestRoot) -> bool {
    let by_namespace = match r.namespaces {
        Some(ns) => has_wp_namespace(ns@),
        None => false,
    };
    by_namespace || r.name is Some || r.url is Some
}

pub open spec fn has_wp_namespace(ns: Seq<String>) -> bool {
    exists|i: int| 0 <= i < ns.len() && starts_with(#[trigger] ns[i]@, "wp/"@)
}

/// Whether a REST API root shows a WordPress site.
pub fn rest_indicates_wordpress(root: &RestRoot) -> (r: bool)
    ensures
        r == rest_shows_wordpress(*root),
{
    match &root.namespaces {
        Some(ns) => {
            let n = ns.len();
            let mut i: usize = 0;
            while i < n
                invariant
                    n == ns@.len(),
                    i <= n,
                    root.namespaces == Some(*ns),
                    forall|k: int| 0 <= k < i ==> !starts_with(#[trigger] ns@[k]@, "wp/"@),
                decreases n - i,
            {
                if starts_with_exec(ns[i].as_str(), "wp/") {
                    assert(starts_with(ns@[i as int]@, "wp/"@));
                    return true;
                }
                i = i + 1;
            }
        },
        None => {},
    }
    root.name.is_some() || root.url.is_some()
}

/// A cookie name that WordPress sets.
pub open spec fn is_wordpress_cookie(name: Seq<char>) -> bool {
    starts_with(name, "wordpress_"@) || starts_with(name, "wp-"@) || name == "wp_lang"@
}

/// The name of the cookie that a raw `Set-Cookie` text sets: the text
/// before its first `=`, without surrounding white space; `None` without `=`.
pub open spec fn header_cookie_name(h: Seq<char>) -> Option<Seq<char>> {
    match find(h, "="@) {
        Some(i) => Some(trimmed(h.take(i))),
        None => None,
    }
}

/// Cookies show WordPress when one of the parsed cookies, or the cookie of
/// the raw `Set-Cookie` text, has a WordPress name.
pub open spec fn cookies_show_wordpress(names: Seq<String>, set_cookie: Option<String>) -> bool {
    let by_header = match set_cookie {
        Some(h) => match header_cookie_name(h@) {
            Some(n) => is_wordpress_cookie(n),
            None => false,
        },
        None => false,
    };
    (exists|i: int| 0 <= i < names.len() && is_wordpress_cookie(#[trigger] names[i]@)) || by_header
}

fn is_wordpress_cookie_exec(c: &str) -> (r: bool)
    ensures
        r == is_wordpress_cookie(c@),
{
    starts_with_exec(c, "wordpress_") || starts_with_exec(c, "wp-") || str_eq(c, "wp_lang")
}

/// The name of the cookie that a raw `Set-Cookie` text sets.
pub fn cookie_name_of_header(h: &str) -> (r: Option<String>)
    ensures
        opt_view(r) == header_cookie_name(h@),
{
    proof {
        crate::text::lemma_find_from(h@, "="@, 0);
        reveal_strlit("=");
    }
    match find_exec(h, "=") {
        Some(i) => Some(trim_text(h.substring_char(0, i))),
        None => None,
    }
}

/// Whether the cookies of a homepage response show a WordPress site.
pub fn cookies_indicate_wordpress(names: &Vec<String>, set_cookie: &Option<String>) -> (r: bool)
    ensures
        r == cookies_show_wordpress(names@, *set_cookie),
{
    let n = names.len();
    let mut i: usize = 0;
    while i < n
        invariant
            n == names@.len(),
            i <= n,
            forall|k: int| 0 <= k < i ==> !is_wordpress_cookie(#[trigger] names@[k]@),
        decreases n - i,
    {
        if is_wordpress_cookie_exec(names[i].as_str()) {
            return true;
        }
        i = i + 1;
    }
    match set_cookie {
        Some(h) => match cookie_name_of_header(h.as_str()) {
            Some(name) => is_wordpress_cookie_exec(name.as_str()),
            None => false,
        },
        None => false,
    }
}

/// Markup in which the plugin path pattern finds nothing names no plugin.
pub proof fn lemma_no_plugin_paths(html: Seq<char>)
    requires
        regex_captures_of(PLUGIN_PATH_PATTERN@, html) matches Some(caps) ==> caps.len() == 0,
    ensures
        plugin_slugs_of(html).len() == 0,
{
}

/// A plugin whose first `ver=` token is a commit hash has the masked form
/// `(hash:<first seven characters>)` as its installed version.
pub proof fn lemma_plugin_hash_version(html: Seq<char>, slug: Seq<char>, token: Seq<char>)
    requires
        first_capture(regex_captures_of(plugin_version_pattern(slug), html)) == Some(token),
        is_commit_hash(token),
    ensures
        plugin_version_of(html, slug) == Some("(hash:"@ + token.take(7) + ")"@),
{
    reveal_strlit("(timestamp:");
    assert(!is_timestamp(token)) by {
        if is_timestamp(token) {
            assert(all_digits(token));
        }
    }
}

} // verus!
