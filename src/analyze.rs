//! Classification of each detected component as up to date or not.

use crate::report::{clone_opt, opt_view, PluginInfo, ScanResult};
use crate::version::{compare_versions, version_order};
use std::cmp::Ordering;
use vstd::prelude::*;

verus! {

/// The kind of a component.
#[derive(Debug, Clone, Copy, PartialEq, Eq, Structural)]
pub enum ComponentType {
    /// WordPress core
    Core,
    /// Theme
    Theme,
    /// Plugin
    Plugin,
}

pub open spec fn type_label(t: ComponentType) -> Seq<char> {
    match t {
        ComponentType::Core => "Core"@,
        ComponentType::Theme => "Theme"@,
        ComponentType::Plugin => "Plugin"@,
    }
}

impl ComponentType {
    /// The display name of the kind.
    pub fn label(&self) -> (r: String)
        ensures
            r@ == type_label(*self),
    {
        match self {
            ComponentType::Core => String::from_str("Core"),
            ComponentType::Theme => String::from_str("Theme"),
            ComponentType::Plugin => String::from_str("Plugin"),
        }
    }
}

/// The status of a component; declared in the order used for sorting.
#[derive(Debug, Clone, Copy, PartialEq, Eq, PartialOrd, Ord, Structural)]
pub enum ComponentStatus {
    /// Component is up to date
    UpToDate,
    /// Component detected but version unknown
    Unknown,
    /// Component is outdated
    Outdated,
    /// Component not detected
    NotDetected,
}

/// The text shown for a missing version.
pub open spec fn unknown_marker() -> Seq<char> {
    "-"@
}

/// A version as displayed: the version itself, or the marker when missing.
pub open spec fn shown(v: Option<Seq<char>>) -> Seq<char> {
    match v {
        Some(s) => s,
        None => unknown_marker(),
    }
}

/// The status of a detected component from its displayed versions.
pub open spec fn classify(version: Seq<char>, latest: Seq<char>) -> ComponentStatus {
    if version == unknown_marker() {
        ComponentStatus::Unknown
    } else if latest == unknown_marker() {
        ComponentStatus::UpToDate
    } else if version_order(version, latest) == Ordering::Less {
        ComponentStatus::Outdated
    } else {
        ComponentStatus::UpToDate
    }
}

/// The spec value of a `ComponentAnalysis`.
pub ghost struct ComponentView {
    pub component_type: ComponentType,
    pub name: Seq<char>,
    pub version: Seq<char>,
    pub latest_version: Seq<char>,
    pub status: ComponentStatus,
}

/// The analysis of a detected component.
pub open spec fn analysis_of(
    t: ComponentType,
    name: Seq<char>,
    version: Option<Seq<char>>,
    latest: Option<Seq<char>>,
) -> ComponentView {
    ComponentView {
        component_type: t,
        name,
        version: shown(version),
        latest_version: shown(latest),
        status: classify(shown(version), shown(latest)),
    }
}

/// The analysis of a component that was not found.
pub open spec fn not_detected_of(t: ComponentType, name: Seq<char>) -> ComponentView {
    ComponentView {
        component_type: t,
        name,
        version: unknown_marker(),
        latest_version: unknown_marker(),
        status: ComponentStatus::NotDetected,
    }
}

/// Analysis result for a single component.
#[derive(Debug, Clone)]
pub struct ComponentAnalysis {
    /// Component type
    pub component_type: ComponentType,
    /// Component name/slug
    pub name: String,
    /// Detected version (or "-" if unknown)
    pub version: String,
    /// Latest available version (or "-" if unknown)
    pub latest_version: String,
    /// Component status
    pub status: ComponentStatus,
}

impl View for ComponentAnalysis {
    type V = ComponentView;

    open spec fn view(&self) -> ComponentView {
        ComponentView {
            component_type: self.component_type,
            name: self.name@,
            version: self.version@,
            latest_version: self.latest_version@,
            status: self.status,
        }
    }
}

fn is_unknown_marker(s: &str) -> (r: bool)
    ensures
        r == (s@ == unknown_marker()),
{
    proof {
        reveal_strlit("-");
    }
    if s.unicode_len() == 1 && s.get_char(0) == '-' {
        assert(s@ =~= unknown_marker());
        true
    } else {
        false
    }
}

fn shown_exec(v: Option<String>) -> (r: String)
    ensures
        r@ == shown(opt_view(v)),
{
    match v {
        Some(s) => s,
        None => String::from_str("-"),
    }
}

impl ComponentAnalysis {
    /// Analyses a detected component: a missing version is shown as `-`,
    /// and the status follows from comparing the installed and latest
    /// versions.
    pub fn new(
        component_type: ComponentType,
        name: &str,
        version: Option<String>,
        latest_version: Option<String>,
    ) -> (r: Self)
        ensures
            r@ == analysis_of(component_type, name@, opt_view(version), opt_view(latest_version)),
    {
        let version_str = shown_exec(version);
        let latest_str = shown_exec(latest_version);
        let status = if is_unknown_marker(version_str.as_str()) {
            ComponentStatus::Unknown
        } else if is_unknown_marker(latest_str.as_str()) {
            ComponentStatus::UpToDate
        } else {
            match compare_versions(version_str.as_str(), latest_str.as_str()) {
                Ordering::Less => ComponentStatus::Outdated,
                _ => ComponentStatus::UpToDate,
            }
        };
        ComponentAnalysis {
            component_type,
            name: name.to_owned(),
            version: version_str,
            latest_version: latest_str,
            status,
        }
    }

    /// The analysis of a component that was not found.
    pub fn not_detected(component_type: ComponentType, name: &str) -> (r: Self)
        ensures
            r@ == not_detected_of(component_type, name@),
    {
        ComponentAnalysis {
            component_type,
            name: name.to_owned(),
            version: String::from_str("-"),
            latest_version: String::from_str("-"),
            status: ComponentStatus::NotDetected,
        }
    }
}

/// The map from name to analysis that a sequence of analyses stands for;
/// a later entry replaces an earlier one of the same name.
pub open spec fn entries_map(s: Seq<ComponentAnalysis>) -> Map<Seq<char>, ComponentView>
    decreases s.len(),
{
    if s.len() == 0 {
        Map::empty()
    } else {
        entries_map(s.drop_last()).insert(s.last().name@, s.last()@)
    }
}

/// No two analyses share a name.
pub open spec fn distinct_names(s: Seq<ComponentAnalysis>) -> bool {
    forall|i: int, j: int|
        0 <= i < s.len() && 0 <= j < s.len() && i != j ==> #[trigger] s[i].name@ != #[trigger] s[j].name@
}

proof fn lemma_entries_map_update(s: Seq<ComponentAnalysis>, j: int, a: ComponentAnalysis)
    requires
        distinct_names(s),
        0 <= j < s.len(),
        s[j].name@ == a.name@,
    ensures
        entries_map(s.update(j, a)) == entries_map(s).insert(a.name@, a@),
    decreases s.len(),
{
    let u = s.update(j, a);
    if j == s.len() - 1 {
        assert(u.drop_last() == s.drop_last());
        assert(entries_map(u) =~= entries_map(s).insert(a.name@, a@));
    } else {
        let d = s.drop_last();
        assert(u.drop_last() == d.update(j, a));
        assert(distinct_names(d)) by {
            assert forall|x: int, y: int|
                0 <= x < d.len() && 0 <= y < d.len() && x != y implies #[trigger] d[x].name@
                != #[trigger] d[y].name@ by {
                assert(d[x] == s[x] && d[y] == s[y]);
            }
        }
        lemma_entries_map_update(d, j, a);
        assert(s.last().name@ != a.name@) by {
            assert(s[s.len() - 1].name@ != s[j].name@);
        }
        assert(entries_map(u) =~= entries_map(s).insert(a.name@, a@));
    }
}

/// Complete analysis results.
#[derive(Debug, Clone)]
pub struct Analysis {
    /// Target URL
    pub url: String,
    /// WordPress core analysis
    pub wordpress: ComponentAnalysis,
    /// Main theme analysis
    pub theme: ComponentAnalysis,
    /// Plugin analyses, at most one per name
    pub plugins: Vec<ComponentAnalysis>,
}

pub open spec fn outdated_flag(c: ComponentAnalysis) -> nat {
    if c.status == ComponentStatus::Outdated {
        1
    } else {
        0
    }
}

/// How many of the analyses are outdated.
pub open spec fn count_outdated(s: Seq<ComponentAnalysis>) -> nat
    decreases s.len(),
{
    if s.len() == 0 {
        0
    } else {
        count_outdated(s.drop_last()) + outdated_flag(s.last())
    }
}

impl Analysis {
    /// Plugins are keyed by name: no two share one.
    pub open spec fn wf(&self) -> bool {
        distinct_names(self.plugins@)
    }

    /// The plugin analyses by slug.
    pub open spec fn plugin_map(&self) -> Map<Seq<char>, ComponentView> {
        entries_map(self.plugins@)
    }

    /// How many components are outdated: core, theme and plugins.
    pub open spec fn outdated_total(&self) -> nat {
        outdated_flag(self.wordpress) + outdated_flag(self.theme) + count_outdated(self.plugins@)
    }

    /// Check if WordPress was detected.
    pub fn is_wordpress(&self) -> (r: bool)
        ensures
            r == (self.wordpress.status != ComponentStatus::NotDetected),
    {
        self.wordpress.status != ComponentStatus::NotDetected
    }

    /// Get count of detected plugins.
    pub fn plugin_count(&self) -> (r: usize)
        ensures
            r == self.plugins@.len(),
    {
        self.plugins.len()
    }

    /// Get count of outdated components (saturating at `usize::MAX`).
    pub fn outdated_count(&self) -> (r: usize)
        ensures
            r == if self.outdated_total() <= usize::MAX {
                self.outdated_total()
            } else {
                usize::MAX as nat
            },
    {
        let mut count: usize = 0;
        let n = self.plugins.len();
        let mut i: usize = 0;
        while i < n
            invariant
                n == self.plugins@.len(),
                i <= n,
                count == count_outdated(self.plugins@.take(i as int)),
                count <= i,
            decreases n - i,
        {
            proof {
                assert(self.plugins@.take(i + 1).drop_last() == self.plugins@.take(i as int));
            }
            if self.plugins[i].status == ComponentStatus::Outdated {
                count = count + 1;
            }
            i = i + 1;
        }
        proof {
            assert(self.plugins@.take(n as int) == self.plugins@);
        }
        if self.wordpress.status == ComponentStatus::Outdated {
            count = count.saturating_add(1);
        }
        if self.theme.status == ComponentStatus::Outdated {
            count = count.saturating_add(1);
        }
        count
    }
}

/// The core analysis: its version when found; otherwise present without
/// version when detected by other means, or not detected.
pub open spec fn core_analysis_of(scan: ScanResult) -> ComponentView {
    match scan.wordpress_version {
        Some(v) => analysis_of(
            ComponentType::Core,
            "WordPress"@,
            Some(v@),
            opt_view(scan.wordpress_latest),
        ),
        None => if scan.wordpress_detected {
            analysis_of(ComponentType::Core, "WordPress"@, None, opt_view(scan.wordpress_latest))
        } else {
            not_detected_of(ComponentType::Core, "WordPress"@)
        },
    }
}

/// The theme analysis: of the theme when detected, else not detected.
pub open spec fn theme_analysis_of(scan: ScanResult) -> ComponentView {
    match scan.theme {
        Some(t) => analysis_of(
            ComponentType::Theme,
            t.slug@,
            opt_view(t.version),
            opt_view(t.latest_version),
        ),
        None => not_detected_of(ComponentType::Theme, unknown_marker()),
    }
}

pub open spec fn plugin_analysis_of(p: PluginInfo) -> ComponentView {
    analysis_of(ComponentType::Plugin, p.slug@, opt_view(p.version), opt_view(p.latest_version))
}

/// The plugin analyses by slug; a later plugin of the same slug replaces
/// an earlier one.
pub open spec fn plugins_analysis_of(ps: Seq<PluginInfo>) -> Map<Seq<char>, ComponentView>
    decreases ps.len(),
{
    if ps.len() == 0 {
        Map::empty()
    } else {
        plugins_analysis_of(ps.drop_last()).insert(ps.last().slug@, plugin_analysis_of(ps.last()))
    }
}

/// A scan without plugins gives an empty plugin mapping.
pub proof fn lemma_no_plugins_empty_map(ps: Seq<PluginInfo>)
    requires
        ps.len() == 0,
    ensures
        plugins_analysis_of(ps) == Map::<Seq<char>, ComponentView>::empty(),
{
}

/// Analyzer for scan results.
pub struct Analyzer {
    scan: ScanResult,
}

impl Analyzer {
    /// The scan being analysed.
    pub closed spec fn scan(&self) -> ScanResult {
        self.scan
    }

    /// Create a new analyzer for the given scan result.
    pub fn new(scan: ScanResult) -> (r: Self)
        ensures
            r.scan() == scan,
    {
        Analyzer { scan }
    }

    /// Perform the analysis.
    pub fn analyze(self) -> (r: Analysis)
        ensures
            r.wf(),
            r.url@ == self.scan().url@,
            r.wordpress@ == core_analysis_of(self.scan()),
            r.theme@ == theme_analysis_of(self.scan()),
            r.plugin_map() == plugins_analysis_of(self.scan().plugins@),
    {
        let wordpress = self.analyze_wordpress();
        let theme = self.analyze_theme();
        let plugins = self.analyze_plugins();
        Analysis { url: self.scan.url, wordpress, theme, plugins }
    }

    fn analyze_wordpress(&self) -> (r: ComponentAnalysis)
        ensures
            r@ == core_analysis_of(self.scan),
    {
        match &self.scan.wordpress_version {
            Some(version) => ComponentAnalysis::new(
                ComponentType::Core,
                "WordPress",
                Some(version.clone()),
                clone_opt(&self.scan.wordpress_latest),
            ),
            None => {
                if self.scan.wordpress_detected {
                    ComponentAnalysis::new(
                        ComponentType::Core,
                        "WordPress",
                        None,
                        clone_opt(&self.scan.wordpress_latest),
                    )
                } else {
                    ComponentAnalysis::not_detected(ComponentType::Core, "WordPress")
                }
            },
        }
    }

    fn analyze_theme(&self) -> (r: ComponentAnalysis)
        ensures
            r@ == theme_analysis_of(self.scan),
    {
        match &self.scan.theme {
            Some(theme) => ComponentAnalysis::new(
                ComponentType::Theme,
                theme.slug.as_str(),
                clone_opt(&theme.version),
                clone_opt(&theme.latest_version),
            ),
            None => ComponentAnalysis::not_detected(ComponentType::Theme, "-"),
        }
    }

    fn analyze_plugins(&self) -> (r: Vec<ComponentAnalysis>)
        ensures
            distinct_names(r@),
            entries_map(r@) == plugins_analysis_of(self.scan.plugins@),
    {
        let ps = &self.scan.plugins;
        let n = ps.len();
        let mut out: Vec<ComponentAnalysis> = Vec::new();
        let mut i: usize = 0;
        while i < n
            invariant
                n == ps@.len(),
                i <= n,
                distinct_names(out@),
                entries_map(out@) == plugins_analysis_of(ps@.take(i as int)),
            decreases n - i,
        {
            let p = &ps[i];
            let a = ComponentAnalysis::new(
                ComponentType::Plugin,
                p.slug.as_str(),
                clone_opt(&p.version),
                clone_opt(&p.latest_version),
            );
            proof {
                assert(ps@.take(i + 1).drop_last() == ps@.take(i as int));
                assert(ps@.take(i + 1).last() == *p);
            }
            let m = out.len();
            let mut j: usize = 0;
            while j < m && out[j].name != p.slug
                invariant
                    m == out@.len(),
                    j <= m,
                    forall|k: int| 0 <= k < j ==> (#[trigger] out@[k]).name@ != p.slug@,
                decreases m - j,
            {
                j = j + 1;
            }
            if j < m {
                proof {
                    lemma_entries_map_update(out@, j as int, a);
                }
                let ghost before = out@;
                out.set(j, a);
                proof {
                    assert(out@ == before.update(j as int, a));
                    assert forall|x: int, y: int|
                        0 <= x < out@.len() && 0 <= y < out@.len() && x != y implies #[trigger] out@[x].name@
                        != #[trigger] out@[y].name@ by {
                        if x != j && y != j {
                            assert(out@[x] == before[x] && out@[y] == before[y]);
                        } else if x == j {
                            assert(before[x].name@ == a.name@);
                            assert(out@[y] == before[y]);
                        } else {
                            assert(before[y].name@ == a.name@);
                            assert(out@[x] == before[x]);
                        }
                    }
                }
            } else {
                let ghost before = out@;
                out.push(a);
                proof {
                    assert(out@.drop_last() == before);
                    assert forall|x: int, y: int|
                        0 <= x < out@.len() && 0 <= y < out@.len() && x != y implies #[trigger] out@[x].name@
                        != #[trigger] out@[y].name@ by {
                        if x < before.len() && y < before.len() {
                            assert(out@[x] == before[x] && out@[y] == before[y]);
                        } else if x < before.len() {
                            assert(out@[x] == before[x]);
                        } else {
                            assert(out@[y] == before[y]);
                        }
                    }
                }
            }
            i = i + 1;
        }
        proof {
            assert(ps@.take(n as int) == ps@);
        }
        out
    }
}

} // verus!
