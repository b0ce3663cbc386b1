//! What a report shows: its options, the rows in order, the status labels.

use crate::analyze::{Analysis, ComponentAnalysis, ComponentStatus, ComponentType, ComponentView};
use crate::error::Error;
use crate::text::str_eq;
use vstd::prelude::*;

verus! {

broadcast use vstd::seq_lib::to_multiset_insert, vstd::seq_lib::to_multiset_build;

/// Output format for results.
#[derive(Debug, Clone, Copy, PartialEq, Eq, Structural)]
pub enum OutputFormat {
    /// Human-readable table output
    Human,
    /// JSON output
    Json,
    /// No output (silent mode)
    Silent,
}

/// Sort order for output.
#[derive(Debug, Clone, Copy, PartialEq, Eq, Structural)]
pub enum OutputSort {
    /// Sort by type (Core, Theme, Plugin), then by name (default)
    Type,
    /// Sort alphabetically by name only
    Name,
    /// Sort by status, then by type, then by name
    Status,
}

/// The text in lower case.
pub uninterp spec fn lower_of(s: Seq<char>) -> Seq<char>;

/// Relies on `str::to_lowercase`: the result depends on the characters alone.
#[verifier::external_body]
fn lowercase(s: &str) -> (r: String)
    ensures
        r@ == lower_of(s@),
{
    s.to_lowercase()
}

/// The format that a lower-cased name selects.
pub open spec fn format_named(s: Seq<char>) -> Option<OutputFormat> {
    if s == "human"@ {
        Some(OutputFormat::Human)
    } else if s == "json"@ {
        Some(OutputFormat::Json)
    } else if s == "none"@ {
        Some(OutputFormat::Silent)
    } else {
        None
    }
}

/// The sort order that a lower-cased name selects.
pub open spec fn sort_named(s: Seq<char>) -> Option<OutputSort> {
    if s == "type"@ {
        Some(OutputSort::Type)
    } else if s == "name"@ {
        Some(OutputSort::Name)
    } else if s == "status"@ {
        Some(OutputSort::Status)
    } else {
        None
    }
}

/// The error for an unknown format name `s`.
pub open spec fn rejects_format(e: Error, s: Seq<char>) -> bool {
    match e {
        Error::InvalidOutputFormat(t) => t@ == s,
        _ => false,
    }
}

/// The error for an unknown sort name `s`.
pub open spec fn rejects_sort(e: Error, s: Seq<char>) -> bool {
    match e {
        Error::InvalidOutputSort(t) => t@ == s,
        _ => false,
    }
}

impl OutputFormat {
    /// Parses a format name from its lower-cased text `l`; `given` is the
    /// text as given, for the error.
    pub fn from_lowercase(l: &str, given: &str) -> (r: Result<Self, Error>)
        ensures
            r matches Ok(f) ==> format_named(l@) == Some(f),
            r matches Err(e) ==> format_named(l@) is None && rejects_format(e, given@),
    {
        if str_eq(l, "human") {
            Ok(OutputFormat::Human)
        } else if str_eq(l, "json") {
            Ok(OutputFormat::Json)
        } else if str_eq(l, "none") {
            Ok(OutputFormat::Silent)
        } else {
            Err(Error::InvalidOutputFormat(given.to_owned()))
        }
    }

    /// Parses a format name: `human`, `json` or `none`, in any case.
    pub fn parse(s: &str) -> (r: Result<Self, Error>)
        ensures
            r matches Ok(f) ==> format_named(lower_of(s@)) == Some(f),
            r matches Err(e) ==> format_named(lower_of(s@)) is None && rejects_format(e, s@),
    {
        let l = lowercase(s);
        Self::from_lowercase(l.as_str(), s)
    }
}

impl OutputSort {
    /// Parses a sort name from its lower-cased text `l`; `given` is the text
    /// as given, for the error.
    pub fn from_lowercase(l: &str, given: &str) -> (r: Result<Self, Error>)
        ensures
            r matches Ok(f) ==> sort_named(l@) == Some(f),
            r matches Err(e) ==> sort_named(l@) is None && rejects_sort(e, given@),
    {
        if str_eq(l, "type") {
            Ok(OutputSort::Type)
        } else if str_eq(l, "name") {
            Ok(OutputSort::Name)
        } else if str_eq(l, "status") {
            Ok(OutputSort::Status)
        } else {
            Err(Error::InvalidOutputSort(given.to_owned()))
        }
    }

    /// Parses a sort name: `type`, `name` or `status`, in any case.
    pub fn parse(s: &str) -> (r: Result<Self, Error>)
        ensures
            r matches Ok(f) ==> sort_named(lower_of(s@)) == Some(f),
            r matches Err(e) ==> sort_named(lower_of(s@)) is None && rejects_sort(e, s@),
    {
        let l = lowercase(s);
        Self::from_lowercase(l.as_str(), s)
    }
}

impl std::str::FromStr for OutputFormat {
    type Err = Error;

    fn from_str(s: &str) -> Result<Self, Error> {
        OutputFormat::parse(s)
    }
}

impl std::str::FromStr for OutputSort {
    type Err = Error;

    fn from_str(s: &str) -> Result<Self, Error> {
        OutputSort::parse(s)
    }
}

impl Default for OutputFormat {
    fn default() -> (r: Self)
        ensures
            r == OutputFormat::Human,
    {
        OutputFormat::Human
    }
}

impl Default for OutputSort {
    fn default() -> (r: Self)
        ensures
            r == OutputSort::Type,
    {
        OutputSort::Type
    }
}

/// Configuration for output formatting.
#[derive(Debug, Clone, Copy)]
pub struct OutputConfig {
    /// Output format
    pub format: OutputFormat,
    /// Sort order
    pub sort: OutputSort,
}

impl OutputConfig {
    /// Create a new output config.
    pub fn new(format: OutputFormat, sort: OutputSort) -> (r: Self)
        ensures
            r.format == format,
            r.sort == sort,
    {
        OutputConfig { format, sort }
    }
}

impl Default for OutputConfig {
    fn default() -> (r: Self)
        ensures
            r.format == OutputFormat::Human,
            r.sort == OutputSort::Type,
    {
        OutputConfig { format: OutputFormat::Human, sort: OutputSort::Type }
    }
}

/// The label of a status in a report.
pub open spec fn status_text(s: ComponentStatus) -> Seq<char> {
    match s {
        ComponentStatus::UpToDate => "Ok"@,
        ComponentStatus::Outdated => "Outdated"@,
        ComponentStatus::Unknown => "Unknown"@,
        ComponentStatus::NotDetected => "Not Found"@,
    }
}

/// The label of a status in a report.
pub fn status_label(s: ComponentStatus) -> (r: String)
    ensures
        r@ == status_text(s),
{
    match s {
        ComponentStatus::UpToDate => String::from_str("Ok"),
        ComponentStatus::Outdated => String::from_str("Outdated"),
        ComponentStatus::Unknown => String::from_str("Unknown"),
        ComponentStatus::NotDetected => String::from_str("Not Found"),
    }
}

/// Strict lexicographic order on texts, by code point.
pub open spec fn text_less(a: Seq<char>, b: Seq<char>) -> bool
    decreases a.len(),
{
    if a.len() == 0 {
        b.len() > 0
    } else if b.len() == 0 {
        false
    } else if a[0] < b[0] {
        true
    } else if a[0] > b[0] {
        false
    } else {
        text_less(a.drop_first(), b.drop_first())
    }
}

proof fn lemma_text_less_transitive(a: Seq<char>, b: Seq<char>, c: Seq<char>)
    requires
        text_less(a, b),
        text_less(b, c),
    ensures
        text_less(a, c),
    decreases a.len(),
{
    if a.len() > 0 && b.len() > 0 && c.len() > 0 && a[0] == b[0] && b[0] == c[0] {
        lemma_text_less_transitive(a.drop_first(), b.drop_first(), c.drop_first());
    }
}

proof fn lemma_text_less_irreflexive(a: Seq<char>)
    ensures
        !text_less(a, a),
    decreases a.len(),
{
    if a.len() > 0 {
        lemma_text_less_irreflexive(a.drop_first());
    }
}

fn text_less_exec(a: &str, b: &str) -> (r: bool)
    ensures
        r == text_less(a@, b@),
{
    let n = a.unicode_len();
    let m = b.unicode_len();
    let mut i: usize = 0;
    assert(a@.skip(0) == a@ && b@.skip(0) == b@);
    while i < n && i < m && a.get_char(i) == b.get_char(i)
        invariant
            n == a@.len(),
            m == b@.len(),
            i <= n,
            i <= m,
            text_less(a@, b@) == text_less(a@.skip(i as int), b@.skip(i as int)),
        decreases n - i,
    {
        proof {
            assert(a@.skip(i as int).drop_first() == a@.skip(i + 1));
            assert(b@.skip(i as int).drop_first() == b@.skip(i + 1));
        }
        i = i + 1;
    }
    if i == n {
        i < m
    } else if i == m {
        false
    } else {
        a.get_char(i) < b.get_char(i)
    }
}

pub open spec fn type_rank(t: ComponentType) -> int {
    match t {
        ComponentType::Core => 0,
        ComponentType::Theme => 1,
        ComponentType::Plugin => 2,
    }
}

pub open spec fn status_rank(s: ComponentStatus) -> int {
    match s {
        ComponentStatus::UpToDate => 0,
        ComponentStatus::Unknown => 1,
        ComponentStatus::Outdated => 2,
        ComponentStatus::NotDetected => 3,
    }
}

/// The leading keys of a row under a sort order; the name breaks ties.
pub open spec fn row_keys(c: ComponentView, sort: OutputSort) -> (int, int) {
    match sort {
        OutputSort::Type => (type_rank(c.component_type), 0),
        OutputSort::Name => (0, 0),
        OutputSort::Status => (3 - status_rank(c.status), type_rank(c.component_type)),
    }
}

/// Row `a` comes strictly before row `b`: by type then name; by name; or
/// by status (not detected first, up to date last), then type, then name.
pub open spec fn row_before(a: ComponentView, b: ComponentView, sort: OutputSort) -> bool {
    let (ka, kb) = (row_keys(a, sort), row_keys(b, sort));
    ka.0 < kb.0 || (ka.0 == kb.0 && (ka.1 < kb.1 || (ka.1 == kb.1 && text_less(a.name, b.name))))
}

proof fn lemma_row_before_transitive(
    a: ComponentView,
    b: ComponentView,
    c: ComponentView,
    sort: OutputSort,
)
    requires
        row_before(a, b, sort),
        row_before(b, c, sort),
    ensures
        row_before(a, c, sort),
{
    if text_less(a.name, b.name) && text_less(b.name, c.name) {
        lemma_text_less_transitive(a.name, b.name, c.name);
    }
}

fn row_before_exec(a: &ComponentAnalysis, b: &ComponentAnalysis, sort: OutputSort) -> (r: bool)
    ensures
        r == row_before(a@, b@, sort),
{
    let ta: i64 = match a.component_type {
        ComponentType::Core => 0,
        ComponentType::Theme => 1,
        ComponentType::Plugin => 2,
    };
    let tb: i64 = match b.component_type {
        ComponentType::Core => 0,
        ComponentType::Theme => 1,
        ComponentType::Plugin => 2,
    };
    let sa: i64 = match a.status {
        ComponentStatus::UpToDate => 0,
        ComponentStatus::Unknown => 1,
        ComponentStatus::Outdated => 2,
        ComponentStatus::NotDetected => 3,
    };
    let sb: i64 = match b.status {
        ComponentStatus::UpToDate => 0,
        ComponentStatus::Unknown => 1,
        ComponentStatus::Outdated => 2,
        ComponentStatus::NotDetected => 3,
    };
    let (a0, a1, b0, b1): (i64, i64, i64, i64) = match sort {
        OutputSort::Type => (ta, 0, tb, 0),
        OutputSort::Name => (0, 0, 0, 0),
        OutputSort::Status => (3 - sa, ta, 3 - sb, tb),
    };
    a0 < b0 || (a0 == b0 && (a1 < b1 || (a1 == b1 && text_less_exec(
        a.name.as_str(),
        b.name.as_str(),
    ))))
}

fn copy_row(c: &ComponentAnalysis) -> (r: ComponentAnalysis)
    ensures
        r@ == c@,
{
    ComponentAnalysis {
        component_type: c.component_type,
        name: c.name.clone(),
        version: c.version.clone(),
        latest_version: c.latest_version.clone(),
        status: c.status,
    }
}

pub open spec fn views(s: Seq<ComponentAnalysis>) -> Seq<ComponentView> {
    s.map_values(|c: ComponentAnalysis| c@)
}

/// The row that stands for "no plugins".
pub open spec fn no_plugins_row() -> ComponentView {
    ComponentView {
        component_type: ComponentType::Plugin,
        name: "-"@,
        version: "-"@,
        latest_version: "-"@,
        status: ComponentStatus::NotDetected,
    }
}

/// The rows of a report before sorting: core, theme, then each plugin, or
/// a placeholder row when there are none.
pub open spec fn report_rows_of(a: Analysis) -> Seq<ComponentView> {
    seq![a.wordpress@, a.theme@] + if a.plugins@.len() == 0 {
        seq![no_plugins_row()]
    } else {
        views(a.plugins@)
    }
}

/// No row comes strictly before an earlier one.
pub open spec fn rows_sorted(s: Seq<ComponentView>, sort: OutputSort) -> bool {
    forall|i: int, j: int| 0 <= i < j < s.len() ==> !row_before(#[trigger] s[j], #[trigger] s[i], sort)
}

/// Rows that sort to the same place: neither comes before the other.
pub open spec fn same_place(a: ComponentView, b: ComponentView, sort: OutputSort) -> bool {
    !row_before(a, b, sort) && !row_before(b, a, sort)
}

/// The rows that sort to the same place as `z`.
pub open spec fn place_of(z: ComponentView, sort: OutputSort) -> spec_fn(ComponentView) -> bool {
    |y: ComponentView| same_place(y, z, sort)
}

proof fn lemma_text_trichotomy(a: Seq<char>, b: Seq<char>)
    requires
        !text_less(a, b),
        !text_less(b, a),
    ensures
        a == b,
    decreases a.len(),
{
    if a.len() > 0 && b.len() > 0 {
        lemma_text_trichotomy(a.drop_first(), b.drop_first());
        assert forall|i: int| 0 <= i < a.len() implies a[i] == b[i] by {
            if i > 0 {
                assert(a[i] == a.drop_first()[i - 1]);
                assert(b[i] == b.drop_first()[i - 1]);
            }
        }
        assert(a =~= b);
    } else {
        assert(a =~= b);
    }
}

proof fn lemma_same_place(a: ComponentView, b: ComponentView, sort: OutputSort)
    requires
        same_place(a, b, sort),
    ensures
        row_keys(a, sort) == row_keys(b, sort),
        a.name == b.name,
{
    lemma_text_trichotomy(a.name, b.name);
}

proof fn lemma_filter_push(s: Seq<ComponentView>, x: ComponentView, f: spec_fn(ComponentView) -> bool)
    ensures
        s.push(x).filter(f) == if f(x) {
            s.filter(f).push(x)
        } else {
            s.filter(f)
        },
{
    reveal(Seq::filter);
    assert(s.push(x).drop_last() == s);
}

proof fn lemma_filter_none(s: Seq<ComponentView>, f: spec_fn(ComponentView) -> bool)
    requires
        forall|i: int| 0 <= i < s.len() ==> !f(#[trigger] s[i]),
    ensures
        s.filter(f) == Seq::<ComponentView>::empty(),
    decreases s.len(),
{
    reveal(Seq::filter);
    if s.len() > 0 {
        assert forall|i: int| 0 <= i < s.drop_last().len() implies !f(#[trigger] s.drop_last()[i]) by {
            assert(s.drop_last()[i] == s[i]);
        }
        lemma_filter_none(s.drop_last(), f);
        assert(!f(s[s.len() - 1]));
    }
}

/// Inserts `x` after every row that does not come after it.
fn insert_sorted(out: &mut Vec<ComponentAnalysis>, x: ComponentAnalysis, sort: OutputSort)
    requires
        rows_sorted(views(old(out)@), sort),
    ensures
        rows_sorted(views(final(out)@), sort),
        views(final(out)@).to_multiset() == views(old(out)@).to_multiset().insert(x@),
        forall|z: ComponentView|
            #[trigger] views(final(out)@).filter(place_of(z, sort)) == if same_place(x@, z, sort) {
                views(old(out)@).filter(place_of(z, sort)).push(x@)
            } else {
                views(old(out)@).filter(place_of(z, sort))
            },
{
    let n = out.len();
    let mut p: usize = 0;
    while p < n && !row_before_exec(&x, &out[p], sort)
        invariant
            n == out@.len(),
            p <= n,
            forall|k: int| 0 <= k < p ==> !row_before(x@, #[trigger] out@[k]@, sort),
        decreases n - p,
    {
        p = p + 1;
    }
    let ghost before = out@;
    proof {
        assert(views(before).insert(p as int, x@) == views(before.insert(p as int, x)));
        assert forall|k: int| p <= k < n implies !row_before(#[trigger] before[k]@, x@, sort) by {
            if row_before(before[k]@, x@, sort) {
                assert(row_before(x@, before[p as int]@, sort));
                lemma_row_before_transitive(before[k]@, x@, before[p as int]@, sort);
                if k > p {
                    assert(views(before)[k] == before[k]@);
                    assert(views(before)[p as int] == before[p as int]@);
                } else {
                    lemma_text_less_irreflexive(before[p as int]@.name);
                }
            }
        }
    }
    out.insert(p, x);
    proof {
        let v = views(out@);
        assert(out@ == before.insert(p as int, x));
        assert forall|i: int, j: int| 0 <= i < j < v.len() implies !row_before(
            #[trigger] v[j],
            #[trigger] v[i],
            sort,
        ) by {
            let vb = views(before);
            if j < p {
                assert(v[i] == vb[i] && v[j] == vb[j]);
            } else if j == p {
                assert(v[i] == vb[i]);
            } else if i < p {
                assert(v[i] == vb[i] && v[j] == vb[j - 1]);
            } else if i == p {
                assert(v[j] == vb[j - 1]);
            } else {
                assert(v[i] == vb[i - 1] && v[j] == vb[j - 1]);
            }
        }
        let vb = views(before);
        let pi = p as int;
        assert(v =~= vb.take(pi).push(x@) + vb.skip(pi));
        assert(vb =~= vb.take(pi) + vb.skip(pi));
        assert forall|z: ComponentView|
            #[trigger] v.filter(place_of(z, sort)) == if same_place(x@, z, sort) {
                vb.filter(place_of(z, sort)).push(x@)
            } else {
                vb.filter(place_of(z, sort))
            } by {
            let f = place_of(z, sort);
            Seq::filter_distributes_over_add(vb.take(pi).push(x@), vb.skip(pi), f);
            Seq::filter_distributes_over_add(vb.take(pi), vb.skip(pi), f);
            lemma_filter_push(vb.take(pi), x@, f);
            if same_place(x@, z, sort) {
                let rest = vb.skip(pi);
                assert forall|i: int| 0 <= i < rest.len() implies !f(#[trigger] rest[i]) by {
                    if f(rest[i]) {
                        assert(rest[i] == vb[pi + i]);
                        lemma_same_place(rest[i], z, sort);
                        lemma_same_place(x@, z, sort);
                        assert(row_before(x@, before[pi]@, sort));
                        assert(vb[pi] == before[pi]@);
                        if i > 0 {
                            assert(!row_before(vb[pi + i], vb[pi], sort));
                        } else {
                            lemma_text_less_irreflexive(vb[pi].name);
                        }
                    }
                }
                lemma_filter_none(rest, f);
                assert(rest.filter(f) + Seq::<ComponentView>::empty() == rest.filter(f));
                assert(vb.take(pi).filter(f).push(x@) + rest.filter(f) =~= vb.take(pi).filter(
                    f,
                ).push(x@));
                assert(vb.take(pi).filter(f) + rest.filter(f) =~= vb.take(pi).filter(f));
            }
        }
    }
}

/// The rows of a report in the order that `sort` asks for: core, theme and
/// each plugin (or a placeholder when there is none), sorted stably.
pub fn report_rows(analysis: &Analysis, sort: OutputSort) -> (r: Vec<ComponentAnalysis>)
    ensures
        views(r@).to_multiset() == report_rows_of(*analysis).to_multiset(),
        rows_sorted(views(r@), sort),
        forall|z: ComponentView|
            #[trigger] views(r@).filter(place_of(z, sort)) == report_rows_of(*analysis).filter(
                place_of(z, sort),
            ),
{
    let mut input: Vec<ComponentAnalysis> = Vec::new();
    input.push(copy_row(&analysis.wordpress));
    input.push(copy_row(&analysis.theme));
    let ghost head = input@;
    if analysis.plugins.len() == 0 {
        input.push(
            ComponentAnalysis {
                component_type: ComponentType::Plugin,
                name: String::from_str("-"),
                version: String::from_str("-"),
                latest_version: String::from_str("-"),
                status: ComponentStatus::NotDetected,
            },
        );
        assert(views(input@) == report_rows_of(*analysis));
    } else {
        let n = analysis.plugins.len();
        let mut i: usize = 0;
        while i < n
            invariant
                n == analysis.plugins@.len(),
                i <= n,
                views(input@) == seq![analysis.wordpress@, analysis.theme@] + views(
                    analysis.plugins@.take(i as int),
                ),
            decreases n - i,
        {
            let ghost prev = input@;
            input.push(copy_row(&analysis.plugins[i]));
            proof {
                assert(views(input@) == views(prev).push(analysis.plugins@[i as int]@));
                assert(views(analysis.plugins@.take(i + 1)) == views(
                    analysis.plugins@.take(i as int),
                ).push(analysis.plugins@[i as int]@));
            }
            i = i + 1;
        }
        assert(analysis.plugins@.take(n as int) == analysis.plugins@);
    }
    let ghost all = views(input@);
    let mut out: Vec<ComponentAnalysis> = Vec::new();
    let m = input.len();
    let mut k: usize = 0;
    assert(views(out@) == Seq::<ComponentView>::empty());
    assert(all.take(0) == Seq::<ComponentView>::empty());
    proof {
        reveal(Seq::filter);
    }
    while k < m
        invariant
            m == input@.len(),
            k <= m,
            all == views(input@),
            rows_sorted(views(out@), sort),
            views(out@).to_multiset() == all.take(k as int).to_multiset(),
            forall|z: ComponentView|
                #[trigger] views(out@).filter(place_of(z, sort)) == all.take(k as int).filter(
                    place_of(z, sort),
                ),
        decreases m - k,
    {
        let x = copy_row(&input[k]);
        proof {
            assert(all.take(k + 1) == all.take(k as int).push(all[k as int]));
            assert forall|z: ComponentView|
                #[trigger] all.take(k + 1).filter(place_of(z, sort)) == if same_place(
                    x@,
                    z,
                    sort,
                ) {
                    all.take(k as int).filter(place_of(z, sort)).push(x@)
                } else {
                    all.take(k as int).filter(place_of(z, sort))
                } by {
                lemma_filter_push(all.take(k as int), x@, place_of(z, sort));
            }
        }
        insert_sorted(&mut out, x, sort);
        k = k + 1;
    }
    assert(all.take(m as int) == all);
    out
}

} // verus!
