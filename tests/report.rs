use wordpress_audit::analyze::{ComponentAnalysis, ComponentType};
use wordpress_audit::error::decimal_text;
use wordpress_audit::output::{report_rows, status_label};
use wordpress_audit::{Analysis, ComponentStatus, Error, OutputConfig, OutputFormat, OutputSort};

fn row(t: ComponentType, name: &str, status: ComponentStatus) -> ComponentAnalysis {
    ComponentAnalysis {
        component_type: t,
        name: name.to_string(),
        version: "-".to_string(),
        latest_version: "-".to_string(),
        status,
    }
}

fn sample() -> Analysis {
    Analysis {
        url: "https://example.com/".into(),
        wordpress: row(ComponentType::Core, "WordPress", ComponentStatus::UpToDate),
        theme: row(ComponentType::Theme, "astra", ComponentStatus::Outdated),
        plugins: vec![
            row(ComponentType::Plugin, "zeta", ComponentStatus::Unknown),
            row(ComponentType::Plugin, "akismet", ComponentStatus::Outdated),
        ],
    }
}

fn names(rows: &[ComponentAnalysis]) -> Vec<&str> {
    rows.iter().map(|r| r.name.as_str()).collect()
}

#[test]
fn rows_sorted_by_type() {
    let rows = report_rows(&sample(), OutputSort::Type);
    assert_eq!(names(&rows), vec!["WordPress", "astra", "akismet", "zeta"]);
}

#[test]
fn rows_sorted_by_name() {
    let rows = report_rows(&sample(), OutputSort::Name);
    assert_eq!(names(&rows), vec!["WordPress", "akismet", "astra", "zeta"]);
}

#[test]
fn rows_sorted_by_status() {
    let rows = report_rows(&sample(), OutputSort::Status);
    assert_eq!(names(&rows), vec!["astra", "akismet", "zeta", "WordPress"]);
}

#[test]
fn placeholder_row_without_plugins() {
    let mut a = sample();
    a.plugins.clear();
    let rows = report_rows(&a, OutputSort::Type);
    assert_eq!(rows.len(), 3);
    assert_eq!(rows[2].component_type, ComponentType::Plugin);
    assert_eq!(rows[2].name, "-");
    assert_eq!(rows[2].status, ComponentStatus::NotDetected);
}

#[test]
fn option_names_parse() {
    assert_eq!(OutputFormat::parse("JSON").unwrap(), OutputFormat::Json);
    assert_eq!(OutputFormat::parse("none").unwrap(), OutputFormat::Silent);
    assert_eq!("Human".parse::<OutputFormat>().unwrap(), OutputFormat::Human);
    let e = OutputFormat::parse("xml").unwrap_err();
    assert_eq!(e.message(), "invalid output format: 'xml' (valid: human, json, none)");
    assert_eq!(OutputSort::parse("STATUS").unwrap(), OutputSort::Status);
    assert!(matches!(OutputSort::parse("size"), Err(Error::InvalidOutputSort(s)) if s == "size"));
    let c = OutputConfig::new(OutputFormat::Json, OutputSort::Name);
    assert_eq!(c.format, OutputFormat::Json);
    assert_eq!(c.sort, OutputSort::Name);
    let d = OutputConfig::default();
    assert_eq!(d.format, OutputFormat::Human);
    assert_eq!(d.sort, OutputSort::Type);
}

#[test]
fn labels_and_messages() {
    assert_eq!(status_label(ComponentStatus::NotDetected), "Not Found");
    assert_eq!(status_label(ComponentStatus::UpToDate), "Ok");
    assert_eq!(ComponentType::Plugin.label(), "Plugin");
    assert_eq!(Error::HttpStatus(404).message(), "HTTP error: status 404");
    assert_eq!(Error::HttpStatus(0).message(), "HTTP error: status 0");
    assert_eq!(decimal_text(65535), "65535");
    assert_eq!(Error::InvalidUrl("x".into()).message(), "invalid URL: x");
    assert_eq!(Error::HttpRequest("t".into()).message(), "HTTP request failed: t");
    assert_eq!(Error::HttpClient("c".into()).message(), "failed to create HTTP client: c");
    assert_eq!(Error::NotWordPress.message(), "site does not appear to be WordPress");
    assert_eq!(Error::InvalidOutputDetail("q".into()).message(), "invalid output detail: 'q' (valid: all, nok)");
    assert_eq!(Error::OutputFailed("io".into()).message(), "output failed: io");
    assert_eq!(Error::SerializationFailed("e".into()).message(), "JSON serialization failed");
}

#[test]
fn component_analysis_classification() {
    let c = ComponentAnalysis::new(ComponentType::Plugin, "p", None, Some("1.0".into()));
    assert_eq!(c.status, ComponentStatus::Unknown);
    assert_eq!(c.version, "-");
    let c = ComponentAnalysis::new(ComponentType::Plugin, "p", Some("1.0".into()), None);
    assert_eq!(c.status, ComponentStatus::UpToDate);
    assert_eq!(c.latest_version, "-");
    let c = ComponentAnalysis::new(ComponentType::Plugin, "p", Some("7.0-beta".into()), Some("7.0".into()));
    assert_eq!(c.status, ComponentStatus::Outdated);
    let c = ComponentAnalysis::not_detected(ComponentType::Core, "WordPress");
    assert_eq!(c.status, ComponentStatus::NotDetected);
}

#[test]
fn equal_rows_keep_input_order() {
    let mut a = sample();
    a.theme = row(ComponentType::Theme, "same", ComponentStatus::Outdated);
    a.plugins = vec![row(ComponentType::Plugin, "same", ComponentStatus::Unknown)];
    let rows = report_rows(&a, OutputSort::Name);
    assert_eq!(rows[1].component_type, ComponentType::Theme);
    assert_eq!(rows[2].component_type, ComponentType::Plugin);
}
