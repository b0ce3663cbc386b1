//! WordPress fingerprinting: version normalization and comparison, component
//! analysis, target validation and the markup detectors of a scan.

pub mod analyze;
pub mod detect;
pub mod error;
pub mod output;
pub mod report;
pub mod scan;
pub mod target;
pub mod text;
pub mod version;

pub use analyze::{Analysis, Analyzer, ComponentAnalysis, ComponentStatus, ComponentType};
pub use error::Error;
pub use output::{OutputConfig, OutputFormat, OutputSort};
pub use report::{PluginInfo, ScanResult, ThemeInfo};
pub use scan::{Probe, Reply, ScanSession};
pub use target::{IpAddress, ScannerBuilder, Target};
