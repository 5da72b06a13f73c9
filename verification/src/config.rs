//! Configuration: global and project settings, command aliases, filters and
//! output teeing.

pub mod modules;
pub mod env_loader;
pub mod global;
pub mod project;
pub mod tee_writer;
pub mod filter_registry;

pub use modules::{CommandConfig, FilterConfig, LimitsConfig, ReportConfig, TechStackConfig, TeeConfig, TeeMode};
pub use global::{AppConfig, ProjectAppConfig};
