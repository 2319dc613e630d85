//! Selective package-upgrade bookkeeping: parsing of outdated-package
//! listings, a checkbox checklist file that records which packages are
//! enabled for bulk upgrades, and summary statistics over both.

pub mod brew;
pub mod cli;
pub mod commands;
pub mod config;
pub mod laws;
pub mod stats;
pub mod text;
pub mod utils;

pub use brew::BrewError;
pub use brew::BrewExecutor;
pub use brew::OutdatedPackage;
pub use brew::PackageType;
pub use brew::parse_outdated_line;
pub use cli::Cli;
pub use cli::Commands;
pub use config::Settings;
pub use config::extract_package_name;
pub use config::generate_settings_content;
pub use config::generate_settings_content_at;
pub use config::read_existing_settings;
pub use config::read_previous_packages;
pub use utils::format_log_entry;
