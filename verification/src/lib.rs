//! Verified core of a screenshot tool: frame stitching for scrolling capture,
//! capture history bookkeeping, settings sanitizing, shortcut validation,
//! localisation lookups and the small parsers the application relies on.

pub mod capture;
pub mod commands;
pub mod i18n;
pub mod history;
pub mod onboarding;
pub mod paths;
pub mod settings;
pub mod shortcuts;
pub mod text;
pub mod tray;
pub mod windows;
