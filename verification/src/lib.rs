//! Verified core of the USB backup agent: configuration models, signing of
//! device configurations, backup planning rules and text handling.

pub mod text;
pub mod models;
pub mod signing;
pub mod notifications;
pub mod backup;
pub mod rsync;
pub mod clock;
pub mod storage;
pub mod tui;
pub mod patterns;
pub mod github;
pub mod wizard;
pub mod agent;
pub mod run;
