use vstd::prelude::*;

pub mod text;
pub mod inventory;
pub mod json;
pub mod config;
pub mod utils;
pub mod textfile;
pub mod installer;
pub mod platform;
pub mod rollback;
pub mod winget_bootstrap;
pub mod macos_inventory;
pub mod audit;
pub mod session;
pub mod capture;
pub mod plan;
pub mod ini_stability;
pub mod system_steps;

verus! {
}
