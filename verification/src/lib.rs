//! Egress-IP monitoring and process control: the decision logic of the
//! desktop killswitch, with its contracts.

pub mod admin;
pub mod commands;
pub mod config;
pub mod crontab;
pub mod detector;
pub mod firewall;
pub mod logger;
pub mod process_watcher;
pub mod processes;
pub mod scheduler;
pub mod state;
pub mod text;
pub mod tray;
pub mod verdict;
pub mod window;
