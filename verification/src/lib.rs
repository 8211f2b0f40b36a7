//! tailcloak: turn Tailscale on for untrusted networks and off for trusted ones.
//!
//! Networks are identified by the MAC address of their default gateway. The
//! library holds the decisions and the data of the daemon; the binary around it
//! reads the system state and performs the actions that the library decides.
pub mod cli;
pub mod config;
pub mod daemon;
pub mod launchd;
pub mod mac;
pub mod paths;
pub mod pause;
pub mod tailscale;
pub mod text;
