//! Deciding whether Antigravity will answer, and keeping it that way.
//!
//! The relay's side: what it answers itself (`gate_host`, `dns_client`), which
//! interface and network it is on (`interface`, `network`), what its warm loop
//! does on each pass (`warm`, `warm_pass`), how it answers the client's logs (`client_log`),
//! and what it writes down (`relay_log`, `startup`, `version`, `paths`).
//!
//! The window's side: the one verdict at its top (`status`), the facts it is
//! made of (`window`), and what its controls do (`controls`).
pub mod client_log;
pub mod controls;
pub mod dns_client;
pub mod gate_host;
pub mod interface;
pub mod network;
pub mod paths;
pub mod relay_log;
pub mod startup;
pub mod status;
pub mod text;
pub mod time;
pub mod version;
pub mod warm;
pub mod warm_pass;
pub mod window;
