//! LocaGate's logic: a tunnel proxy that exposes local web servers through
//! a relay. This library decides what the desktop application does: how
//! requests are classified and logged, how tunnels are configured, started
//! and stopped, how a tunnel connects and reconnects, and what the
//! interface shows. The application around it does the I/O.
pub mod text;
pub mod category;
pub mod config;
pub mod logs;
pub mod codec;
pub mod tunnel;
pub mod manager;
pub mod ui;
pub mod form;
pub mod render;
