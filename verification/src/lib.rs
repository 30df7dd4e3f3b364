//! The logic of `tetron-systray`, a tray client for the `tetron` daemon.
//!
//! The tray shows at a glance whether the daemon can be reached and is active,
//! lists the members of each network, and puts networks on standby or resumes
//! them. This crate decides what the tray shows and does; the event loop, the
//! native menu, the connection to the daemon and the service manager are driven
//! by the program around it, which reports what happened and carries out what
//! is decided here.
//!
//! - [`tray`] is the state of the tray and its reaction to each event; what
//!   holds over several events is in [`tray_laws`].
//! - [`menu`] builds the menu from scratch ([`menu_laws`]), [`reconcile`] brings
//!   the submenu of a network up to date in place, and [`submenu_laws`] relates
//!   the two.
//! - [`members`] computes the member rows ([`member_laws`]), [`fingerprint`]
//!   tells when the menu has to be built anew, [`actions`] gives a meaning to
//!   clicks, [`icon`] draws the tray icon.
//! - [`poll`] is the cadence of the poller ([`poll_laws`]), [`ipc_client`] one
//!   request to the daemon ([`ipc_laws`]).
//! - [`service`] installs the per-user service, whose files are in
//!   [`service_files`] ([`service_laws`]), [`environment`] and [`version`] hold
//!   settings, [`invite`] decodes invite codes.
//! - [`text`] and [`order`] are what the rest is built from ([`text_laws`]).
pub mod actions;
pub mod environment;
pub mod fingerprint;
pub mod icon;
pub mod invite;
pub mod ipc_client;
pub mod ipc_laws;
pub mod member_laws;
pub mod members;
pub mod menu;
pub mod menu_laws;
pub mod order;
pub mod poll;
pub mod poll_laws;
pub mod reconcile;
pub mod service;
pub mod service_files;
pub mod service_laws;
pub mod submenu_laws;
pub mod text;
pub mod text_laws;
pub mod tray;
pub mod tray_laws;
pub mod version;
