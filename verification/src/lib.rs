//! Verified core of a low-power web media gateway: the playback session
//! authority, the control surface around it, display leases, the site-session
//! vault and the security boundary helpers.

pub mod playback;
pub mod text;
pub mod ids;
pub mod control;
pub mod display_adapter;
pub mod display_session;
pub mod keyed;
pub mod auth;
pub mod browser;
pub mod control_view;
pub mod security;
pub mod gateway;
pub mod media;
pub mod auth_api;
pub mod delivery;
pub mod outputs;
pub mod auth_route;
pub mod capabilities;
pub mod hls;
pub mod probe;
pub mod http_surface;
pub mod worker;
