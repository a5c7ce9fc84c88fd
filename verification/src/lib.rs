//! Verified core of a show-control desktop application.

pub mod alerts;
pub mod anydesk;
pub mod calendar;
pub mod camera;
pub mod config;
pub mod digest;
pub mod health;
pub mod json;
pub mod logs;
pub mod netdevices;
pub mod numerals;
pub mod oca;
pub mod osc;
pub mod pixera;
pub mod pjlink;
pub mod projector_extras;
pub mod snmp;
pub mod strmap;
pub mod system;
pub mod text;
pub mod ups;
pub mod webapi;
