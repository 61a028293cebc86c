//! The verified core of a Home Assistant dashboard for e-ink Kindles.

pub mod battery;
pub mod calendar;
pub mod controls;
pub mod cover;
pub mod display;
pub mod fetch;
pub mod framebuffer;
pub mod home;
pub mod labels;
pub mod pixels;
pub mod platform;
pub mod refresh;
pub mod requests;
pub mod snapshot;
pub mod text;
pub mod view;
