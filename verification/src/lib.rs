//! Verified core of a terminal dashboard for a multi-agent orchestration
//! workspace: the navigation and filter state machine behind the screen,
//! the records it shows, and the small text computations it needs.

pub mod api_client;
pub mod app;
pub mod demo;
pub mod gastown;
pub mod repos;
pub mod schedule;
pub mod text;
pub mod view;
