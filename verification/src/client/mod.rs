//! Logic of the browser client: addresses, page states, keyboard navigation
//! and the texts its pages build.
pub mod api;
pub mod types;
pub mod navbar;
pub mod analytics;
pub mod terminal;
pub mod view;
pub mod dashboard;
pub mod create;
pub mod modal;
pub mod hamburger;
pub mod admin;
