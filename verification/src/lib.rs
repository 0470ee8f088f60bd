//! A verified model of a browser custom-element adapter.
//!
//! The library describes a component registrar and a dispatch shim over a
//! modelled host environment: elements with attributes and markup, a single
//! process-wide "current element" slot, a component registry, and the
//! console/dialog sinks. The browser glue itself lives outside the library;
//! everything here is plain data and verified logic.

pub mod attributes;
pub mod hello_world;
pub mod helpers;
pub mod model;
pub mod registrar;

pub use helpers::add_event_listener;
pub use helpers::alert;
pub use helpers::get_attribute;
pub use helpers::log;
pub use helpers::set_child_inner_html;
pub use helpers::set_inner_html;
pub use model::str_eq;
pub use registrar::define_web_component;
