//! Widgets for interactive command-line prompts: a coordinate model for a
//! line-oriented terminal viewport, and a paginated, scrollable selection list
//! built on it.

pub mod backend;
pub mod events;
pub mod input;
pub mod layout;
pub mod number;
pub mod prompt;
pub mod select;
pub mod widget;

pub use input::Input;
pub use layout::{Layout, RenderRegion};
pub use widget::{no_filter, Validation, Widget};
