//! The state machine of a tiling window manager: monitors, managed windows,
//! layout, focus and the dispatch of display events.

pub mod command;
pub mod config;
pub mod error;
pub mod events;
pub mod layouts;
pub mod modeline;
pub mod monitors;
pub mod utils;
pub mod window;
pub mod wm;

pub use crate::command::Command;
pub use crate::config::{key_bindings, Action, BORDER_WIDTH};
pub use crate::error::KoanWMError;
pub use crate::events::{Event, Step};
pub use crate::utils::color_channels;
pub use crate::window::Window;
pub use crate::wm::KoanWM;
