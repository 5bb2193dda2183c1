pub mod builder;
pub mod changes;
pub mod dbus_menu;
pub mod diff;
pub mod entry;
pub mod error;
pub mod icon;
pub mod item;
pub mod menu;
pub mod native;
pub mod property;
pub mod query;
pub mod windows;

pub use builder::TrayIconBuilder;
pub use error::{ErrorSource, TrayError};
pub use icon::Icon;
pub use menu::{ClickType, Menu, MenuItem, TrayEvent};
