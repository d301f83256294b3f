//! Builds keyboard macros that pick a list of items through a game's
//! inventory menu, and renders them as text.

pub mod builder;
pub mod class;
pub mod compress;
pub mod format;
pub mod input;
pub mod item;
pub mod render;

pub use builder::{BuildState, GunMacro, GunMacroBuilder};
pub use class::Class;
pub use compress::dedup_near;
pub use format::MacroFormat;
pub use input::Input;
pub use item::Item;
