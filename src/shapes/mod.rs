//! The drawable shapes: circles, rectangles, paths and groups.
pub mod circle;
pub mod group;
pub mod rect;
pub mod path;
pub mod path_syntax;

pub use circle::Circle;
pub use group::{Element, Group};
pub use rect::Rect;
pub use path::{Path, PathCommand};
