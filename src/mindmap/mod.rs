//! A mindmap: circular nodes placed explicitly or grown radially from a
//! parent, joined by tapered connectors.
pub mod geometry;
pub mod node;
pub mod connector;
pub mod mindmap;

pub use geometry::Point;
pub use node::Node;
pub use mindmap::{Mindmap, MindmapError};
