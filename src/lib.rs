//! Vector drawings rendered as SVG markup: styled shapes, paths with a
//! lossless text form, and mindmaps of circular nodes joined by tapered
//! connectors. Numbers are fixed-point decimals (`num::Num`).
pub mod text;
pub mod num;
pub mod colors;
pub mod style;
pub mod draw_svg;
pub mod shapes;
pub mod mindmap;
pub mod svg_viewport;

pub use draw_svg::ToSvg;
pub use num::Num;
pub use svg_viewport::SvgDrawing;
