//! Render geometric shapes to SVG markup with automatically computed
//! viewports and cascading visual styles.

pub mod arrow;
pub mod bounds;
pub mod color;
pub mod combine;
pub mod document;
pub mod geometry;
pub mod scalar;
pub mod stylable;
pub mod style;
pub mod text;
pub mod to_svg;
pub mod to_svg_str;
pub mod unit;
pub mod viewbox;

pub use arrow::Arrow;
pub use bounds::Mark;
pub use color::Color;
pub use combine::CombineToSVG;
pub use document::{DocModel, PartModel, SVGDocument, SVGDocumentBuilder, SVGDocumentPart, SVGShape};
pub use geometry::{Coord, Geometry, GeometryCollection, Line, LineString, MultiLineString, MultiPoint, MultiPolygon, Point, Polygon, PolygonModel, Rect, Triangle};
pub use scalar::{Scalar, SC_MAX};
pub use stylable::Stylable;
pub use style::{LineCap, LineJoin, Style, StyleModel, StyleUpdate};
pub use text::Text;
pub use to_svg::ToSvg;
pub use to_svg_str::ToSvgStr;
pub use unit::Unit;
pub use viewbox::ViewBox;
