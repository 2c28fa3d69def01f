//! A slicer core for 3D printing: cuts a triangulated surface mesh with a
//! sequence of horizontal planes and assembles the resulting line segments
//! into closed, consistently wound contour polygons.
//!
//! All geometry is carried in fixed-point integer coordinates (one unit is
//! one millionth of a millimetre), so every comparison and interpolation in
//! the pipeline is exact integer arithmetic.

pub mod geom;
pub mod mesh;
pub mod polygon;
pub mod slice;
pub mod stage;
pub mod transform;

pub use geom::Line;
pub use geom::Segment;
pub use geom::Vertex;
pub use mesh::Face;
pub use mesh::Mesh;
pub use polygon::Polygon;
pub use slice::Slice;
pub use slice::SliceIterator;
pub use stage::Stage;
pub use stage::StageIterator;
pub use transform::Axis;
pub use transform::Transform;
pub use transform::TransformError;
