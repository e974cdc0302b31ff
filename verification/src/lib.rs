//! Parser for the Wavefront OBJ polygonal-scene text format and its
//! companion MTL material format, together with an engine that turns a
//! parsed scene into renderable meshes: per-group triangle lists over
//! deduplicated vertex-attribute buffers.
//!
//! Numeric scalars (vertex coordinates, material parameters) are carried
//! as their validated source tokens; turning a token into a machine float
//! is left to the caller, so that everything here is exact and verified.

pub mod error;
pub mod mtl_file_loader;
pub mod numtok;
pub mod obj;
pub mod obj_file_loader;
pub mod obj_renderable;
pub mod text;

pub use error::ObjError;
pub use error::ObjErrorKind;
pub use mtl_file_loader::mtl_load;
pub use mtl_file_loader::ObjMaterial;
pub use mtl_file_loader::ObjMaterialCollection;
pub use mtl_file_loader::Transparency;
pub use obj::ObjFace;
pub use obj::ObjFaceCorner;
pub use obj::ObjGroup;
pub use obj::ObjScene;
pub use obj_file_loader::obj_load;
pub use obj_file_loader::obj_load_raw;
pub use obj_renderable::obj_to_renderable;
pub use obj_renderable::ObjRenderable;
pub use obj_renderable::Triangle;
