//! Verified core of the mesh-fitting tool chain.
pub mod blend;
pub mod mask;
pub mod onnx;
pub mod probe;
pub mod rig;
pub mod scene;
pub mod text;
