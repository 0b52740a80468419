//! Integer core of a voxel subsurface-scattering renderer: voxel grid
//! addressing and filling, GPU launch shapes, sample accounting,
//! framebuffer packing, scene selection and input handling decisions.
pub mod saturate;
pub mod grid;
pub mod sampling;
pub mod controls;
pub mod framebuffer;
pub mod launch;
pub mod scene;
pub mod orbital;
