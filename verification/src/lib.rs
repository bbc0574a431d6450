//! The decision core of an offline path tracer: the pixel buffer, the split of
//! an image among workers, the choice among intersection roots, the
//! nearest-hit policy of a scene and the bookkeeping of nested transparent
//! media, each with a proved contract.

pub mod cer_mat;
pub mod cer_object;
pub mod image_cer;
pub mod raster;
pub mod scalar;
pub mod scene_cer;
pub mod schedule;
pub mod tracer;
