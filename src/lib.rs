//! Learned block upscaling of raster images: the sampling geometry shared by
//! training and inference, training-pair construction, the per-file training
//! driver's decisions, output assembly and file naming.
pub mod raster;
pub mod sampler;
pub mod engine;
pub mod naming;
pub mod formats;
pub mod training;
