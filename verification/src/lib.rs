pub mod batch;
pub mod block_range;
pub mod filter;
pub mod layer;
pub mod mallctl;
pub mod profiling;
pub mod provider;
