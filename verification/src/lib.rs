//! Linear memory of a WebAssembly runtime.
//!
//! A memory is an array of bytes that starts zeroed, is read and written with bounds checks, and
//! grows by pages of 64KiB up to a limit. [`MemoryInstance`] is the memory; what its operations do
//! is stated over [`MemoryState`], and [`laws`] relates them to each other.
pub mod allocator;
pub mod bytes;
pub mod error;
pub mod laws;
pub mod memory;
pub mod region;
pub mod state;
pub mod text;
pub mod units;
pub mod validation;
pub mod value;

pub use allocator::Allocator;
pub use allocator::Buffer;
pub use error::Error;
pub use memory::Destination;
pub use memory::MemoryInstance;
pub use memory::ResizableLimits;
pub use region::CheckedRegion;
pub use state::MemoryState;
pub use units::Bytes;
pub use units::Pages;
pub use units::LINEAR_MEMORY_PAGE_SIZE;
pub use validation::LINEAR_MEMORY_MAX_PAGES;
pub use value::LittleEndianConvert;
pub use value::ValueError;
