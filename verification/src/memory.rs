//! The typed address space and the program buffer.
pub mod address;
pub mod memory_manager;
pub mod runtime_memory;

pub use memory_manager::MemoryManager;
