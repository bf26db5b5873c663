//! What the boot stage decides before it hands control to the kernel.

pub mod graphics_config;
pub mod kernel_reader;
pub mod paging;
pub mod phys_memory_map;
pub mod raw_mem_map;
pub mod sys_config_reader;
