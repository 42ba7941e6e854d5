//! Verified core of a small x86_64 research kernel: memory-protection-key
//! register arithmetic, page-table entry decoding and page walks, the
//! system-call interface, the heap-region choice, the task executor's
//! bookkeeping, the pages opened to user mode, the decisions of the network
//! servers, and a polling virtio-net driver.

pub mod virtio;
pub mod paging;
pub mod pk;
pub mod pkrs;
pub mod pkru;
pub mod syscall;
pub mod legacy_syscall;
pub mod echo;
pub mod memory;
pub mod stack_trace;
pub mod bench;
pub mod scheduler;
pub mod user_mode;
pub mod servers;
