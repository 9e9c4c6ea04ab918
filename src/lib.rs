//! Host/guest bridge for contracts that run on an emulated 64-bit RISC-V
//! machine inside an Ethereum-style execution environment.
pub mod abi;
pub mod bridge;
pub mod contract;
pub mod guest;
pub mod loader;
pub mod machine;
pub mod storage;
pub mod syscalls;
