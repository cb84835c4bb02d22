//! The logic of a virtio-fs share served over the Hyper-V Device Virtualization
//! (HDV) API, with the behaviour of every function stated and proved.
#![allow(non_camel_case_types)]
#![allow(non_snake_case)]

pub mod abi;
pub mod attach;
pub mod clock;
pub mod dispatcher;
pub mod doorbell;
pub mod guid;
pub mod handle;
pub mod hdv;
pub mod hresult;
pub mod interrupt;
pub mod json;
pub mod logging;
pub mod mem;
pub mod offload;
pub mod page_hash;
pub mod payload;
pub mod pci;
pub mod pool;
pub mod proxy;
pub mod ratelimit;
pub mod reqstats;
pub mod sys;
pub mod testvm;
pub mod text;
pub mod transport;
pub mod utf16;
pub mod vmworker;
