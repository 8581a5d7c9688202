//! A user-space NVMe client core: controller discovery, queue-pair
//! lifecycle, namespace command issuance with completion callbacks, and
//! DMA buffer management, all modelled over an in-memory device so that
//! every rule of the engine is stated and proved.

pub mod controller;
pub mod discovery;
pub mod dma;
pub mod env;
pub mod namespace;
pub mod queue;
pub mod splice;
pub mod transport;
