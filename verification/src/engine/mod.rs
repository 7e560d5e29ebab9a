//! The core engine: AI providers, collectors, processors, the scheduler and
//! the records that storage keeps.

pub mod ai_provider;
pub mod collector;
pub mod processor;
pub mod scheduler;
pub mod storage;
