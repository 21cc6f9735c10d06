//! Reconstruction of structured match records from a card game client's
//! activity log: fragment extraction, message classification, replay
//! assembly, and derived-fact queries over a finished replay.

pub mod business;
pub mod cards;
pub mod client;
pub mod deck;
pub mod errors;
pub mod gre;
mod json;
pub mod mgrsc;
pub mod models;
pub mod processor;
pub mod replay;
pub mod storage_backends;
pub mod text;

pub use processor::LogProcessor;
