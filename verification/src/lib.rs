pub mod text;
pub mod hex;
pub mod lsn;
pub mod position;
pub mod dedup;
pub mod json;
pub mod config;
pub mod ids;
pub mod error;
pub mod clock;
pub mod models;
pub mod destination;
pub mod checkpoint;
pub mod pipeline;
pub mod numbers;
pub mod text_set;
pub mod keyed;
pub mod delivery;
pub mod health;
pub mod dlq;
