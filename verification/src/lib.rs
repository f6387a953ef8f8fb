//! Verified table creation for Delta tables.

pub mod actions;
pub mod actions_laws;
pub mod clock;
pub mod clustering;
pub mod error;
pub mod schema;
pub mod schema_laws;
pub mod seqs;
pub mod table_features;
pub mod table_properties;
pub mod table_protocol_metadata_config;
pub mod table_protocol_metadata_config_laws;
pub mod table_transformation;
pub mod text;
pub mod text_laws;
pub mod transaction;
