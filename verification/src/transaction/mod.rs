//! Transactions that create tables.

pub mod create_table;
pub mod create_table_laws;
pub mod data_layout;
pub mod data_layout_laws;
