# delta_table_creation

Verified creation of Delta tables: from a request with a schema and table properties to the
protocol, the metadata and the domain metadata of the table's first commit.

- `src/` is the library. Its functions are verified by Verus against their contracts, except for
  the few that call outside code (below); files whose names end in `_laws.rs` state and prove what
  holds across functions.
  - `transaction/create_table.rs`: the builder and the transaction that it builds
  - `transaction/data_layout.rs`: partitioned and clustered layouts
  - `table_protocol_metadata_config.rs`: the table under construction
  - `table_transformation/`: the transforms, the registry that selects them, the pipeline that
    orders and runs them
  - `clustering.rs`: clustering columns as domain metadata
  - `schema.rs`, `table_features.rs`, `table_properties.rs`, `actions.rs`: the values these work on
- `app/` is ordinary Rust around the library: storage, paths, JSON decoding, committing.
- `tests/` runs the library.

What is believed without proof is marked `external_body` or `assume_specification` and says so in
its doc comment: `std::time::SystemTime::elapsed`, `std::time::Duration::as_millis`,
`serde_json::to_string`, and `url::Url::parse` with `url::Url::join`.
