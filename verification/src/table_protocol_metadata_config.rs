//! The protocol and metadata of a table under construction.
//!
//! A [`TableProtocolMetadataConfig`] starts with a bare protocol and with all of the user's
//! properties. The transforms of [`crate::table_transformation`] then add features, check
//! properties and take out those that are requests rather than settings.

use crate::actions::{feature_views, Metadata, MetadataView, Protocol, ProtocolView};
use crate::clock::{current_time_ms, is_now};
use crate::error::DeltaResult;
use crate::schema::{texts, SchemaRef, StructType};
use crate::table_features::{
    FeatureView, TableFeature, SET_TABLE_FEATURE_SUPPORTED_PREFIX,
    TABLE_FEATURES_MIN_READER_VERSION, TABLE_FEATURES_MIN_WRITER_VERSION,
};
use crate::table_properties::{
    Entries, PropertyMap, MIN_READER_VERSION_PROP, MIN_WRITER_VERSION_PROP,
};
use crate::text::{same_text, starts_with};
use std::sync::Arc;
use vstd::prelude::*;

verus! {

/// The prefix of the properties that are Delta's own.
pub const DELTA_PROPERTY_PREFIX: &'static str = "delta.";

/// Protocol and metadata on their way through the transforms.
#[derive(Debug)]
pub struct TableProtocolMetadataConfig {
    /// The protocol; it starts without features.
    pub protocol: Protocol,
    /// The metadata: schema, partition columns and properties.
    pub metadata: Metadata,
}

/// The mathematical value of a [`TableProtocolMetadataConfig`].
pub struct ConfigView {
    pub protocol: ProtocolView,
    pub metadata: MetadataView,
}

impl View for TableProtocolMetadataConfig {
    type V = ConfigView;

    open spec fn view(&self) -> ConfigView {
        ConfigView { protocol: self.protocol@, metadata: self.metadata@ }
    }
}

/// The protocol of table features, with no feature listed.
pub open spec fn bare_protocol() -> ProtocolView {
    ProtocolView {
        min_reader_version: TABLE_FEATURES_MIN_READER_VERSION,
        min_writer_version: TABLE_FEATURES_MIN_WRITER_VERSION,
        reader_features: Some(Seq::empty()),
        writer_features: Some(Seq::empty()),
    }
}

/// The configuration before any transform: the bare protocol, and the properties as they came.
pub open spec fn initial_config(
    schema: StructType,
    partition_columns: Seq<Seq<char>>,
    properties: Entries,
    created_time: i64,
) -> ConfigView {
    ConfigView {
        protocol: bare_protocol(),
        metadata: MetadataView {
            name: None,
            description: None,
            schema,
            partition_columns,
            created_time,
            configuration: properties,
        },
    }
}

/// The features that can be asked for when a table is created.
pub open spec fn feature_allowed(feature: FeatureView) -> bool {
    feature == TableFeature::DomainMetadata@
}

/// The properties that can be set when a table is created: all that are not Delta's own, the
/// feature requests and the version requests.
pub open spec fn property_allowed(key: Seq<char>) -> bool {
    ||| !DELTA_PROPERTY_PREFIX@.is_prefix_of(key)
    ||| SET_TABLE_FEATURE_SUPPORTED_PREFIX@.is_prefix_of(key)
    ||| key == MIN_READER_VERSION_PROP@
    ||| key == MIN_WRITER_VERSION_PROP@
}

impl TableProtocolMetadataConfig {
    /// The configuration of a new table before any transform, created now.
    pub fn new(
        schema: StructType,
        partition_columns: Vec<String>,
        properties: PropertyMap,
    ) -> (r: DeltaResult<TableProtocolMetadataConfig>)
        ensures
            exists|now: DeltaResult<i64>| #[trigger]
                is_now(now) && match now {
                    Ok(t) => r matches Ok(c) && c@ == initial_config(
                        schema,
                        texts(partition_columns@),
                        properties@,
                        t,
                    ),
                    Err(e) => r matches Err(f) && f@ == e@,
                },
    {
        let now = current_time_ms();
        assert(is_now(now));
        Self::created_at(Arc::new(schema), partition_columns, properties, now)
    }

    /// The configuration of a new table before any transform, with the clock's reading given.
    pub fn created_at(
        schema: SchemaRef,
        partition_columns: Vec<String>,
        properties: PropertyMap,
        now: DeltaResult<i64>,
    ) -> (r: DeltaResult<TableProtocolMetadataConfig>)
        ensures
            match now {
                Ok(t) => r matches Ok(c) && c@ == initial_config(
                    *schema,
                    texts(partition_columns@),
                    properties@,
                    t,
                ),
                Err(e) => r matches Err(f) && f@ == e@,
            },
    {
        let created_time: i64 = match now {
            Ok(t) => t,
            Err(e) => return Err(e),
        };
        let readers: Vec<TableFeature> = Vec::new();
        let writers: Vec<TableFeature> = Vec::new();
        proof {
            assert(feature_views(readers@) =~= Seq::empty());
            assert(feature_views(writers@) =~= Seq::empty());
        }
        match Protocol::try_new(
            TABLE_FEATURES_MIN_READER_VERSION,
            TABLE_FEATURES_MIN_WRITER_VERSION,
            Some(readers),
            Some(writers),
        ) {
            Ok(protocol) => {
                let metadata = Metadata::new(
                    None,
                    None,
                    schema,
                    partition_columns,
                    created_time,
                    properties,
                );
                Ok(TableProtocolMetadataConfig { protocol, metadata })
            },
            Err(e) => Err(e),
        }
    }

    /// Whether a feature can be asked for when a table is created.
    pub fn is_delta_feature_allowed(feature: &TableFeature) -> (r: bool)
        ensures
            r == feature_allowed(feature@),
    {
        feature.same(&TableFeature::DomainMetadata)
    }

    /// Whether a property can be set when a table is created.
    pub fn is_delta_property_allowed(key: &str) -> (r: bool)
        ensures
            r == property_allowed(key@),
    {
        // Properties of applications are always allowed.
        if !starts_with(key, DELTA_PROPERTY_PREFIX) {
            return true;
        }
        // Requests are allowed too: transforms carry them out and take them away.
        if starts_with(key, SET_TABLE_FEATURE_SUPPORTED_PREFIX) {
            return true;
        }
        same_text(key, MIN_READER_VERSION_PROP) || same_text(key, MIN_WRITER_VERSION_PROP)
    }

    /// The same configuration with other partition columns.
    pub fn with_partition_columns(self, partition_columns: Vec<String>) -> (r:
        TableProtocolMetadataConfig)
        ensures
            r@ == (ConfigView {
                metadata: MetadataView {
                    partition_columns: texts(partition_columns@),
                    ..self@.metadata
                },
                ..self@
            }),
    {
        TableProtocolMetadataConfig {
            protocol: self.protocol,
            metadata: self.metadata.with_partition_columns(partition_columns),
        }
    }
}

} // verus!
