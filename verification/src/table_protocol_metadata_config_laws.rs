//! What a table under construction starts with, and what can be asked of it.

use crate::schema::StructType;
use crate::table_features::{feature_named, FeatureView, TableFeature};
use crate::table_properties::Entries;
use crate::table_protocol_metadata_config::{
    bare_protocol, feature_allowed, initial_config, property_allowed,
};
use vstd::prelude::*;

verus! {

/// A property can be set exactly if its name does not begin with `delta.`, or begins with
/// `delta.feature.`, or is one of the two version requests.
pub proof fn law_allowed_properties(key: Seq<char>)
    ensures
        property_allowed(key) <==> !"delta."@.is_prefix_of(key) || "delta.feature."@.is_prefix_of(
            key,
        ) || key == "delta.minReaderVersion"@ || key == "delta.minWriterVersion"@,
{
}

/// Every request for a feature is allowed as a property, whatever feature it names.
pub proof fn law_feature_requests_are_properties(name: Seq<char>)
    ensures
        property_allowed("delta.feature."@ + name),
{
    assert(("delta.feature."@ + name).take("delta.feature."@.len() as int) =~= "delta.feature."@);
}

/// Domain metadata can be asked for, and no other feature can.
pub proof fn law_allowed_features(feature: FeatureView, name: Seq<char>)
    ensures
        feature_allowed(feature) <==> feature.known && feature.name == "domainMetadata"@,
        feature_allowed(feature_named(name)) <==> name == "domainMetadata"@,
        feature_allowed(TableFeature::DomainMetadata@),
{
}

/// A table starts at reader version 3 and writer version 7 with two empty feature lists, without
/// name and description, and with the schema, partition columns, time and properties that it was
/// given: all of the properties, as they came.
pub proof fn law_tables_start_bare(
    schema: StructType,
    partition_columns: Seq<Seq<char>>,
    properties: Entries,
    created_time: i64,
)
    ensures
        ({
            let start = initial_config(schema, partition_columns, properties, created_time);
            &&& start.protocol == bare_protocol()
            &&& start.protocol.min_reader_version == 3
            &&& start.protocol.min_writer_version == 7
            &&& start.protocol.reader_features == Some(Seq::<FeatureView>::empty())
            &&& start.protocol.writer_features == Some(Seq::<FeatureView>::empty())
            &&& start.metadata.name is None
            &&& start.metadata.description is None
            &&& start.metadata.schema == schema
            &&& start.metadata.partition_columns == partition_columns
            &&& start.metadata.created_time == created_time
            &&& start.metadata.configuration == properties
        }),
{
}

} // verus!
