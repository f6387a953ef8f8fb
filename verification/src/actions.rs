//! The actions of a new table's first commit: protocol, metadata and domain metadata.

use crate::error::{DeltaError, DeltaResult, ErrorView};
use crate::schema::{texts, SchemaRef, StructType};
use crate::seqs::lemma_push_contains;
use crate::table_features::{
    FeatureView, TableFeature, TABLE_FEATURES_MIN_READER_VERSION, TABLE_FEATURES_MIN_WRITER_VERSION,
};
use crate::table_properties::{Entries, PropertyMap};
use vstd::prelude::*;

verus! {

/// The features of a vector.
pub open spec fn feature_views(features: Seq<TableFeature>) -> Seq<FeatureView> {
    features.map_values(|f: TableFeature| f@)
}

/// A list of features, if there is one.
pub open spec fn feature_list_view(features: Option<Vec<TableFeature>>) -> Option<
    Seq<FeatureView>,
> {
    match features {
        Some(list) => Some(feature_views(list@)),
        None => None,
    }
}

/// What a client must support to read or write the table.
///
/// A protocol lists its features exactly where its versions are the ones that call for lists, and
/// lists every reader feature as a writer feature too.
#[derive(Debug)]
pub struct Protocol {
    min_reader_version: i32,
    min_writer_version: i32,
    reader_features: Option<Vec<TableFeature>>,
    writer_features: Option<Vec<TableFeature>>,
}

/// The mathematical value of a [`Protocol`].
pub struct ProtocolView {
    pub min_reader_version: i32,
    pub min_writer_version: i32,
    pub reader_features: Option<Seq<FeatureView>>,
    pub writer_features: Option<Seq<FeatureView>>,
}

/// Whether there is a list and it names the feature.
pub open spec fn is_listed(features: Option<Seq<FeatureView>>, feature: FeatureView) -> bool {
    features is Some && features->0.contains(feature)
}

impl ProtocolView {
    /// Whether the protocol has a reader list exactly at the reader version that calls for one.
    pub open spec fn reader_list_fits(self) -> bool {
        self.reader_features is Some <==> self.min_reader_version
            == TABLE_FEATURES_MIN_READER_VERSION
    }

    /// Whether the protocol has a writer list exactly at the writer version that calls for one.
    pub open spec fn writer_list_fits(self) -> bool {
        self.writer_features is Some <==> self.min_writer_version
            == TABLE_FEATURES_MIN_WRITER_VERSION
    }

    /// Whether writers must support every feature that readers must support.
    pub open spec fn readers_within_writers(self) -> bool {
        forall|f: FeatureView| #[trigger]
            is_listed(self.reader_features, f) ==> is_listed(self.writer_features, f)
    }

    /// Whether the writer list names the feature.
    pub open spec fn written(self, feature: FeatureView) -> bool {
        is_listed(self.writer_features, feature)
    }

    /// The error of a protocol whose lists and versions do not fit together.
    pub open spec fn flaw(self) -> Option<ErrorView> {
        if !self.reader_list_fits() {
            Some(
                ErrorView::InvalidProtocol(
                    "Reader features must be present exactly when the minimum reader version is 3"@,
                ),
            )
        } else if !self.writer_list_fits() {
            Some(
                ErrorView::InvalidProtocol(
                    "Writer features must be present exactly when the minimum writer version is 7"@,
                ),
            )
        } else if !self.readers_within_writers() {
            Some(
                ErrorView::InvalidProtocol(
                    "Every reader feature must be listed as a writer feature"@,
                ),
            )
        } else {
            None
        }
    }

    /// Whether a list of the protocol names the feature.
    pub open spec fn has(self, feature: FeatureView) -> bool {
        is_listed(self.reader_features, feature) || is_listed(self.writer_features, feature)
    }

    /// The protocol with a feature listed: unchanged if it is there, else with the feature at the
    /// end of the writer list, and of the reader list too if it concerns readers.
    pub open spec fn plus(self, feature: FeatureView) -> ProtocolView {
        if self.has(feature) {
            self
        } else {
            ProtocolView {
                reader_features: if feature.reader_writer() {
                    Some(self.reader_features->0.push(feature))
                } else {
                    self.reader_features
                },
                writer_features: Some(self.writer_features->0.push(feature)),
                ..self
            }
        }
    }

    /// Whether the protocol has the lists that the feature must be put on.
    pub open spec fn can_list(self, feature: FeatureView) -> bool {
        ||| self.has(feature)
        ||| self.writer_features is Some && (feature.reader_writer() ==> self.reader_features is Some)
    }

    /// The result of listing a feature.
    pub open spec fn with_feature(self, feature: FeatureView) -> Result<ProtocolView, ErrorView> {
        if self.can_list(feature) {
            Ok(self.plus(feature))
        } else {
            Err(ErrorView::InvalidProtocol("The protocol version does not support table features"@))
        }
    }

    /// The result of changing the versions.
    pub open spec fn with_versions(self, reader: i32, writer: i32) -> Result<
        ProtocolView,
        ErrorView,
    > {
        let changed = ProtocolView { min_reader_version: reader, min_writer_version: writer, ..self };
        match changed.flaw() {
            Some(e) => Err(e),
            None => Ok(changed),
        }
    }
}

impl View for Protocol {
    type V = ProtocolView;

    closed spec fn view(&self) -> ProtocolView {
        ProtocolView {
            min_reader_version: self.min_reader_version,
            min_writer_version: self.min_writer_version,
            reader_features: feature_list_view(self.reader_features),
            writer_features: feature_list_view(self.writer_features),
        }
    }
}

/// Whether a result agrees with its mathematical value.
pub open spec fn protocol_result(
    r: DeltaResult<Protocol>,
    expected: Result<ProtocolView, ErrorView>,
) -> bool {
    match (r, expected) {
        (Ok(p), Ok(v)) => p@ == v,
        (Err(e), Err(v)) => e@ == v,
        _ => false,
    }
}

fn list_contains(list: &Vec<TableFeature>, feature: &TableFeature) -> (r: bool)
    ensures
        r == feature_views(list@).contains(feature@),
{
    let mut i: usize = 0;
    while i < list.len()
        invariant
            i <= list@.len(),
            forall|j: int| 0 <= j < i ==> feature_views(list@)[j] != feature@,
        decreases list@.len() - i,
    {
        if list[i].same(feature) {
            assert(feature_views(list@)[i as int] == feature@);
            return true;
        }
        i = i + 1;
    }
    false
}

/// Whether each reader feature is a writer feature.
fn within(
    reader_features: &Option<Vec<TableFeature>>,
    writer_features: &Option<Vec<TableFeature>>,
) -> (r: bool)
    ensures
        r == forall|f: FeatureView| #[trigger]
            is_listed(feature_list_view(*reader_features), f) ==> is_listed(
                feature_list_view(*writer_features),
                f,
            ),
{
    let ghost writers = feature_list_view(*writer_features);
    let readers = match reader_features {
        Some(list) => list,
        None => return true,
    };
    let ghost views = feature_views(readers@);
    let mut i: usize = 0;
    while i < readers.len()
        invariant
            i <= readers@.len(),
            views == feature_views(readers@),
            writers == feature_list_view(*writer_features),
            feature_list_view(*reader_features) == Some(views),
            forall|j: int| 0 <= j < i ==> is_listed(writers, #[trigger] views[j]),
        decreases readers@.len() - i,
    {
        let listed = match writer_features {
            Some(list) => list_contains(list, &readers[i]),
            None => false,
        };
        assert(listed == is_listed(writers, views[i as int]));
        if !listed {
            assert(is_listed(feature_list_view(*reader_features), views[i as int]));
            return false;
        }
        i = i + 1;
    }
    true
}

/// A feature list with one more feature, if there is a list.
fn with_item(features: Option<Vec<TableFeature>>, feature: TableFeature) -> (r: Option<
    Vec<TableFeature>,
>)
    ensures
        feature_list_view(r) == match feature_list_view(features) {
            Some(list) => Some(list.push(feature@)),
            None => None,
        },
{
    match features {
        Some(list) => {
            let mut more = list;
            more.push(feature);
            assert(feature_views(more@) =~= feature_views(list@).push(feature@));
            Some(more)
        },
        None => None,
    }
}

impl Protocol {
    #[verifier::type_invariant]
    spec fn wf(&self) -> bool {
        self@.flaw() is None
    }

    /// A protocol with the given versions and feature lists.
    pub fn try_new(
        min_reader_version: i32,
        min_writer_version: i32,
        reader_features: Option<Vec<TableFeature>>,
        writer_features: Option<Vec<TableFeature>>,
    ) -> (r: DeltaResult<Protocol>)
        ensures
            ({
                let v = ProtocolView {
                    min_reader_version,
                    min_writer_version,
                    reader_features: feature_list_view(reader_features),
                    writer_features: feature_list_view(writer_features),
                };
                protocol_result(
                    r,
                    match v.flaw() {
                        Some(e) => Err(e),
                        None => Ok(v),
                    },
                )
            }),
    {
        if reader_features.is_some() != (min_reader_version == TABLE_FEATURES_MIN_READER_VERSION) {
            return Err(
                DeltaError::InvalidProtocol(
                    "Reader features must be present exactly when the minimum reader version is 3".to_owned(),
                ),
            );
        }
        if writer_features.is_some() != (min_writer_version == TABLE_FEATURES_MIN_WRITER_VERSION) {
            return Err(
                DeltaError::InvalidProtocol(
                    "Writer features must be present exactly when the minimum writer version is 7".to_owned(),
                ),
            );
        }
        if !within(&reader_features, &writer_features) {
            return Err(
                DeltaError::InvalidProtocol(
                    "Every reader feature must be listed as a writer feature".to_owned(),
                ),
            );
        }
        Ok(Protocol { min_reader_version, min_writer_version, reader_features, writer_features })
    }

    /// The lowest version of a client that can read the table.
    pub fn min_reader_version(&self) -> (r: i32)
        ensures
            r == self@.min_reader_version,
            self@.flaw() is None,
    {
        proof {
            use_type_invariant(self);
        }
        self.min_reader_version
    }

    /// The lowest version of a client that can write the table.
    pub fn min_writer_version(&self) -> (r: i32)
        ensures
            r == self@.min_writer_version,
            self@.flaw() is None,
    {
        proof {
            use_type_invariant(self);
        }
        self.min_writer_version
    }

    /// The features that readers must support.
    pub fn reader_features(&self) -> (r: Option<&Vec<TableFeature>>)
        ensures
            match r {
                Some(list) => self@.reader_features == Some(feature_views(list@)),
                None => self@.reader_features is None,
            },
    {
        self.reader_features.as_ref()
    }

    /// The features that writers must support.
    pub fn writer_features(&self) -> (r: Option<&Vec<TableFeature>>)
        ensures
            match r {
                Some(list) => self@.writer_features == Some(feature_views(list@)),
                None => self@.writer_features is None,
            },
    {
        self.writer_features.as_ref()
    }

    /// Whether the protocol lists a feature.
    pub fn has_table_feature(&self, feature: &TableFeature) -> (r: bool)
        ensures
            r == self@.has(feature@),
    {
        let in_readers = match &self.reader_features {
            Some(list) => list_contains(list, feature),
            None => false,
        };
        let in_writers = match &self.writer_features {
            Some(list) => list_contains(list, feature),
            None => false,
        };
        in_readers || in_writers
    }

    /// Lists a feature, for writers in any case; a feature that is listed already changes nothing.
    pub fn with_feature(self, feature: TableFeature) -> (r: DeltaResult<Protocol>)
        ensures
            protocol_result(r, self@.with_feature(feature@)),
            !feature@.reader_writer() ==> (r is Ok <==> self@.writer_features is Some),
            r is Ok ==> r->Ok_0@.written(feature@),
            self@.flaw() is None,
    {
        proof {
            use_type_invariant(&self);
            if self@.can_list(feature@) {
                law_listing_a_feature(self@, feature@, feature@);
            }
        }
        if self.has_table_feature(&feature) {
            return Ok(self);
        }
        let for_readers: bool = feature.is_reader_writer();
        if self.writer_features.is_none() || (for_readers && self.reader_features.is_none()) {
            return Err(
                DeltaError::InvalidProtocol(
                    "The protocol version does not support table features".to_owned(),
                ),
            );
        }
        let Protocol { min_reader_version, min_writer_version, reader_features, writer_features } =
            self;
        let copy = feature.clone();
        let readers = if for_readers {
            with_item(reader_features, copy)
        } else {
            reader_features
        };
        let writers = with_item(writer_features, feature);
        Ok(
            Protocol {
                min_reader_version,
                min_writer_version,
                reader_features: readers,
                writer_features: writers,
            },
        )
    }

    /// Changes the versions.
    pub fn with_versions(self, min_reader_version: i32, min_writer_version: i32) -> (r: DeltaResult<
        Protocol,
    >)
        ensures
            protocol_result(r, self@.with_versions(min_reader_version, min_writer_version)),
    {
        Protocol::try_new(
            min_reader_version,
            min_writer_version,
            self.reader_features,
            self.writer_features,
        )
    }
}

/// Listing a feature lists it, keeps every feature that was listed and adds no other. It keeps the
/// versions, and lists and versions go on fitting together. The feature is then a writer feature
/// in any case. To list it once more changes nothing.
pub proof fn law_listing_a_feature(protocol: ProtocolView, feature: FeatureView, other: FeatureView)
    requires
        protocol.can_list(feature),
    ensures
        protocol.plus(feature).has(feature),
        other != feature ==> (protocol.plus(feature).has(other) <==> protocol.has(other)),
        protocol.plus(feature).min_reader_version == protocol.min_reader_version,
        protocol.plus(feature).min_writer_version == protocol.min_writer_version,
        protocol.flaw() is None ==> protocol.plus(feature).flaw() is None,
        protocol.flaw() is None ==> protocol.plus(feature).written(feature),
        protocol.plus(feature).plus(feature) == protocol.plus(feature),
        protocol.plus(feature).can_list(feature),
{
    if !protocol.has(feature) {
        let writers = protocol.writer_features->0;
        lemma_push_contains(writers, feature, feature);
        lemma_push_contains(writers, feature, other);
        if feature.reader_writer() {
            lemma_push_contains(protocol.reader_features->0, feature, other);
        }
        if protocol.flaw() is None {
            let more = protocol.plus(feature);
            assert forall|f: FeatureView| #[trigger]
                is_listed(more.reader_features, f) implies is_listed(more.writer_features, f) by {
                lemma_push_contains(writers, feature, f);
                if feature.reader_writer() {
                    lemma_push_contains(protocol.reader_features->0, feature, f);
                }
                assert(is_listed(protocol.reader_features, f) ==> is_listed(
                    protocol.writer_features,
                    f,
                ));
            }
        }
    }
}

/// Setting the versions that a protocol has changes nothing.
pub proof fn law_versions_of_a_protocol(protocol: ProtocolView)
    requires
        protocol.flaw() is None,
    ensures
        protocol.with_versions(protocol.min_reader_version, protocol.min_writer_version) == Ok::<
            ProtocolView,
            ErrorView,
        >(protocol),
{
}

/// What a table holds: its schema, partitioning and properties.
#[derive(Debug)]
pub struct Metadata {
    name: Option<String>,
    description: Option<String>,
    schema: SchemaRef,
    partition_columns: Vec<String>,
    created_time: i64,
    configuration: PropertyMap,
}

/// The mathematical value of a [`Metadata`].
pub struct MetadataView {
    pub name: Option<Seq<char>>,
    pub description: Option<Seq<char>>,
    pub schema: StructType,
    pub partition_columns: Seq<Seq<char>>,
    pub created_time: i64,
    pub configuration: Entries,
}

/// The text of an optional string.
pub open spec fn optional_text(s: Option<String>) -> Option<Seq<char>> {
    match s {
        Some(t) => Some(t@),
        None => None,
    }
}

impl View for Metadata {
    type V = MetadataView;

    closed spec fn view(&self) -> MetadataView {
        MetadataView {
            name: optional_text(self.name),
            description: optional_text(self.description),
            schema: *self.schema,
            partition_columns: texts(self.partition_columns@),
            created_time: self.created_time,
            configuration: self.configuration@,
        }
    }
}

impl Metadata {
    /// The metadata of a table.
    pub fn new(
        name: Option<String>,
        description: Option<String>,
        schema: SchemaRef,
        partition_columns: Vec<String>,
        created_time: i64,
        configuration: PropertyMap,
    ) -> (r: Metadata)
        ensures
            r@ == (MetadataView {
                name: optional_text(name),
                description: optional_text(description),
                schema: *schema,
                partition_columns: texts(partition_columns@),
                created_time,
                configuration: configuration@,
            }),
    {
        Metadata { name, description, schema, partition_columns, created_time, configuration }
    }

    /// The table's schema.
    pub fn schema(&self) -> (r: &StructType)
        ensures
            *r == self@.schema,
    {
        &self.schema
    }

    /// The names of the partition columns.
    pub fn partition_columns(&self) -> (r: &Vec<String>)
        ensures
            texts(r@) == self@.partition_columns,
    {
        &self.partition_columns
    }

    /// When the table was created, in milliseconds since the Unix epoch.
    pub fn created_time(&self) -> (r: i64)
        ensures
            r == self@.created_time,
    {
        self.created_time
    }

    /// The table's properties.
    pub fn configuration(&self) -> (r: &PropertyMap)
        ensures
            r@ == self@.configuration,
    {
        &self.configuration
    }

    /// The same metadata with other properties.
    pub fn with_configuration(self, configuration: PropertyMap) -> (r: Metadata)
        ensures
            r@ == (MetadataView { configuration: configuration@, ..self@ }),
    {
        let mut metadata = self;
        metadata.configuration = configuration;
        metadata
    }

    /// The same metadata with other partition columns.
    pub fn with_partition_columns(self, partition_columns: Vec<String>) -> (r: Metadata)
        ensures
            r@ == (MetadataView { partition_columns: texts(partition_columns@), ..self@ }),
    {
        let mut metadata = self;
        metadata.partition_columns = partition_columns;
        metadata
    }
}

/// A configuration text that a table stores under a domain name.
#[derive(Debug)]
pub struct DomainMetadata {
    domain: String,
    configuration: String,
}

/// The mathematical value of a [`DomainMetadata`].
pub struct DomainMetadataView {
    pub domain: Seq<char>,
    pub configuration: Seq<char>,
}

/// The values of a vector of domain metadata.
pub open spec fn domain_views(list: Seq<DomainMetadata>) -> Seq<DomainMetadataView> {
    list.map_values(|d: DomainMetadata| d@)
}

impl View for DomainMetadata {
    type V = DomainMetadataView;

    closed spec fn view(&self) -> DomainMetadataView {
        DomainMetadataView { domain: self.domain@, configuration: self.configuration@ }
    }
}

impl DomainMetadata {
    /// A configuration under a domain name.
    pub fn new(domain: String, configuration: String) -> (r: DomainMetadata)
        ensures
            r@ == (DomainMetadataView { domain: domain@, configuration: configuration@ }),
    {
        DomainMetadata { domain, configuration }
    }

    /// The domain name.
    pub fn domain(&self) -> (r: &str)
        ensures
            r@ == self@.domain,
    {
        self.domain.as_str()
    }

    /// The configuration text.
    pub fn configuration(&self) -> (r: &str)
        ensures
            r@ == self@.configuration,
    {
        self.configuration.as_str()
    }
}

} // verus!
