//! Table features and the names under which tables list them.

use crate::text::same_text;
use vstd::prelude::*;

verus! {

/// The prefix of a property that asks for a table feature.
pub const SET_TABLE_FEATURE_SUPPORTED_PREFIX: &'static str = "delta.feature.";

/// The one value that such a property may have.
pub const SET_TABLE_FEATURE_SUPPORTED_VALUE: &'static str = "supported";

/// The reader version from which a protocol lists its features.
pub const TABLE_FEATURES_MIN_READER_VERSION: i32 = 3;

/// The writer version from which a protocol lists its features.
pub const TABLE_FEATURES_MIN_WRITER_VERSION: i32 = 7;

/// A capability that a table can ask of its readers and writers.
#[derive(Debug)]
pub enum TableFeature {
    // Features that only writers have to support.
    AppendOnly,
    Invariants,
    CheckConstraints,
    ChangeDataFeed,
    GeneratedColumns,
    IdentityColumns,
    InCommitTimestamp,
    RowTracking,
    DomainMetadata,
    IcebergCompatV1,
    IcebergCompatV2,
    ClusteredTable,
    // Features that readers and writers have to support.
    CatalogManaged,
    CatalogOwnedPreview,
    ColumnMapping,
    DeletionVectors,
    TimestampWithoutTimezone,
    TypeWidening,
    TypeWideningPreview,
    V2Checkpoint,
    VacuumProtocolCheck,
    VariantType,
    VariantTypePreview,
    VariantShreddingPreview,
    /// A feature under a name that is not one of the above.
    Unknown(String),
}

/// The mathematical value of a [`TableFeature`].
pub struct FeatureView {
    /// Whether the feature is one of those that the library knows by name.
    pub known: bool,
    /// The name under which tables list it.
    pub name: Seq<char>,
}

/// The names of the features that only writers have to support.
pub open spec fn is_writer_feature_name(name: Seq<char>) -> bool {
    ||| name == "appendOnly"@
    ||| name == "invariants"@
    ||| name == "checkConstraints"@
    ||| name == "changeDataFeed"@
    ||| name == "generatedColumns"@
    ||| name == "identityColumns"@
    ||| name == "inCommitTimestamp"@
    ||| name == "rowTracking"@
    ||| name == "domainMetadata"@
    ||| name == "icebergCompatV1"@
    ||| name == "icebergCompatV2"@
    ||| name == "clustering"@
}

/// The names of the features that readers and writers have to support.
pub open spec fn is_reader_writer_feature_name(name: Seq<char>) -> bool {
    ||| name == "catalogManaged"@
    ||| name == "catalogOwned-preview"@
    ||| name == "columnMapping"@
    ||| name == "deletionVectors"@
    ||| name == "timestampNtz"@
    ||| name == "typeWidening"@
    ||| name == "typeWidening-preview"@
    ||| name == "v2Checkpoint"@
    ||| name == "vacuumProtocolCheck"@
    ||| name == "variantType"@
    ||| name == "variantType-preview"@
    ||| name == "variantShredding-preview"@
}

/// The names of the features that the library knows.
pub open spec fn is_known_feature_name(name: Seq<char>) -> bool {
    is_writer_feature_name(name) || is_reader_writer_feature_name(name)
}

/// No name stands both for a writer feature and for a feature of readers and writers.
proof fn lemma_feature_names_disjoint(name: Seq<char>)
    ensures
        !(is_writer_feature_name(name) && is_reader_writer_feature_name(name)),
{
    reveal_strlit("appendOnly");
    reveal_strlit("invariants");
    reveal_strlit("checkConstraints");
    reveal_strlit("changeDataFeed");
    reveal_strlit("generatedColumns");
    reveal_strlit("identityColumns");
    reveal_strlit("inCommitTimestamp");
    reveal_strlit("rowTracking");
    reveal_strlit("domainMetadata");
    reveal_strlit("icebergCompatV1");
    reveal_strlit("icebergCompatV2");
    reveal_strlit("clustering");
    reveal_strlit("catalogManaged");
    reveal_strlit("catalogOwned-preview");
    reveal_strlit("columnMapping");
    reveal_strlit("deletionVectors");
    reveal_strlit("timestampNtz");
    reveal_strlit("typeWidening");
    reveal_strlit("typeWidening-preview");
    reveal_strlit("v2Checkpoint");
    reveal_strlit("vacuumProtocolCheck");
    reveal_strlit("variantType");
    reveal_strlit("variantType-preview");
    reveal_strlit("variantShredding-preview");
    // Most of the names differ in length; the rest differ in one of the first two characters.
    assert("appendOnly"@.len() == 10);
    assert("invariants"@.len() == 10);
    assert("checkConstraints"@.len() == 16);
    assert("changeDataFeed"@.len() == 14);
    assert("generatedColumns"@.len() == 16);
    assert("identityColumns"@.len() == 15);
    assert("inCommitTimestamp"@.len() == 17);
    assert("rowTracking"@.len() == 11);
    assert("domainMetadata"@.len() == 14);
    assert("icebergCompatV1"@.len() == 15);
    assert("icebergCompatV2"@.len() == 15);
    assert("clustering"@.len() == 10);
    assert("catalogManaged"@.len() == 14);
    assert("catalogOwned-preview"@.len() == 20);
    assert("columnMapping"@.len() == 13);
    assert("deletionVectors"@.len() == 15);
    assert("timestampNtz"@.len() == 12);
    assert("typeWidening"@.len() == 12);
    assert("typeWidening-preview"@.len() == 20);
    assert("v2Checkpoint"@.len() == 12);
    assert("vacuumProtocolCheck"@.len() == 19);
    assert("variantType"@.len() == 11);
    assert("variantType-preview"@.len() == 19);
    assert("variantShredding-preview"@.len() == 24);
    assert("catalogManaged"@[1] != "changeDataFeed"@[1]);
    assert("catalogManaged"@[0] != "domainMetadata"@[0]);
    assert("deletionVectors"@[0] != "identityColumns"@[0]);
    assert("deletionVectors"@[0] != "icebergCompatV1"@[0]);
    assert("deletionVectors"@[0] != "icebergCompatV2"@[0]);
    assert("variantType"@[0] != "rowTracking"@[0]);
}

/// The features of domain metadata and of clustering concern writers only.
pub proof fn lemma_clustering_features_are_for_writers()
    ensures
        !TableFeature::DomainMetadata@.reader_writer(),
        !TableFeature::ClusteredTable@.reader_writer(),
{
    lemma_feature_names_disjoint("domainMetadata"@);
    lemma_feature_names_disjoint("clustering"@);
}

impl FeatureView {
    /// Whether readers have to support the feature too.
    pub open spec fn reader_writer(self) -> bool {
        self.known && is_reader_writer_feature_name(self.name)
    }
}

impl View for TableFeature {
    type V = FeatureView;

    open spec fn view(&self) -> FeatureView {
        match self {
            TableFeature::AppendOnly => FeatureView { known: true, name: "appendOnly"@ },
            TableFeature::Invariants => FeatureView { known: true, name: "invariants"@ },
            TableFeature::CheckConstraints => FeatureView { known: true, name: "checkConstraints"@ },
            TableFeature::ChangeDataFeed => FeatureView { known: true, name: "changeDataFeed"@ },
            TableFeature::GeneratedColumns => FeatureView { known: true, name: "generatedColumns"@ },
            TableFeature::IdentityColumns => FeatureView { known: true, name: "identityColumns"@ },
            TableFeature::InCommitTimestamp => FeatureView { known: true, name: "inCommitTimestamp"@ },
            TableFeature::RowTracking => FeatureView { known: true, name: "rowTracking"@ },
            TableFeature::DomainMetadata => FeatureView { known: true, name: "domainMetadata"@ },
            TableFeature::IcebergCompatV1 => FeatureView { known: true, name: "icebergCompatV1"@ },
            TableFeature::IcebergCompatV2 => FeatureView { known: true, name: "icebergCompatV2"@ },
            TableFeature::ClusteredTable => FeatureView { known: true, name: "clustering"@ },
            TableFeature::CatalogManaged => FeatureView { known: true, name: "catalogManaged"@ },
            TableFeature::CatalogOwnedPreview => FeatureView { known: true, name: "catalogOwned-preview"@ },
            TableFeature::ColumnMapping => FeatureView { known: true, name: "columnMapping"@ },
            TableFeature::DeletionVectors => FeatureView { known: true, name: "deletionVectors"@ },
            TableFeature::TimestampWithoutTimezone => FeatureView { known: true, name: "timestampNtz"@ },
            TableFeature::TypeWidening => FeatureView { known: true, name: "typeWidening"@ },
            TableFeature::TypeWideningPreview => FeatureView { known: true, name: "typeWidening-preview"@ },
            TableFeature::V2Checkpoint => FeatureView { known: true, name: "v2Checkpoint"@ },
            TableFeature::VacuumProtocolCheck => FeatureView { known: true, name: "vacuumProtocolCheck"@ },
            TableFeature::VariantType => FeatureView { known: true, name: "variantType"@ },
            TableFeature::VariantTypePreview => FeatureView { known: true, name: "variantType-preview"@ },
            TableFeature::VariantShreddingPreview => FeatureView { known: true, name: "variantShredding-preview"@ },
            TableFeature::Unknown(name) => FeatureView { known: false, name: name@ },
        }
    }
}

/// The feature that a name stands for.
pub open spec fn feature_named(name: Seq<char>) -> FeatureView {
    FeatureView { known: is_known_feature_name(name), name }
}

impl TableFeature {
    /// The feature with the given name; `Unknown` if no known feature has it.
    pub fn from_name(name: &str) -> (r: TableFeature)
        ensures
            r@ == feature_named(name@),
            r is Unknown <==> !is_known_feature_name(name@),
    {
        if same_text(name, "appendOnly") {
            TableFeature::AppendOnly
        } else if same_text(name, "invariants") {
            TableFeature::Invariants
        } else if same_text(name, "checkConstraints") {
            TableFeature::CheckConstraints
        } else if same_text(name, "changeDataFeed") {
            TableFeature::ChangeDataFeed
        } else if same_text(name, "generatedColumns") {
            TableFeature::GeneratedColumns
        } else if same_text(name, "identityColumns") {
            TableFeature::IdentityColumns
        } else if same_text(name, "inCommitTimestamp") {
            TableFeature::InCommitTimestamp
        } else if same_text(name, "rowTracking") {
            TableFeature::RowTracking
        } else if same_text(name, "domainMetadata") {
            TableFeature::DomainMetadata
        } else if same_text(name, "icebergCompatV1") {
            TableFeature::IcebergCompatV1
        } else if same_text(name, "icebergCompatV2") {
            TableFeature::IcebergCompatV2
        } else if same_text(name, "clustering") {
            TableFeature::ClusteredTable
        } else if same_text(name, "catalogManaged") {
            TableFeature::CatalogManaged
        } else if same_text(name, "catalogOwned-preview") {
            TableFeature::CatalogOwnedPreview
        } else if same_text(name, "columnMapping") {
            TableFeature::ColumnMapping
        } else if same_text(name, "deletionVectors") {
            TableFeature::DeletionVectors
        } else if same_text(name, "timestampNtz") {
            TableFeature::TimestampWithoutTimezone
        } else if same_text(name, "typeWidening") {
            TableFeature::TypeWidening
        } else if same_text(name, "typeWidening-preview") {
            TableFeature::TypeWideningPreview
        } else if same_text(name, "v2Checkpoint") {
            TableFeature::V2Checkpoint
        } else if same_text(name, "vacuumProtocolCheck") {
            TableFeature::VacuumProtocolCheck
        } else if same_text(name, "variantType") {
            TableFeature::VariantType
        } else if same_text(name, "variantType-preview") {
            TableFeature::VariantTypePreview
        } else if same_text(name, "variantShredding-preview") {
            TableFeature::VariantShreddingPreview
        } else {
            TableFeature::Unknown(name.to_owned())
        }
    }

    /// The name of the feature.
    pub fn as_ref(&self) -> (r: &str)
        ensures
            r@ == self@.name,
    {
        match self {
            TableFeature::AppendOnly => "appendOnly",
            TableFeature::Invariants => "invariants",
            TableFeature::CheckConstraints => "checkConstraints",
            TableFeature::ChangeDataFeed => "changeDataFeed",
            TableFeature::GeneratedColumns => "generatedColumns",
            TableFeature::IdentityColumns => "identityColumns",
            TableFeature::InCommitTimestamp => "inCommitTimestamp",
            TableFeature::RowTracking => "rowTracking",
            TableFeature::DomainMetadata => "domainMetadata",
            TableFeature::IcebergCompatV1 => "icebergCompatV1",
            TableFeature::IcebergCompatV2 => "icebergCompatV2",
            TableFeature::ClusteredTable => "clustering",
            TableFeature::CatalogManaged => "catalogManaged",
            TableFeature::CatalogOwnedPreview => "catalogOwned-preview",
            TableFeature::ColumnMapping => "columnMapping",
            TableFeature::DeletionVectors => "deletionVectors",
            TableFeature::TimestampWithoutTimezone => "timestampNtz",
            TableFeature::TypeWidening => "typeWidening",
            TableFeature::TypeWideningPreview => "typeWidening-preview",
            TableFeature::V2Checkpoint => "v2Checkpoint",
            TableFeature::VacuumProtocolCheck => "vacuumProtocolCheck",
            TableFeature::VariantType => "variantType",
            TableFeature::VariantTypePreview => "variantType-preview",
            TableFeature::VariantShreddingPreview => "variantShredding-preview",
            TableFeature::Unknown(name) => name.as_str(),
        }
    }

    /// Whether the name is one that the library knows.
    pub fn is_known(&self) -> (r: bool)
        ensures
            r == self@.known,
            r == !(self is Unknown),
    {
        match self {
            TableFeature::Unknown(_) => false,
            _ => true,
        }
    }

    /// Whether readers have to support the feature too.
    pub fn is_reader_writer(&self) -> (r: bool)
        ensures
            r == self@.reader_writer(),
    {
        proof {
            lemma_feature_names_disjoint(self@.name);
        }
        match self {
            TableFeature::CatalogManaged
            | TableFeature::CatalogOwnedPreview
            | TableFeature::ColumnMapping
            | TableFeature::DeletionVectors
            | TableFeature::TimestampWithoutTimezone
            | TableFeature::TypeWidening
            | TableFeature::TypeWideningPreview
            | TableFeature::V2Checkpoint
            | TableFeature::VacuumProtocolCheck
            | TableFeature::VariantType
            | TableFeature::VariantTypePreview
            | TableFeature::VariantShreddingPreview => true,
            _ => false,
        }
    }

    /// Whether two features are the same.
    pub fn same(&self, other: &TableFeature) -> (r: bool)
        ensures
            r == (self@ == other@),
    {
        self.is_known() == other.is_known() && same_text(self.as_ref(), other.as_ref())
    }
}

impl Clone for TableFeature {
    fn clone(&self) -> (r: TableFeature)
        ensures
            r@ == self@,
    {
        match self {
            TableFeature::AppendOnly => TableFeature::AppendOnly,
            TableFeature::Invariants => TableFeature::Invariants,
            TableFeature::CheckConstraints => TableFeature::CheckConstraints,
            TableFeature::ChangeDataFeed => TableFeature::ChangeDataFeed,
            TableFeature::GeneratedColumns => TableFeature::GeneratedColumns,
            TableFeature::IdentityColumns => TableFeature::IdentityColumns,
            TableFeature::InCommitTimestamp => TableFeature::InCommitTimestamp,
            TableFeature::RowTracking => TableFeature::RowTracking,
            TableFeature::DomainMetadata => TableFeature::DomainMetadata,
            TableFeature::IcebergCompatV1 => TableFeature::IcebergCompatV1,
            TableFeature::IcebergCompatV2 => TableFeature::IcebergCompatV2,
            TableFeature::ClusteredTable => TableFeature::ClusteredTable,
            TableFeature::CatalogManaged => TableFeature::CatalogManaged,
            TableFeature::CatalogOwnedPreview => TableFeature::CatalogOwnedPreview,
            TableFeature::ColumnMapping => TableFeature::ColumnMapping,
            TableFeature::DeletionVectors => TableFeature::DeletionVectors,
            TableFeature::TimestampWithoutTimezone => TableFeature::TimestampWithoutTimezone,
            TableFeature::TypeWidening => TableFeature::TypeWidening,
            TableFeature::TypeWideningPreview => TableFeature::TypeWideningPreview,
            TableFeature::V2Checkpoint => TableFeature::V2Checkpoint,
            TableFeature::VacuumProtocolCheck => TableFeature::VacuumProtocolCheck,
            TableFeature::VariantType => TableFeature::VariantType,
            TableFeature::VariantTypePreview => TableFeature::VariantTypePreview,
            TableFeature::VariantShreddingPreview => TableFeature::VariantShreddingPreview,
            TableFeature::Unknown(name) => TableFeature::Unknown(name.clone()),
        }
    }
}

/// The name of a feature that the library knows stands for this feature.
pub proof fn law_names_stand_for_features(feature: TableFeature)
    requires
        !(feature is Unknown),
    ensures
        feature_named(feature@.name) == feature@,
{
}

/// A name is known exactly if some feature that the library knows has it, and what a name stands
/// for keeps the name. Only known features concern readers.
pub proof fn law_what_names_stand_for(name: Seq<char>)
    ensures
        feature_named(name).name == name,
        feature_named(name).known <==> is_known_feature_name(name),
        is_known_feature_name(name) <==> exists|f: TableFeature|
            !(f is Unknown) && #[trigger] f@.name == name,
        !is_known_feature_name(name) ==> !feature_named(name).reader_writer(),
{
    if is_known_feature_name(name) {
        assert(TableFeature::AppendOnly@.name == "appendOnly"@);
        assert(TableFeature::Invariants@.name == "invariants"@);
        assert(TableFeature::CheckConstraints@.name == "checkConstraints"@);
        assert(TableFeature::ChangeDataFeed@.name == "changeDataFeed"@);
        assert(TableFeature::GeneratedColumns@.name == "generatedColumns"@);
        assert(TableFeature::IdentityColumns@.name == "identityColumns"@);
        assert(TableFeature::InCommitTimestamp@.name == "inCommitTimestamp"@);
        assert(TableFeature::RowTracking@.name == "rowTracking"@);
        assert(TableFeature::DomainMetadata@.name == "domainMetadata"@);
        assert(TableFeature::IcebergCompatV1@.name == "icebergCompatV1"@);
        assert(TableFeature::IcebergCompatV2@.name == "icebergCompatV2"@);
        assert(TableFeature::ClusteredTable@.name == "clustering"@);
        assert(TableFeature::CatalogManaged@.name == "catalogManaged"@);
        assert(TableFeature::CatalogOwnedPreview@.name == "catalogOwned-preview"@);
        assert(TableFeature::ColumnMapping@.name == "columnMapping"@);
        assert(TableFeature::DeletionVectors@.name == "deletionVectors"@);
        assert(TableFeature::TimestampWithoutTimezone@.name == "timestampNtz"@);
        assert(TableFeature::TypeWidening@.name == "typeWidening"@);
        assert(TableFeature::TypeWideningPreview@.name == "typeWidening-preview"@);
        assert(TableFeature::V2Checkpoint@.name == "v2Checkpoint"@);
        assert(TableFeature::VacuumProtocolCheck@.name == "vacuumProtocolCheck"@);
        assert(TableFeature::VariantType@.name == "variantType"@);
        assert(TableFeature::VariantTypePreview@.name == "variantType-preview"@);
        assert(TableFeature::VariantShreddingPreview@.name == "variantShredding-preview"@);
    }
    if exists|f: TableFeature| !(f is Unknown) && #[trigger] f@.name == name {
        let f = choose|f: TableFeature| !(f is Unknown) && #[trigger] f@.name == name;
        law_names_stand_for_features(f);
    }
}

/// A feature under a name that the library does not know is never one that it knows, even if the
/// names are the same.
pub proof fn law_unknown_features_are_different(name: String, feature: TableFeature)
    ensures
        TableFeature::Unknown(name)@.name == name@,
        !(feature is Unknown) ==> TableFeature::Unknown(name)@ != feature@,
{
}

} // verus!
