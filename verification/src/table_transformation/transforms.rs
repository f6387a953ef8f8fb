//! The built-in transforms.

use crate::actions::{
    domain_views, DomainMetadata, DomainMetadataView, MetadataView, ProtocolView,
};
use crate::clustering::{
    clustering_json, path_texts, ClusteringDomainMetadata, CLUSTERING_DOMAIN_NAME,
};
use crate::error::{first_error, lemma_first_error_step, DeltaError, DeltaResult, ErrorView};
use crate::schema::{column_text, copy_texts, has_field, paths, texts, ColumnName, StructType};
use crate::seqs::{lemma_filter_all, lemma_filter_twice, lemma_same_filter};
use crate::table_features::{
    feature_named, is_known_feature_name, lemma_clustering_features_are_for_writers, FeatureView,
    TableFeature,
    SET_TABLE_FEATURE_SUPPORTED_PREFIX, SET_TABLE_FEATURE_SUPPORTED_VALUE,
    TABLE_FEATURES_MIN_READER_VERSION, TABLE_FEATURES_MIN_WRITER_VERSION,
};
use crate::table_properties::{
    lookup, without_key, Entries, PropertyMap, MIN_READER_VERSION_PROP, MIN_WRITER_VERSION_PROP,
};
use crate::table_protocol_metadata_config::{
    feature_allowed, property_allowed, ConfigView, TableProtocolMetadataConfig,
};
use crate::table_transformation::{
    check_agrees, output_agrees, plain_output, OutputView, ProtocolMetadataTransform,
    TransformDependency, TransformId, TransformOutput,
};
use crate::text::{decimal, decimal_text, parse_u8, same_text, strip_prefix, u8_value};
use crate::transaction::data_layout::MAX_CLUSTERING_COLUMNS;
use vstd::prelude::*;

verus! {

// ---------------------------------------------------------------------------------------------
// Property validation
// ---------------------------------------------------------------------------------------------

/// Refuses properties of Delta's own that table creation does not know, before any other
/// transform can ignore them.
#[derive(Debug)]
pub struct DeltaPropertyValidationTransform;

/// Why a property is refused.
pub open spec fn property_flaw(entry: (Seq<char>, Seq<char>)) -> Option<ErrorView> {
    if property_allowed(entry.0) {
        None
    } else {
        Some(
            ErrorView::Generic(
                "Property '"@ + entry.0
                    + "' is not supported during CREATE TABLE. Only delta.feature.* signals and delta.minReaderVersion/delta.minWriterVersion are allowed."@,
            ),
        )
    }
}

impl ProtocolMetadataTransform for DeltaPropertyValidationTransform {
    open spec fn transform_id(&self) -> TransformId {
        TransformId::DeltaPropertyValidation
    }

    open spec fn label(&self) -> Seq<char> {
        "DeltaPropertyValidation: validates delta.* properties"@
    }

    open spec fn needs(&self) -> Seq<TransformDependency> {
        Seq::empty()
    }

    open spec fn refusal(&self, config: ConfigView) -> Option<ErrorView> {
        first_error(config.metadata.configuration, |e| property_flaw(e))
    }

    open spec fn applicable(&self) -> bool {
        true
    }

    open spec fn outcome(&self, config: ConfigView) -> Result<OutputView, ErrorView> {
        Ok(plain_output(config))
    }

    fn id(&self) -> (r: TransformId) {
        TransformId::DeltaPropertyValidation
    }

    fn name(&self) -> (r: &'static str) {
        "DeltaPropertyValidation: validates delta.* properties"
    }

    fn dependencies(&self) -> (r: Vec<TransformDependency>) {
        Vec::new()
    }

    fn validate_preconditions(&self, config: &TableProtocolMetadataConfig) -> (r: DeltaResult<()>) {
        let properties = config.metadata.configuration();
        let ghost flaw = |e: (Seq<char>, Seq<char>)| property_flaw(e);
        let len: usize = properties.len();
        let mut i: usize = 0;
        assert(properties@.take(0) =~= Entries::empty());
        while i < len
            invariant
                len == properties@.len(),
                i <= len,
                flaw == (|e: (Seq<char>, Seq<char>)| property_flaw(e)),
                properties@ == config@.metadata.configuration,
                first_error(properties@.take(i as int), flaw) is None,
            decreases len - i,
        {
            proof {
                lemma_first_error_step(properties@, flaw, i as int);
            }
            let key = properties.key_at(i);
            if !TableProtocolMetadataConfig::is_delta_property_allowed(key) {
                return Err(
                    DeltaError::Generic(
                        "Property '".to_owned().concat(key).concat(
                            "' is not supported during CREATE TABLE. Only delta.feature.* signals and delta.minReaderVersion/delta.minWriterVersion are allowed.",
                        ),
                    ),
                );
            }
            i = i + 1;
        }
        assert(properties@.take(len as int) =~= properties@);
        Ok(())
    }

    fn apply(&self, config: TableProtocolMetadataConfig) -> (r: DeltaResult<TransformOutput>) {
        Ok(TransformOutput::new(config))
    }
}

// ---------------------------------------------------------------------------------------------
// Feature signals
// ---------------------------------------------------------------------------------------------

/// Carries out the properties that ask for table features.
///
/// A property `delta.feature.X=supported` puts the feature `X` on the protocol. It is a request
/// and no setting of the table, so it does not stay in the metadata.
#[derive(Debug)]
pub struct FeatureSignalTransform;

/// Whether a property asks for a feature.
pub open spec fn is_signal(key: Seq<char>) -> bool {
    SET_TABLE_FEATURE_SUPPORTED_PREFIX@.is_prefix_of(key)
}

/// The name of the feature that a signal asks for.
pub open spec fn signal_feature_name(key: Seq<char>) -> Seq<char> {
    key.skip(SET_TABLE_FEATURE_SUPPORTED_PREFIX@.len() as int)
}

/// Why a signal cannot be read: its value is not the one that signals have, or it names no
/// feature that is known.
pub open spec fn signal_flaw(entry: (Seq<char>, Seq<char>)) -> Option<ErrorView> {
    if !is_signal(entry.0) {
        None
    } else if entry.1 != SET_TABLE_FEATURE_SUPPORTED_VALUE@ {
        Some(
            ErrorView::Generic(
                "Invalid value '"@ + entry.1 + "' for '"@ + entry.0 + "'. Only '"@
                    + SET_TABLE_FEATURE_SUPPORTED_VALUE@ + "' is allowed."@,
            ),
        )
    } else if !is_known_feature_name(signal_feature_name(entry.0)) {
        Some(
            ErrorView::Generic(
                "Unknown table feature '"@ + signal_feature_name(entry.0)
                    + "'. Cannot create table with unsupported features."@,
            ),
        )
    } else {
        None
    }
}

/// The signals among the properties, each with the feature that it asks for.
pub open spec fn signals_of(entries: Entries) -> Seq<(FeatureView, Seq<char>)>
    decreases entries.len(),
{
    if entries.len() == 0 {
        Seq::empty()
    } else {
        let front = signals_of(entries.drop_last());
        let key = entries.last().0;
        if is_signal(key) {
            front.push((feature_named(signal_feature_name(key)), key))
        } else {
            front
        }
    }
}

/// The signals among the properties, or the error of the first one that cannot be read.
pub open spec fn parsed_signals(entries: Entries) -> Result<
    Seq<(FeatureView, Seq<char>)>,
    ErrorView,
> {
    match first_error(entries, |e| signal_flaw(e)) {
        Some(e) => Err(e),
        None => Ok(signals_of(entries)),
    }
}

/// Why a signal's feature is refused.
pub open spec fn feature_flaw(signal: (FeatureView, Seq<char>)) -> Option<ErrorView> {
    if feature_allowed(signal.0) {
        None
    } else {
        Some(
            ErrorView::Generic(
                "Enabling feature '"@ + signal.0.name + "' is not supported during CREATE TABLE"@,
            ),
        )
    }
}

/// The protocol with the features of the signals listed, from first to last.
pub open spec fn with_signal_features(
    protocol: ProtocolView,
    signals: Seq<(FeatureView, Seq<char>)>,
) -> Result<ProtocolView, ErrorView>
    decreases signals.len(),
{
    if signals.len() == 0 {
        Ok(protocol)
    } else {
        match with_signal_features(protocol, signals.drop_last()) {
            Ok(p) => p.with_feature(signals.last().0),
            Err(e) => Err(e),
        }
    }
}

/// The properties that are no signals, in order.
pub open spec fn without_signals(entries: Entries) -> Entries {
    entries.filter(|e: (Seq<char>, Seq<char>)| !is_signal(e.0))
}

/// The value of a vector of signals.
pub open spec fn signal_views(signals: Seq<(TableFeature, String)>) -> Seq<
    (FeatureView, Seq<char>),
> {
    signals.map_values(|s: (TableFeature, String)| (s.0@, s.1@))
}

impl FeatureSignalTransform {
    /// Reads the signals among the properties.
    pub fn parse_feature_signals(properties: &PropertyMap) -> (r: DeltaResult<
        Vec<(TableFeature, String)>,
    >)
        ensures
            match r {
                Ok(signals) => parsed_signals(properties@) == Ok::<
                    Seq<(FeatureView, Seq<char>)>,
                    ErrorView,
                >(signal_views(signals@)),
                Err(e) => parsed_signals(properties@) == Err::<
                    Seq<(FeatureView, Seq<char>)>,
                    ErrorView,
                >(e@),
            },
    {
        let mut signals: Vec<(TableFeature, String)> = Vec::new();
        let ghost flaw = |e: (Seq<char>, Seq<char>)| signal_flaw(e);
        let len: usize = properties.len();
        let mut i: usize = 0;
        proof {
            assert(properties@.take(0) =~= Entries::empty());
            assert(signal_views(signals@) =~= signals_of(properties@.take(0)));
        }
        while i < len
            invariant
                len == properties@.len(),
                i <= len,
                flaw == (|e: (Seq<char>, Seq<char>)| signal_flaw(e)),
                first_error(properties@.take(i as int), flaw) is None,
                signal_views(signals@) == signals_of(properties@.take(i as int)),
            decreases len - i,
        {
            proof {
                lemma_first_error_step(properties@, flaw, i as int);
                assert(properties@.take(i + 1).drop_last() =~= properties@.take(i as int));
            }
            let ghost before = signals@;
            let key = properties.key_at(i);
            let value = properties.value_at(i);
            if let Some(feature_name) = strip_prefix(key, SET_TABLE_FEATURE_SUPPORTED_PREFIX) {
                if !same_text(value, SET_TABLE_FEATURE_SUPPORTED_VALUE) {
                    return Err(
                        DeltaError::Generic(
                            "Invalid value '".to_owned().concat(value).concat("' for '").concat(
                                key,
                            ).concat("'. Only '").concat(SET_TABLE_FEATURE_SUPPORTED_VALUE).concat(
                                "' is allowed.",
                            ),
                        ),
                    );
                }
                let feature = TableFeature::from_name(feature_name);
                if !feature.is_known() {
                    return Err(
                        DeltaError::Generic(
                            "Unknown table feature '".to_owned().concat(feature_name).concat(
                                "'. Cannot create table with unsupported features.",
                            ),
                        ),
                    );
                }
                signals.push((feature, key.to_owned()));
                assert(signal_views(signals@) =~= signal_views(before).push((feature@, key@)));
            }
            i = i + 1;
        }
        assert(properties@.take(len as int) =~= properties@);
        Ok(signals)
    }
}

impl ProtocolMetadataTransform for FeatureSignalTransform {
    open spec fn transform_id(&self) -> TransformId {
        TransformId::FeatureSignals
    }

    open spec fn label(&self) -> Seq<char> {
        "FeatureSignals: processes delta.feature.* signals"@
    }

    open spec fn needs(&self) -> Seq<TransformDependency> {
        Seq::empty()
    }

    open spec fn refusal(&self, config: ConfigView) -> Option<ErrorView> {
        match parsed_signals(config.metadata.configuration) {
            Err(e) => Some(e),
            Ok(signals) => first_error(signals, |s| feature_flaw(s)),
        }
    }

    open spec fn applicable(&self) -> bool {
        true
    }

    open spec fn outcome(&self, config: ConfigView) -> Result<OutputView, ErrorView> {
        match parsed_signals(config.metadata.configuration) {
            Err(e) => Err(e),
            Ok(signals) => match with_signal_features(config.protocol, signals) {
                Err(e) => Err(e),
                Ok(protocol) => Ok(
                    plain_output(
                        ConfigView {
                            protocol,
                            metadata: MetadataView {
                                configuration: without_signals(config.metadata.configuration),
                                ..config.metadata
                            },
                        },
                    ),
                ),
            },
        }
    }

    fn id(&self) -> (r: TransformId) {
        TransformId::FeatureSignals
    }

    fn name(&self) -> (r: &'static str) {
        "FeatureSignals: processes delta.feature.* signals"
    }

    fn dependencies(&self) -> (r: Vec<TransformDependency>) {
        Vec::new()
    }

    fn validate_preconditions(&self, config: &TableProtocolMetadataConfig) -> (r: DeltaResult<()>) {
        let signals = match Self::parse_feature_signals(config.metadata.configuration()) {
            Ok(signals) => signals,
            Err(e) => return Err(e),
        };
        let ghost views = signal_views(signals@);
        let ghost flaw = |s: (FeatureView, Seq<char>)| feature_flaw(s);
        let mut i: usize = 0;
        assert(views.take(0) =~= Seq::empty());
        while i < signals.len()
            invariant
                i <= signals@.len(),
                views == signal_views(signals@),
                parsed_signals(config@.metadata.configuration) == Ok::<
                    Seq<(FeatureView, Seq<char>)>,
                    ErrorView,
                >(views),
                flaw == (|s: (FeatureView, Seq<char>)| feature_flaw(s)),
                first_error(views.take(i as int), flaw) is None,
            decreases signals@.len() - i,
        {
            proof {
                lemma_first_error_step(views, flaw, i as int);
            }
            let feature = &signals[i].0;
            if !TableProtocolMetadataConfig::is_delta_feature_allowed(feature) {
                return Err(
                    DeltaError::Generic(
                        "Enabling feature '".to_owned().concat(feature.as_ref()).concat(
                            "' is not supported during CREATE TABLE",
                        ),
                    ),
                );
            }
            i = i + 1;
        }
        assert(views.take(i as int) =~= views);
        Ok(())
    }

    fn apply(&self, config: TableProtocolMetadataConfig) -> (r: DeltaResult<TransformOutput>) {
        let ghost entries = config@.metadata.configuration;
        let ghost start = config@.protocol;
        let signals = match Self::parse_feature_signals(config.metadata.configuration()) {
            Ok(signals) => signals,
            Err(e) => return Err(e),
        };
        let ghost views = signal_views(signals@);
        let mut filtered = config.metadata.configuration().clone();
        let TableProtocolMetadataConfig { protocol: mut protocol, metadata } = config;

        // A feature that is listed already stays as it is.
        let mut i: usize = 0;
        assert(views.take(0) =~= Seq::empty());
        while i < signals.len()
            invariant
                i <= signals@.len(),
                views == signal_views(signals@),
                start == config@.protocol,
                parsed_signals(config@.metadata.configuration) == Ok::<
                    Seq<(FeatureView, Seq<char>)>,
                    ErrorView,
                >(views),
                with_signal_features(start, views.take(i as int)) == Ok::<ProtocolView, ErrorView>(
                    protocol@,
                ),
            decreases signals@.len() - i,
        {
            assert(views.take(i + 1).drop_last() =~= views.take(i as int));
            match protocol.with_feature(signals[i].0.clone()) {
                Ok(p) => {
                    protocol = p;
                },
                Err(e) => {
                    proof {
                        lemma_signal_error_in_prefix(start, views, i + 1);
                    }
                    return Err(e);
                },
            }
            i = i + 1;
        }
        assert(views.take(i as int) =~= views);

        // The signals have been carried out; they are no settings of the table.
        let mut j: usize = 0;
        proof {
            lemma_filter_all(entries, |e: (Seq<char>, Seq<char>)| !keys_among(views, 0, e.0));
        }
        while j < signals.len()
            invariant
                j <= signals@.len(),
                views == signal_views(signals@),
                filtered@ == entries.filter(
                    |e: (Seq<char>, Seq<char>)| !keys_among(views, j as int, e.0),
                ),
            decreases signals@.len() - j,
        {
            filtered.remove(signals[j].1.as_str());
            proof {
                lemma_filter_key_away(entries, views, j as int);
            }
            j = j + 1;
        }
        proof {
            lemma_signal_keys(entries);
            lemma_same_filter(
                entries,
                |e: (Seq<char>, Seq<char>)| !keys_among(views, j as int, e.0),
                |e: (Seq<char>, Seq<char>)| !is_signal(e.0),
            );
        }
        Ok(
            TransformOutput::new(
                TableProtocolMetadataConfig {
                    protocol,
                    metadata: metadata.with_configuration(filtered),
                },
            ),
        )
    }
}

/// Whether one of the first `n` signals has this key.
spec fn keys_among(signals: Seq<(FeatureView, Seq<char>)>, n: int, key: Seq<char>) -> bool {
    exists|i: int| 0 <= i < n && i < signals.len() && #[trigger] signals[i].1 == key
}

/// The signals' keys are the properties' keys that ask for features.
proof fn lemma_signal_keys(entries: Entries)
    ensures
        forall|i: int|
            0 <= i < entries.len() ==> (keys_among(
                signals_of(entries),
                signals_of(entries).len() as int,
                (#[trigger] entries[i]).0,
            ) <==> is_signal(entries[i].0)),
        forall|j: int|
            0 <= j < signals_of(entries).len() ==> is_signal(#[trigger] signals_of(entries)[j].1),
    decreases entries.len(),
{
    if entries.len() > 0 {
        let front = entries.drop_last();
        let before = signals_of(front);
        let all = signals_of(entries);
        lemma_signal_keys(front);
        assert forall|j: int| 0 <= j < all.len() implies is_signal(#[trigger] all[j].1) by {
            if j < before.len() {
                assert(before[j] == all[j]);
            }
        }
        assert forall|i: int| 0 <= i < entries.len() implies (keys_among(
            all,
            all.len() as int,
            (#[trigger] entries[i]).0,
        ) <==> is_signal(entries[i].0)) by {
            if is_signal(entries[i].0) {
                if i < front.len() {
                    assert(front[i] == entries[i]);
                    let j = choose|j: int|
                        0 <= j < before.len() && #[trigger] before[j].1 == entries[i].0;
                    assert(all[j] == before[j]);
                } else {
                    assert(all[all.len() - 1].1 == entries[i].0);
                }
            }
        }
    }
}

/// An error among the first signals is the error of them all.
proof fn lemma_signal_error_in_prefix(
    protocol: ProtocolView,
    signals: Seq<(FeatureView, Seq<char>)>,
    n: int,
)
    requires
        0 <= n <= signals.len(),
        with_signal_features(protocol, signals.take(n)) is Err,
    ensures
        with_signal_features(protocol, signals) == with_signal_features(protocol, signals.take(n)),
    decreases signals.len() - n,
{
    if n == signals.len() {
        assert(signals.take(n) =~= signals);
    } else {
        assert(signals.take(n + 1).drop_last() =~= signals.take(n));
        lemma_signal_error_in_prefix(protocol, signals, n + 1);
    }
}

/// Taking away the key of signal `j` after those before it.
proof fn lemma_filter_key_away(
    entries: Entries,
    signals: Seq<(FeatureView, Seq<char>)>,
    j: int,
)
    requires
        0 <= j < signals.len(),
    ensures
        without_key(
            entries.filter(|e: (Seq<char>, Seq<char>)| !keys_among(signals, j, e.0)),
            signals[j].1,
        ) == entries.filter(|e: (Seq<char>, Seq<char>)| !keys_among(signals, j + 1, e.0)),
{
    let f = |e: (Seq<char>, Seq<char>)| !keys_among(signals, j, e.0);
    let g = |e: (Seq<char>, Seq<char>)| e.0 != signals[j].1;
    let h = |e: (Seq<char>, Seq<char>)| !keys_among(signals, j + 1, e.0);
    lemma_filter_twice(entries, f, g);
    assert forall|i: int| 0 <= i < entries.len() implies (|e: (Seq<char>, Seq<char>)|
        f(e) && g(e))(#[trigger] entries[i]) == h(entries[i]) by {
        let key = entries[i].0;
        if keys_among(signals, j + 1, key) && !keys_among(signals, j, key) {
            let k = choose|k: int|
                0 <= k < j + 1 && k < signals.len() && #[trigger] signals[k].1 == key;
            assert(k == j);
        }
        if keys_among(signals, j, key) {
            let k = choose|k: int|
                0 <= k < j && k < signals.len() && #[trigger] signals[k].1 == key;
            assert(signals[k].1 == key);
        }
        assert(signals[j].1 == key ==> keys_among(signals, j + 1, key));
    }
    lemma_same_filter(entries, |e: (Seq<char>, Seq<char>)| f(e) && g(e), h);
}

// ---------------------------------------------------------------------------------------------
// Protocol version
// ---------------------------------------------------------------------------------------------

/// Sets the protocol version that the properties ask for.
///
/// Without such properties the version is the one of table features, which is also the only one
/// that table creation supports. The properties do not stay in the metadata.
#[derive(Debug)]
pub struct ProtocolVersionTransform;

/// The version that a property asks for, or `default` without it.
pub open spec fn requested_version(entries: Entries, property: Seq<char>, default: u8) -> Result<
    u8,
    ErrorView,
> {
    match lookup(entries, property) {
        None => Ok(default),
        Some(value) => match u8_value(value) {
            Some(version) => Ok(version),
            None => Err(
                ErrorView::Generic(
                    "Invalid value '"@ + value + "' for "@ + property + ". Must be an integer."@,
                ),
            ),
        },
    }
}

/// The error of a version that table creation does not support.
pub open spec fn unsupported_version(
    version: u8,
    property: Seq<char>,
    supported: i32,
) -> ErrorView {
    ErrorView::Generic(
        "Invalid value '"@ + decimal(version as nat) + "' for "@ + property + ". Only '"@
            + decimal(supported as nat) + "' is supported for CREATE TABLE."@,
    )
}

/// Why the versions that the properties ask for cannot be had.
pub open spec fn version_flaw(entries: Entries) -> Option<ErrorView> {
    let reader_default = TABLE_FEATURES_MIN_READER_VERSION as u8;
    let writer_default = TABLE_FEATURES_MIN_WRITER_VERSION as u8;
    match requested_version(entries, MIN_READER_VERSION_PROP@, reader_default) {
        Err(e) => Some(e),
        Ok(reader) => match requested_version(entries, MIN_WRITER_VERSION_PROP@, writer_default) {
            Err(e) => Some(e),
            Ok(writer) => if reader != TABLE_FEATURES_MIN_READER_VERSION {
                Some(
                    unsupported_version(
                        reader,
                        MIN_READER_VERSION_PROP@,
                        TABLE_FEATURES_MIN_READER_VERSION,
                    ),
                )
            } else if writer != TABLE_FEATURES_MIN_WRITER_VERSION {
                Some(
                    unsupported_version(
                        writer,
                        MIN_WRITER_VERSION_PROP@,
                        TABLE_FEATURES_MIN_WRITER_VERSION,
                    ),
                )
            } else {
                None
            },
        },
    }
}

/// The properties without the version requests, in order.
pub open spec fn without_versions(entries: Entries) -> Entries {
    without_key(without_key(entries, MIN_READER_VERSION_PROP@), MIN_WRITER_VERSION_PROP@)
}

fn read_version(properties: &PropertyMap, property: &str, default: u8) -> (r: DeltaResult<u8>)
    ensures
        match r {
            Ok(v) => requested_version(properties@, property@, default) == Ok::<u8, ErrorView>(v),
            Err(e) => requested_version(properties@, property@, default) == Err::<u8, ErrorView>(e@),
        },
{
    match properties.get(property) {
        None => Ok(default),
        Some(value) => match parse_u8(value) {
            Some(version) => Ok(version),
            None => Err(
                DeltaError::Generic(
                    "Invalid value '".to_owned().concat(value).concat("' for ").concat(
                        property,
                    ).concat(". Must be an integer."),
                ),
            ),
        },
    }
}

fn version_error(version: u8, property: &str, supported: i32) -> (r: DeltaError)
    requires
        0 <= supported,
    ensures
        r@ == unsupported_version(version, property@, supported),
{
    DeltaError::Generic(
        "Invalid value '".to_owned().concat(decimal_text(version as usize).as_str()).concat(
            "' for ",
        ).concat(property).concat(". Only '").concat(
            decimal_text(supported as usize).as_str(),
        ).concat(
            "' is supported for CREATE TABLE.",
        ),
    )
}

impl ProtocolMetadataTransform for ProtocolVersionTransform {
    open spec fn transform_id(&self) -> TransformId {
        TransformId::ProtocolVersion
    }

    open spec fn label(&self) -> Seq<char> {
        "ProtocolVersion: sets version from properties or defaults"@
    }

    open spec fn needs(&self) -> Seq<TransformDependency> {
        Seq::empty()
    }

    open spec fn refusal(&self, config: ConfigView) -> Option<ErrorView> {
        None
    }

    open spec fn applicable(&self) -> bool {
        true
    }

    open spec fn outcome(&self, config: ConfigView) -> Result<OutputView, ErrorView> {
        match version_flaw(config.metadata.configuration) {
            Some(e) => Err(e),
            None => match config.protocol.with_versions(
                TABLE_FEATURES_MIN_READER_VERSION,
                TABLE_FEATURES_MIN_WRITER_VERSION,
            ) {
                Err(e) => Err(e),
                Ok(protocol) => Ok(
                    plain_output(
                        ConfigView {
                            protocol,
                            metadata: MetadataView {
                                configuration: without_versions(config.metadata.configuration),
                                ..config.metadata
                            },
                        },
                    ),
                ),
            },
        }
    }

    fn id(&self) -> (r: TransformId) {
        TransformId::ProtocolVersion
    }

    fn name(&self) -> (r: &'static str) {
        "ProtocolVersion: sets version from properties or defaults"
    }

    fn dependencies(&self) -> (r: Vec<TransformDependency>) {
        Vec::new()
    }

    fn validate_preconditions(&self, config: &TableProtocolMetadataConfig) -> (r: DeltaResult<()>) {
        Ok(())
    }

    fn apply(&self, config: TableProtocolMetadataConfig) -> (r: DeltaResult<TransformOutput>) {
        let properties = config.metadata.configuration();
        let reader_version: u8 = match read_version(
            properties,
            MIN_READER_VERSION_PROP,
            TABLE_FEATURES_MIN_READER_VERSION as u8,
        ) {
            Ok(v) => v,
            Err(e) => return Err(e),
        };
        let writer_version: u8 = match read_version(
            properties,
            MIN_WRITER_VERSION_PROP,
            TABLE_FEATURES_MIN_WRITER_VERSION as u8,
        ) {
            Ok(v) => v,
            Err(e) => return Err(e),
        };
        if reader_version as i32 != TABLE_FEATURES_MIN_READER_VERSION {
            return Err(
                version_error(
                    reader_version,
                    MIN_READER_VERSION_PROP,
                    TABLE_FEATURES_MIN_READER_VERSION,
                ),
            );
        }
        if writer_version as i32 != TABLE_FEATURES_MIN_WRITER_VERSION {
            return Err(
                version_error(
                    writer_version,
                    MIN_WRITER_VERSION_PROP,
                    TABLE_FEATURES_MIN_WRITER_VERSION,
                ),
            );
        }
        let mut filtered = properties.clone();
        filtered.remove(MIN_READER_VERSION_PROP);
        filtered.remove(MIN_WRITER_VERSION_PROP);
        let TableProtocolMetadataConfig { protocol, metadata } = config;
        match protocol.with_versions(reader_version as i32, writer_version as i32) {
            Ok(protocol) => Ok(
                TransformOutput::new(
                    TableProtocolMetadataConfig {
                        protocol,
                        metadata: metadata.with_configuration(filtered),
                    },
                ),
            ),
            Err(e) => Err(e),
        }
    }
}

// ---------------------------------------------------------------------------------------------
// Domain metadata
// ---------------------------------------------------------------------------------------------

/// Puts the feature of domain metadata on the protocol.
///
/// It can be asked for by a signal, and clustering depends on it.
#[derive(Debug)]
pub struct DomainMetadataTransform;

/// The result of putting a feature on the protocol of a configuration.
pub open spec fn config_with_feature(config: ConfigView, feature: FeatureView) -> Result<
    ConfigView,
    ErrorView,
> {
    match config.protocol.with_feature(feature) {
        Ok(protocol) => Ok(ConfigView { protocol, ..config }),
        Err(e) => Err(e),
    }
}

fn add_feature(config: TableProtocolMetadataConfig, feature: TableFeature) -> (r: DeltaResult<
    TableProtocolMetadataConfig,
>)
    ensures
        match r {
            Ok(c) => config_with_feature(config@, feature@) == Ok::<ConfigView, ErrorView>(c@)
                && c@.protocol.written(feature@),
            Err(e) => config_with_feature(config@, feature@) == Err::<ConfigView, ErrorView>(e@),
        },
        !feature@.reader_writer() ==> (r is Ok <==> config@.protocol.writer_features is Some),
{
    let TableProtocolMetadataConfig { protocol, metadata } = config;
    match protocol.with_feature(feature) {
        Ok(protocol) => Ok(TableProtocolMetadataConfig { protocol, metadata }),
        Err(e) => Err(e),
    }
}

impl ProtocolMetadataTransform for DomainMetadataTransform {
    open spec fn transform_id(&self) -> TransformId {
        TransformId::DomainMetadata
    }

    open spec fn label(&self) -> Seq<char> {
        "DomainMetadata: enables domain metadata feature"@
    }

    open spec fn needs(&self) -> Seq<TransformDependency> {
        Seq::empty()
    }

    open spec fn refusal(&self, config: ConfigView) -> Option<ErrorView> {
        None
    }

    open spec fn applicable(&self) -> bool {
        true
    }

    open spec fn outcome(&self, config: ConfigView) -> Result<OutputView, ErrorView> {
        match config_with_feature(config, TableFeature::DomainMetadata@) {
            Ok(c) => Ok(plain_output(c)),
            Err(e) => Err(e),
        }
    }

    fn id(&self) -> (r: TransformId) {
        TransformId::DomainMetadata
    }

    fn name(&self) -> (r: &'static str) {
        "DomainMetadata: enables domain metadata feature"
    }

    fn dependencies(&self) -> (r: Vec<TransformDependency>) {
        Vec::new()
    }

    fn validate_preconditions(&self, config: &TableProtocolMetadataConfig) -> (r: DeltaResult<()>) {
        Ok(())
    }

    fn apply(&self, config: TableProtocolMetadataConfig) -> (r: DeltaResult<TransformOutput>)
        ensures
            r is Ok <==> config@.protocol.writer_features is Some,
            r is Ok ==> r->Ok_0@.config.protocol.written(TableFeature::DomainMetadata@),
    {
        proof {
            lemma_clustering_features_are_for_writers();
        }
        match add_feature(config, TableFeature::DomainMetadata) {
            Ok(c) => Ok(TransformOutput::new(c)),
            Err(e) => Err(e),
        }
    }
}

// ---------------------------------------------------------------------------------------------
// Partitioning
// ---------------------------------------------------------------------------------------------

/// Why a column cannot be used to lay out data: it is not a top-level column, or the schema does
/// not have it. `kind` says in the message what the column was to be used for.
pub open spec fn column_flaw(kind: Seq<char>, schema: StructType, path: Seq<Seq<char>>) -> Option<
    ErrorView,
> {
    if path.len() != 1 {
        Some(
            ErrorView::Generic(
                kind + " column '"@ + column_text(path)
                    + "' must be a top-level column, not a nested path"@,
            ),
        )
    } else if !has_field(schema, path[0]) {
        Some(ErrorView::Generic(kind + " column '"@ + path[0] + "' not found in schema"@))
    } else {
        None
    }
}

fn check_columns(kind: &str, schema: &StructType, columns: &Vec<ColumnName>) -> (r: DeltaResult<()>)
    ensures
        check_agrees(
            r,
            first_error(paths(columns@), |p: Seq<Seq<char>>| column_flaw(kind@, *schema, p)),
        ),
        r is Ok ==> forall|i: int| 0 <= i < columns@.len() ==> (#[trigger] columns@[i])@.len() == 1,
{
    let ghost all = paths(columns@);
    let ghost flaw = |p: Seq<Seq<char>>| column_flaw(kind@, *schema, p);
    let mut i: usize = 0;
    assert(all.take(0) =~= Seq::empty());
    while i < columns.len()
        invariant
            i <= columns@.len(),
            all == paths(columns@),
            flaw == (|p: Seq<Seq<char>>| column_flaw(kind@, *schema, p)),
            first_error(all.take(i as int), flaw) is None,
            forall|j: int| 0 <= j < i ==> (#[trigger] columns@[j])@.len() == 1,
        decreases columns@.len() - i,
    {
        proof {
            lemma_first_error_step(all, flaw, i as int);
        }
        let column = &columns[i];
        let path = column.path();
        if path.len() != 1 {
            return Err(
                DeltaError::Generic(
                    kind.to_owned().concat(" column '").concat(column.display().as_str()).concat(
                        "' must be a top-level column, not a nested path",
                    ),
                ),
            );
        }
        let name = path[0].as_str();
        assert(name@ == texts(path@)[0]);
        if schema.field(name).is_none() {
            return Err(
                DeltaError::Generic(
                    kind.to_owned().concat(" column '").concat(name).concat(
                        "' not found in schema",
                    ),
                ),
            );
        }
        i = i + 1;
    }
    assert(all.take(i as int) =~= all);
    Ok(())
}

/// Sets the partition columns of the table.
#[derive(Debug)]
pub struct PartitioningTransform {
    columns: Vec<ColumnName>,
}

impl PartitioningTransform {
    /// Partitioning by the given columns.
    pub fn new(columns: Vec<ColumnName>) -> (r: PartitioningTransform)
        ensures
            r@ == paths(columns@),
    {
        PartitioningTransform { columns }
    }
}

impl View for PartitioningTransform {
    type V = Seq<Seq<Seq<char>>>;

    closed spec fn view(&self) -> Seq<Seq<Seq<char>>> {
        paths(self.columns@)
    }
}

/// The first part of each path.
pub open spec fn first_parts(columns: Seq<Seq<Seq<char>>>) -> Seq<Seq<char>> {
    columns.map_values(|p: Seq<Seq<char>>| p[0])
}

/// Why a table cannot be partitioned by some columns.
pub open spec fn partitioning_refusal(
    columns: Seq<Seq<Seq<char>>>,
    config: ConfigView,
) -> Option<ErrorView> {
    first_error(
        columns,
        |p: Seq<Seq<char>>| column_flaw("Partition"@, config.metadata.schema, p),
    )
}

/// Whether each column has a name.
pub open spec fn no_empty_path(columns: Seq<Seq<Seq<char>>>) -> bool {
    forall|i: int| 0 <= i < columns.len() ==> (#[trigger] columns[i]).len() > 0
}

/// A configuration with other partition columns.
pub open spec fn partitioned_by(columns: Seq<Seq<Seq<char>>>, config: ConfigView) -> ConfigView {
    ConfigView {
        metadata: MetadataView { partition_columns: first_parts(columns), ..config.metadata },
        ..config
    }
}

impl ProtocolMetadataTransform for PartitioningTransform {
    open spec fn transform_id(&self) -> TransformId {
        TransformId::Partitioning
    }

    open spec fn label(&self) -> Seq<char> {
        "Partitioning: sets partition columns"@
    }

    open spec fn needs(&self) -> Seq<TransformDependency> {
        Seq::empty()
    }

    open spec fn refusal(&self, config: ConfigView) -> Option<ErrorView> {
        partitioning_refusal(self@, config)
    }

    open spec fn applicable(&self) -> bool {
        no_empty_path(self@)
    }

    open spec fn outcome(&self, config: ConfigView) -> Result<OutputView, ErrorView> {
        Ok(plain_output(partitioned_by(self@, config)))
    }

    fn id(&self) -> (r: TransformId) {
        TransformId::Partitioning
    }

    fn name(&self) -> (r: &'static str) {
        "Partitioning: sets partition columns"
    }

    fn dependencies(&self) -> (r: Vec<TransformDependency>) {
        Vec::new()
    }

    fn validate_preconditions(&self, config: &TableProtocolMetadataConfig) -> (r: DeltaResult<()>) {
        let r = check_columns("Partition", config.metadata.schema(), &self.columns);
        proof {
            if r is Ok {
                assert forall|i: int| 0 <= i < self@.len() implies (#[trigger] self@[i]).len() > 0 by {
                    assert(self.columns@[i]@.len() == 1);
                }
            }
        }
        r
    }

    fn apply(&self, config: TableProtocolMetadataConfig) -> (r: DeltaResult<TransformOutput>) {
        let mut partition_columns: Vec<String> = Vec::new();
        let mut i: usize = 0;
        assert(texts(partition_columns@) =~= first_parts(self@).take(0));
        while i < self.columns.len()
            invariant
                i <= self.columns@.len(),
                self.applicable(),
                texts(partition_columns@) == first_parts(self@).take(i as int),
            decreases self.columns@.len() - i,
        {
            let ghost before = partition_columns@;
            assert(self@[i as int].len() > 0);
            let path = self.columns[i].path();
            partition_columns.push(path[0].clone());
            proof {
                let part = first_parts(self@)[i as int];
                assert(part == texts(path@)[0]);
                assert(texts(partition_columns@) =~= texts(before).push(part));
                assert(first_parts(self@).take(i + 1) =~= first_parts(self@).take(i as int).push(part));
            }
            i = i + 1;
        }
        assert(first_parts(self@).take(i as int) =~= first_parts(self@));
        Ok(TransformOutput::new(config.with_partition_columns(partition_columns)))
    }
}

// ---------------------------------------------------------------------------------------------
// Clustering
// ---------------------------------------------------------------------------------------------

/// Makes the table clustered.
///
/// The columns must be top-level columns of the schema, and not too many. The feature of
/// clustered tables goes on the protocol, and the columns go into the clustering domain.
#[derive(Debug)]
pub struct ClusteringTransform {
    columns: Vec<ColumnName>,
}

impl View for ClusteringTransform {
    type V = Seq<Seq<Seq<char>>>;

    closed spec fn view(&self) -> Seq<Seq<Seq<char>>> {
        paths(self.columns@)
    }
}

/// The domain metadata of a clustering configuration.
pub open spec fn clustering_domain(configuration: Seq<char>) -> DomainMetadataView {
    DomainMetadataView { domain: CLUSTERING_DOMAIN_NAME@, configuration }
}

/// What clustering makes of a configuration, given the text of the clustering domain.
pub open spec fn clustered_with(config: ConfigView, configuration: Seq<char>) -> Result<
    OutputView,
    ErrorView,
> {
    match config_with_feature(config, TableFeature::ClusteredTable@) {
        Ok(c) => Ok(
            OutputView { config: c, domain_metadata: seq![clustering_domain(configuration)] },
        ),
        Err(e) => Err(e),
    }
}

impl ClusteringTransform {
    /// Clustering by the given columns.
    pub fn new(columns: Vec<ColumnName>) -> (r: ClusteringTransform)
        ensures
            r@ == paths(columns@),
    {
        ClusteringTransform { columns }
    }

    /// The columns as domain metadata.
    pub fn domain_metadata(&self) -> (r: ClusteringDomainMetadata)
        ensures
            r@ == self@,
    {
        let mut clustering_columns: Vec<Vec<String>> = Vec::new();
        let mut i: usize = 0;
        assert(path_texts(clustering_columns@) =~= self@.take(0));
        while i < self.columns.len()
            invariant
                i <= self.columns@.len(),
                path_texts(clustering_columns@) == self@.take(i as int),
            decreases self.columns@.len() - i,
        {
            let ghost before = clustering_columns@;
            let path = copy_texts(self.columns[i].path());
            clustering_columns.push(path);
            proof {
                assert(path_texts(clustering_columns@) =~= path_texts(before).push(self@[i as int]));
                assert(self@.take(i + 1) =~= self@.take(i as int).push(self@[i as int]));
            }
            i = i + 1;
        }
        assert(self@.take(i as int) =~= self@);
        ClusteringDomainMetadata { clustering_columns }
    }

    /// Makes a configuration clustered, given the text of the clustering domain.
    pub fn apply_with(config: TableProtocolMetadataConfig, configuration: String) -> (r: DeltaResult<
        TransformOutput,
    >)
        ensures
            output_agrees(r, clustered_with(config@, configuration@)),
            r is Ok <==> config@.protocol.writer_features is Some,
            r is Ok ==> r->Ok_0@.config.protocol.written(TableFeature::ClusteredTable@),
    {
        proof {
            lemma_clustering_features_are_for_writers();
        }
        match add_feature(config, TableFeature::ClusteredTable) {
            Ok(c) => {
                let mut list: Vec<DomainMetadata> = Vec::new();
                list.push(DomainMetadata::new(CLUSTERING_DOMAIN_NAME.to_owned(), configuration));
                assert(domain_views(list@) =~= seq![clustering_domain(configuration@)]);
                Ok(TransformOutput::with_domain_metadata(c, list))
            },
            Err(e) => Err(e),
        }
    }
}

/// Why there cannot be so many clustering columns.
pub open spec fn too_many_columns(count: nat) -> ErrorView {
    ErrorView::Generic(
        "Clustering supports at most "@ + decimal(MAX_CLUSTERING_COLUMNS as nat) + " columns, but "@
            + decimal(count) + " were specified"@,
    )
}

/// Why a table cannot be clustered by some columns.
pub open spec fn clustering_refusal(
    columns: Seq<Seq<Seq<char>>>,
    config: ConfigView,
) -> Option<ErrorView> {
    if columns.len() > MAX_CLUSTERING_COLUMNS {
        Some(too_many_columns(columns.len()))
    } else {
        first_error(
            columns,
            |p: Seq<Seq<char>>| column_flaw("Clustering"@, config.metadata.schema, p),
        )
    }
}

/// What clustering by some columns makes of a configuration.
pub open spec fn clustered_by(columns: Seq<Seq<Seq<char>>>, config: ConfigView) -> Result<
    OutputView,
    ErrorView,
> {
    clustered_with(config, clustering_json(columns))
}

/// Clustering depends on domain metadata.
pub open spec fn clustering_needs() -> Seq<TransformDependency> {
    seq![TransformDependency::TransformRequired(TransformId::DomainMetadata)]
}

impl ProtocolMetadataTransform for ClusteringTransform {
    open spec fn transform_id(&self) -> TransformId {
        TransformId::Clustering
    }

    open spec fn label(&self) -> Seq<char> {
        "Clustering: enables clustered table"@
    }

    open spec fn needs(&self) -> Seq<TransformDependency> {
        clustering_needs()
    }

    open spec fn refusal(&self, config: ConfigView) -> Option<ErrorView> {
        clustering_refusal(self@, config)
    }

    open spec fn applicable(&self) -> bool {
        true
    }

    open spec fn outcome(&self, config: ConfigView) -> Result<OutputView, ErrorView> {
        clustered_by(self@, config)
    }

    fn id(&self) -> (r: TransformId) {
        TransformId::Clustering
    }

    fn name(&self) -> (r: &'static str) {
        "Clustering: enables clustered table"
    }

    fn dependencies(&self) -> (r: Vec<TransformDependency>) {
        let mut list: Vec<TransformDependency> = Vec::new();
        list.push(TransformDependency::TransformRequired(TransformId::DomainMetadata));
        list
    }

    fn validate_preconditions(&self, config: &TableProtocolMetadataConfig) -> (r: DeltaResult<()>) {
        if self.columns.len() > MAX_CLUSTERING_COLUMNS {
            return Err(
                DeltaError::Generic(
                    "Clustering supports at most ".to_owned().concat(
                        decimal_text(MAX_CLUSTERING_COLUMNS).as_str(),
                    ).concat(" columns, but ").concat(
                        decimal_text(self.columns.len()).as_str(),
                    ).concat(" were specified"),
                ),
            );
        }
        check_columns("Clustering", config.metadata.schema(), &self.columns)
    }

    fn apply(&self, config: TableProtocolMetadataConfig) -> (r: DeltaResult<TransformOutput>)
        ensures
            r is Ok <==> config@.protocol.writer_features is Some,
            r is Ok ==> r->Ok_0@.config.protocol.written(TableFeature::ClusteredTable@),
    {
        match self.domain_metadata().to_json() {
            Ok(text) => Self::apply_with(config, text),
            Err(e) => Err(e),
        }
    }
}

// ---------------------------------------------------------------------------------------------
// Any transform
// ---------------------------------------------------------------------------------------------

/// One of the built-in transforms.
#[derive(Debug)]
pub enum Transform {
    DeltaPropertyValidation(DeltaPropertyValidationTransform),
    ProtocolVersion(ProtocolVersionTransform),
    FeatureSignals(FeatureSignalTransform),
    DomainMetadata(DomainMetadataTransform),
    Partitioning(PartitioningTransform),
    Clustering(ClusteringTransform),
}

/// The mathematical value of a [`Transform`].
pub enum TransformView {
    DeltaPropertyValidation,
    ProtocolVersion,
    FeatureSignals,
    DomainMetadata,
    Partitioning(Seq<Seq<Seq<char>>>),
    Clustering(Seq<Seq<Seq<char>>>),
}

impl TransformView {
    /// The name of the transform.
    pub open spec fn id(self) -> TransformId {
        match self {
            TransformView::DeltaPropertyValidation => TransformId::DeltaPropertyValidation,
            TransformView::ProtocolVersion => TransformId::ProtocolVersion,
            TransformView::FeatureSignals => TransformId::FeatureSignals,
            TransformView::DomainMetadata => TransformId::DomainMetadata,
            TransformView::Partitioning(_) => TransformId::Partitioning,
            TransformView::Clustering(_) => TransformId::Clustering,
        }
    }

    /// What the transform does, in words.
    pub open spec fn label(self) -> Seq<char> {
        match self {
            TransformView::DeltaPropertyValidation => DeltaPropertyValidationTransform.label(),
            TransformView::ProtocolVersion => ProtocolVersionTransform.label(),
            TransformView::FeatureSignals => FeatureSignalTransform.label(),
            TransformView::DomainMetadata => DomainMetadataTransform.label(),
            TransformView::Partitioning(_) => "Partitioning: sets partition columns"@,
            TransformView::Clustering(_) => "Clustering: enables clustered table"@,
        }
    }

    /// What the transform depends on.
    pub open spec fn needs(self) -> Seq<TransformDependency> {
        match self {
            TransformView::DeltaPropertyValidation => DeltaPropertyValidationTransform.needs(),
            TransformView::ProtocolVersion => ProtocolVersionTransform.needs(),
            TransformView::FeatureSignals => FeatureSignalTransform.needs(),
            TransformView::DomainMetadata => DomainMetadataTransform.needs(),
            TransformView::Partitioning(_) => Seq::empty(),
            TransformView::Clustering(_) => clustering_needs(),
        }
    }

    /// Why the transform does not accept a configuration, if it does not.
    pub open spec fn refusal(self, config: ConfigView) -> Option<ErrorView> {
        match self {
            TransformView::DeltaPropertyValidation => DeltaPropertyValidationTransform.refusal(config),
            TransformView::ProtocolVersion => ProtocolVersionTransform.refusal(config),
            TransformView::FeatureSignals => FeatureSignalTransform.refusal(config),
            TransformView::DomainMetadata => DomainMetadataTransform.refusal(config),
            TransformView::Partitioning(columns) => partitioning_refusal(columns, config),
            TransformView::Clustering(columns) => clustering_refusal(columns, config),
        }
    }

    /// Whether the transform can be applied at all.
    pub open spec fn applicable(self) -> bool {
        match self {
            TransformView::DeltaPropertyValidation => DeltaPropertyValidationTransform.applicable(),
            TransformView::ProtocolVersion => ProtocolVersionTransform.applicable(),
            TransformView::FeatureSignals => FeatureSignalTransform.applicable(),
            TransformView::DomainMetadata => DomainMetadataTransform.applicable(),
            TransformView::Partitioning(columns) => no_empty_path(columns),
            TransformView::Clustering(_) => true,
        }
    }

    /// What the transform makes of a configuration.
    pub open spec fn outcome(self, config: ConfigView) -> Result<OutputView, ErrorView> {
        match self {
            TransformView::DeltaPropertyValidation => DeltaPropertyValidationTransform.outcome(config),
            TransformView::ProtocolVersion => ProtocolVersionTransform.outcome(config),
            TransformView::FeatureSignals => FeatureSignalTransform.outcome(config),
            TransformView::DomainMetadata => DomainMetadataTransform.outcome(config),
            TransformView::Partitioning(columns) => Ok(plain_output(partitioned_by(columns, config))),
            TransformView::Clustering(columns) => clustered_by(columns, config),
        }
    }
}

impl View for Transform {
    type V = TransformView;

    open spec fn view(&self) -> TransformView {
        match self {
            Transform::DeltaPropertyValidation(_) => TransformView::DeltaPropertyValidation,
            Transform::ProtocolVersion(_) => TransformView::ProtocolVersion,
            Transform::FeatureSignals(_) => TransformView::FeatureSignals,
            Transform::DomainMetadata(_) => TransformView::DomainMetadata,
            Transform::Partitioning(t) => TransformView::Partitioning(t@),
            Transform::Clustering(t) => TransformView::Clustering(t@),
        }
    }
}

impl ProtocolMetadataTransform for Transform {
    open spec fn transform_id(&self) -> TransformId {
        self@.id()
    }

    open spec fn label(&self) -> Seq<char> {
        self@.label()
    }

    open spec fn needs(&self) -> Seq<TransformDependency> {
        self@.needs()
    }

    open spec fn refusal(&self, config: ConfigView) -> Option<ErrorView> {
        self@.refusal(config)
    }

    open spec fn applicable(&self) -> bool {
        self@.applicable()
    }

    open spec fn outcome(&self, config: ConfigView) -> Result<OutputView, ErrorView> {
        self@.outcome(config)
    }

    fn id(&self) -> (r: TransformId) {
        match self {
            Transform::DeltaPropertyValidation(t) => t.id(),
            Transform::ProtocolVersion(t) => t.id(),
            Transform::FeatureSignals(t) => t.id(),
            Transform::DomainMetadata(t) => t.id(),
            Transform::Partitioning(t) => t.id(),
            Transform::Clustering(t) => t.id(),
        }
    }

    fn name(&self) -> (r: &'static str) {
        match self {
            Transform::DeltaPropertyValidation(t) => t.name(),
            Transform::ProtocolVersion(t) => t.name(),
            Transform::FeatureSignals(t) => t.name(),
            Transform::DomainMetadata(t) => t.name(),
            Transform::Partitioning(t) => t.name(),
            Transform::Clustering(t) => t.name(),
        }
    }

    fn dependencies(&self) -> (r: Vec<TransformDependency>) {
        match self {
            Transform::DeltaPropertyValidation(t) => t.dependencies(),
            Transform::ProtocolVersion(t) => t.dependencies(),
            Transform::FeatureSignals(t) => t.dependencies(),
            Transform::DomainMetadata(t) => t.dependencies(),
            Transform::Partitioning(t) => t.dependencies(),
            Transform::Clustering(t) => t.dependencies(),
        }
    }

    fn validate_preconditions(&self, config: &TableProtocolMetadataConfig) -> (r: DeltaResult<()>) {
        match self {
            Transform::DeltaPropertyValidation(t) => t.validate_preconditions(config),
            Transform::ProtocolVersion(t) => t.validate_preconditions(config),
            Transform::FeatureSignals(t) => t.validate_preconditions(config),
            Transform::DomainMetadata(t) => t.validate_preconditions(config),
            Transform::Partitioning(t) => t.validate_preconditions(config),
            Transform::Clustering(t) => t.validate_preconditions(config),
        }
    }

    fn apply(&self, config: TableProtocolMetadataConfig) -> (r: DeltaResult<TransformOutput>) {
        match self {
            Transform::DeltaPropertyValidation(t) => t.apply(config),
            Transform::ProtocolVersion(t) => t.apply(config),
            Transform::FeatureSignals(t) => t.apply(config),
            Transform::DomainMetadata(t) => t.apply(config),
            Transform::Partitioning(t) => t.apply(config),
            Transform::Clustering(t) => t.apply(config),
        }
    }
}

} // verus!
