//! What comes of a request to create a table.

use crate::actions::{law_listing_a_feature, DomainMetadataView, MetadataView, ProtocolView};
use crate::error::{first_error, lemma_first_error_none, DeltaError, ErrorView};
use crate::schema::StructType;
use crate::table_features::{
    feature_named, lemma_clustering_features_are_for_writers, FeatureView, TableFeature,
    SET_TABLE_FEATURE_SUPPORTED_PREFIX, SET_TABLE_FEATURE_SUPPORTED_VALUE,
    TABLE_FEATURES_MIN_READER_VERSION, TABLE_FEATURES_MIN_WRITER_VERSION,
};
use crate::table_properties::{
    has_key, keys_differ, law_lookup_finds_entries, law_lookup_in_any_order, lemma_first_position, lemma_lookup_at,
    lemma_lookup_present, lemma_lookup_push, lookup, without_key, Entries, MIN_READER_VERSION_PROP,
    MIN_WRITER_VERSION_PROP,
};
use crate::table_protocol_metadata_config::{
    bare_protocol, feature_allowed, initial_config, property_allowed, ConfigView,
    DELTA_PROPERTY_PREFIX,
};
use crate::table_transformation::pipeline::{is_ready, ordered, ordered_run, run_all};
use crate::table_transformation::pipeline_laws::{
    law_respectful_order_is_kept, respects_dependencies,
};
use crate::table_transformation::registry::{
    any_signal, built_in_selection, domain_metadata_asked, signal_key,
};
use crate::table_transformation::transforms::{
    feature_flaw, is_signal, parsed_signals, property_flaw, signal_feature_name, signal_flaw,
    signals_of, version_flaw, with_signal_features, without_signals, without_versions,
    TransformView,
};
use crate::table_transformation::{plain_output, OutputView};
use crate::text::u8_value;
use crate::transaction::create_table::{
    existence_flaw, joined_url, log_url, pair_entries, text_result, time_result,
    transaction_agrees, transaction_for, BuilderView, LogListing, Transaction, TransactionView,
};
use vstd::prelude::*;

verus! {

/// Whether a property is one of Delta's own.
pub open spec fn is_delta_property(key: Seq<char>) -> bool {
    DELTA_PROPERTY_PREFIX@.is_prefix_of(key)
}

/// The properties of applications, in order.
pub open spec fn application_properties(properties: Entries) -> Entries {
    properties.filter(|e: (Seq<char>, Seq<char>)| !is_delta_property(e.0))
}

/// Why a table cannot be created with some properties. The first of these errors counts: a
/// property that is not allowed, a version that cannot be had, a signal that cannot be read, and
/// a feature that cannot be asked for.
pub open spec fn creation_flaw(properties: Entries) -> Option<ErrorView> {
    match first_error(properties, |e| property_flaw(e)) {
        Some(e) => Some(e),
        None => match version_flaw(properties) {
            Some(e) => Some(e),
            None => match parsed_signals(properties) {
                Err(e) => Some(e),
                Ok(signals) => first_error(signals, |s| feature_flaw(s)),
            },
        },
    }
}

/// The protocol of a table that was created with some properties.
pub open spec fn created_protocol(properties: Entries) -> ProtocolView {
    ProtocolView {
        min_reader_version: TABLE_FEATURES_MIN_READER_VERSION,
        min_writer_version: TABLE_FEATURES_MIN_WRITER_VERSION,
        reader_features: Some(Seq::empty()),
        writer_features: Some(
            if domain_metadata_asked(properties) {
                seq![TableFeature::DomainMetadata@]
            } else {
                Seq::empty()
            },
        ),
    }
}

/// A table that was created with some properties.
pub open spec fn created_config(
    schema: StructType,
    partition_columns: Seq<Seq<char>>,
    properties: Entries,
    created_time: i64,
) -> ConfigView {
    ConfigView {
        protocol: created_protocol(properties),
        metadata: MetadataView {
            name: None,
            description: None,
            schema,
            partition_columns,
            created_time,
            configuration: application_properties(properties),
        },
    }
}

/// How the names of the properties relate that Delta has of its own.
proof fn lemma_delta_names(key: Seq<char>)
    ensures
        is_signal(key) ==> is_delta_property(key),
        is_delta_property(MIN_READER_VERSION_PROP@),
        is_delta_property(MIN_WRITER_VERSION_PROP@),
        !is_signal(MIN_READER_VERSION_PROP@),
        !is_signal(MIN_WRITER_VERSION_PROP@),
        MIN_READER_VERSION_PROP@ != MIN_WRITER_VERSION_PROP@,
{
    reveal_strlit("delta.");
    reveal_strlit("delta.feature.");
    reveal_strlit("delta.minReaderVersion");
    reveal_strlit("delta.minWriterVersion");
    assert("delta."@ =~= "delta.feature."@.take(6));
    assert("delta."@ =~= "delta.minReaderVersion"@.take(6));
    assert("delta."@ =~= "delta.minWriterVersion"@.take(6));
    assert("delta.feature."@[6] == 'f');
    assert("delta.minReaderVersion"@[6] == 'm');
    assert("delta.minWriterVersion"@[6] == 'm');
    assert("delta.minReaderVersion"@[9] == 'R');
    assert("delta.minWriterVersion"@[9] == 'W');
    if is_signal(key) {
        assert(key.take(6) =~= key.take(14).take(6));
    }
}

/// Signals are read the same without a property that is no signal.
proof fn lemma_signals_without_key(entries: Entries, key: Seq<char>)
    requires
        !is_signal(key),
    ensures
        parsed_signals(without_key(entries, key)) == parsed_signals(entries),
    decreases entries.len(),
{
    reveal(Seq::filter);
    if entries.len() > 0 {
        let front = entries.drop_last();
        let left = without_key(entries, key);
        lemma_signals_without_key(front, key);
        if entries.last().0 != key {
            assert(left.drop_last() =~= without_key(front, key));
        }
    }
}

/// Where all properties are allowed, those that are neither signals nor version requests are the
/// properties of applications.
proof fn lemma_what_is_left(entries: Entries)
    requires
        forall|i: int| 0 <= i < entries.len() ==> property_allowed(#[trigger] entries[i].0),
    ensures
        without_signals(without_versions(entries)) == application_properties(entries),
    decreases entries.len(),
{
    reveal(Seq::filter);
    if entries.len() > 0 {
        let front = entries.drop_last();
        let last = entries[entries.len() - 1];
        assert forall|i: int| 0 <= i < front.len() implies property_allowed(
            #[trigger] front[i].0,
        ) by {
            assert(front[i] == entries[i]);
        }
        lemma_what_is_left(front);
        lemma_delta_names(last.0);
        assert(property_allowed(entries[entries.len() - 1].0));
        let reader = MIN_READER_VERSION_PROP@;
        if last.0 != reader {
            assert(without_key(entries, reader).drop_last() =~= without_key(front, reader));
            if last.0 != MIN_WRITER_VERSION_PROP@ {
                assert(without_versions(entries).drop_last() =~= without_versions(front));
            }
        }
    }
}

/// Signals that all ask for domain metadata put it on the bare protocol, once.
proof fn lemma_domain_metadata_signals(signals: Seq<(FeatureView, Seq<char>)>)
    requires
        forall|i: int| 0 <= i < signals.len() ==> feature_allowed(#[trigger] signals[i].0),
    ensures
        with_signal_features(bare_protocol(), signals) == Ok::<ProtocolView, ErrorView>(
            if signals.len() == 0 {
                bare_protocol()
            } else {
                bare_protocol().plus(TableFeature::DomainMetadata@)
            },
        ),
    decreases signals.len(),
{
    if signals.len() > 0 {
        let front = signals.drop_last();
        assert forall|i: int| 0 <= i < front.len() implies feature_allowed(
            #[trigger] front[i].0,
        ) by {
            assert(front[i] == signals[i]);
        }
        lemma_domain_metadata_signals(front);
        assert(feature_allowed(signals[signals.len() - 1].0));
        law_listing_a_feature(
            bare_protocol(),
            TableFeature::DomainMetadata@,
            TableFeature::DomainMetadata@,
        );
        lemma_clustering_features_are_for_writers();
    }
}

/// There are signals to read exactly if a property is one.
proof fn lemma_signals_present(entries: Entries)
    ensures
        signals_of(entries).len() > 0 <==> any_signal(entries),
    decreases entries.len(),
{
    if entries.len() > 0 {
        let front = entries.drop_last();
        lemma_signals_present(front);
        if any_signal(front) {
            let i = choose|i: int| 0 <= i < front.len() && is_signal(#[trigger] front[i].0);
            assert(is_signal(entries[i].0));
        }
        if any_signal(entries) && !is_signal(entries[entries.len() - 1].0) {
            let i = choose|i: int| 0 <= i < entries.len() && is_signal(#[trigger] entries[i].0);
            assert(is_signal(front[i].0));
        }
    }
}

/// Each signal that is read stems from a property.
proof fn lemma_signal_source(entries: Entries, j: int) -> (i: int)
    requires
        0 <= j < signals_of(entries).len(),
    ensures
        0 <= i < entries.len(),
        is_signal(entries[i].0),
        signals_of(entries)[j] == (feature_named(signal_feature_name(entries[i].0)), entries[i].0),
    decreases entries.len(),
{
    let front = entries.drop_last();
    if j < signals_of(front).len() {
        let i = lemma_signal_source(front, j);
        assert(front[i] == entries[i]);
        i
    } else {
        entries.len() - 1
    }
}

/// A signal for domain metadata has the name that asks for it.
proof fn lemma_domain_metadata_key(key: Seq<char>)
    requires
        is_signal(key),
        feature_allowed(feature_named(signal_feature_name(key))),
    ensures
        key == signal_key(TableFeature::DomainMetadata@.name),
{
    let prefix = SET_TABLE_FEATURE_SUPPORTED_PREFIX@;
    assert(key =~= prefix + key.skip(prefix.len() as int));
}

/// The name that asks for domain metadata is a signal.
proof fn lemma_domain_metadata_is_signal()
    ensures
        is_signal(signal_key(TableFeature::DomainMetadata@.name)),
{
    let prefix = SET_TABLE_FEATURE_SUPPORTED_PREFIX@;
    assert(signal_key(TableFeature::DomainMetadata@.name).take(prefix.len() as int) =~= prefix);
}

/// Where the signals can be read and asked for, domain metadata is asked for exactly if there is
/// a signal.
proof fn lemma_signals_ask_for_domain_metadata(properties: Entries)
    requires
        parsed_signals(properties) is Ok,
        forall|i: int|
            0 <= i < signals_of(properties).len() ==> feature_allowed(
                #[trigger] signals_of(properties)[i].0,
            ),
    ensures
        domain_metadata_asked(properties) <==> any_signal(properties),
{
    let asked = signal_key(TableFeature::DomainMetadata@.name);
    let flaw = |e: (Seq<char>, Seq<char>)| signal_flaw(e);
    lemma_domain_metadata_is_signal();
    lemma_lookup_present(properties, asked);
    if domain_metadata_asked(properties) {
        let i = choose|i: int| 0 <= i < properties.len() && #[trigger] properties[i].0 == asked;
        assert(is_signal(properties[i].0));
    }
    if any_signal(properties) {
        lemma_signals_present(properties);
        assert(feature_allowed(signals_of(properties)[0].0));
        let i = lemma_signal_source(properties, 0);
        lemma_domain_metadata_key(properties[i].0);
        assert(has_key(properties, asked));
        let k = lemma_first_position(properties, asked);
        lemma_lookup_at(properties, asked, k);
        lemma_first_error_none(properties, flaw);
        assert(flaw(properties[k]) is None);
    }
}

/// The run of the selected transforms on a table under construction.
proof fn lemma_run_of_selection(start: ConfigView)
    requires
        start.protocol == bare_protocol(),
    ensures
        ({
            let properties = start.metadata.configuration;
            run_all(built_in_selection(properties), start, Seq::empty()) == match creation_flaw(
                properties,
            ) {
                Some(e) => Err::<OutputView, ErrorView>(e),
                None => Ok(
                    plain_output(
                        ConfigView {
                            protocol: created_protocol(properties),
                            metadata: MetadataView {
                                configuration: application_properties(properties),
                                ..start.metadata
                            },
                        },
                    ),
                ),
            }
        }),
{
    let properties = start.metadata.configuration;
    let none = Seq::<DomainMetadataView>::empty();
    assert(none + none =~= none);
    let all = built_in_selection(properties);
    let versioned = ConfigView {
        metadata: MetadataView {
            configuration: without_versions(properties),
            ..start.metadata
        },
        ..start
    };
    lemma_delta_names(Seq::empty());
    lemma_signals_without_key(properties, MIN_READER_VERSION_PROP@);
    lemma_signals_without_key(
        without_key(properties, MIN_READER_VERSION_PROP@),
        MIN_WRITER_VERSION_PROP@,
    );
    assert(parsed_signals(without_versions(properties)) == parsed_signals(properties));
    let rest = all.drop_first();
    let last = rest.drop_first();
    assert(all[0] == TransformView::DeltaPropertyValidation);
    assert(rest[0] == TransformView::ProtocolVersion);
    let property_flaws = |e: (Seq<char>, Seq<char>)| property_flaw(e);
    if first_error(properties, property_flaws) is None && version_flaw(properties) is None {
        assert(run_all(all, start, none) == run_all(rest, start, none));
        assert(run_all(rest, start, none) == run_all(last, versioned, none));
        assert(last =~= signal_steps(properties));
        lemma_first_error_none(properties, property_flaws);
        assert forall|i: int| 0 <= i < properties.len() implies property_allowed(
            #[trigger] properties[i].0,
        ) by {
            assert(property_flaws(properties[i]) is None);
        }
        lemma_what_is_left(properties);
        lemma_run_of_signals(properties, versioned);
    }
}

/// The transforms that signals call for.
spec fn signal_steps(properties: Entries) -> Seq<TransformView> {
    (if any_signal(properties) {
        seq![TransformView::FeatureSignals]
    } else {
        Seq::empty()
    }) + (if domain_metadata_asked(properties) {
        seq![TransformView::DomainMetadata]
    } else {
        Seq::empty()
    })
}

/// The run of the transforms that signals call for, where the properties have been checked and
/// the versions set.
proof fn lemma_run_of_signals(properties: Entries, config: ConfigView)
    requires
        config.protocol == bare_protocol(),
        parsed_signals(config.metadata.configuration) == parsed_signals(properties),
    ensures
        run_all(signal_steps(properties), config, Seq::empty()) == match parsed_signals(
            properties,
        ) {
            Err(e) => Err::<OutputView, ErrorView>(e),
            Ok(signals) => match first_error(signals, |s| feature_flaw(s)) {
                Some(e) => Err(e),
                None => Ok(
                    plain_output(
                        ConfigView {
                            protocol: created_protocol(properties),
                            metadata: MetadataView {
                                configuration: without_signals(config.metadata.configuration),
                                ..config.metadata
                            },
                        },
                    ),
                ),
            },
        },
{
    reveal_with_fuel(run_all, 3);
    let none = Seq::<DomainMetadataView>::empty();
    assert(none + none =~= none);
    let entries = config.metadata.configuration;
    let steps = signal_steps(properties);
    let domain = TableFeature::DomainMetadata@;
    let signal_flaws = |e: (Seq<char>, Seq<char>)| signal_flaw(e);
    let feature_flaws = |s: (FeatureView, Seq<char>)| feature_flaw(s);
    lemma_signals_present(properties);
    lemma_signals_present(entries);
    match parsed_signals(properties) {
        Err(_) => {
            lemma_first_error_none(properties, signal_flaws);
            let i = choose|i: int|
                0 <= i < properties.len() && signal_flaws(#[trigger] properties[i]) is Some;
            assert(is_signal(properties[i].0));
            assert(steps[0] == TransformView::FeatureSignals);
        },
        Ok(signals) => {
            if first_error(signals, feature_flaws) is Some {
                assert(signals.len() > 0);
                assert(steps[0] == TransformView::FeatureSignals);
            } else {
                lemma_first_error_none(signals, feature_flaws);
                assert forall|i: int| 0 <= i < signals.len() implies feature_allowed(
                    #[trigger] signals[i].0,
                ) by {
                    assert(feature_flaws(signals[i]) is None);
                }
                lemma_signals_ask_for_domain_metadata(properties);
                lemma_domain_metadata_signals(signals);
                if any_signal(properties) {
                    assert(steps =~= seq![
                        TransformView::FeatureSignals,
                        TransformView::DomainMetadata,
                    ]);
                    assert(steps.drop_first() =~= seq![TransformView::DomainMetadata]);
                    assert(steps.drop_first().drop_first() =~= Seq::empty());
                    law_listing_a_feature(bare_protocol(), domain, domain);
                    lemma_clustering_features_are_for_writers();
                    assert(Seq::<FeatureView>::empty().push(domain) =~= seq![domain]);
                    assert(bare_protocol().plus(domain) == created_protocol(properties));
                } else {
                    assert(steps =~= Seq::empty());
                    lemma_without_signals_unchanged(entries);
                }
            }
        },
    }
}

/// Where no property is a signal, there is none to take away.
proof fn lemma_without_signals_unchanged(entries: Entries)
    requires
        signals_of(entries).len() == 0,
    ensures
        without_signals(entries) == entries,
    decreases entries.len(),
{
    reveal(Seq::filter);
    if entries.len() > 0 {
        lemma_without_signals_unchanged(entries.drop_last());
        assert(entries.drop_last().push(entries.last()) =~= entries);
    }
}

/// What comes of table creation: the properties decide whether a table can be created, and a
/// created table has the version of table features, domain metadata as its only feature and only
/// if asked for, the properties of applications and no others, the schema as it was given, and no
/// domain metadata.
pub proof fn law_table_creation(
    schema: StructType,
    partition_columns: Seq<Seq<char>>,
    properties: Entries,
    created_time: i64,
)
    ensures
        ordered_run(
            built_in_selection(properties),
            initial_config(schema, partition_columns, properties, created_time),
        ) == match creation_flaw(properties) {
            Some(e) => Err::<OutputView, ErrorView>(e),
            None => Ok(
                plain_output(created_config(schema, partition_columns, properties, created_time)),
            ),
        },
{
    lemma_selection_keeps_its_order(properties);
    lemma_run_of_selection(initial_config(schema, partition_columns, properties, created_time));
}

/// The transforms of table creation do not depend on each other.
proof fn lemma_selection_keeps_its_order(properties: Entries)
    ensures
        ordered(built_in_selection(properties)) == Some(built_in_selection(properties)),
{
    let selected = built_in_selection(properties);
    assert(respects_dependencies(selected)) by {
        assert forall|k: int| 0 <= k < selected.len() implies is_ready(
            #[trigger] selected[k],
            selected.skip(k),
        ) by {
            assert(selected[k].needs().len() == 0);
        }
    }
    law_respectful_order_is_kept(selected);
}

/// Properties are checked before anything else is done: whatever the configuration, the first
/// property in it that is not allowed is the error.
pub proof fn law_properties_are_checked_first(properties: Entries, config: ConfigView)
    requires
        first_error(config.metadata.configuration, |e| property_flaw(e)) is Some,
    ensures
        ordered_run(built_in_selection(properties), config) == Err::<OutputView, ErrorView>(
            first_error(config.metadata.configuration, |e| property_flaw(e))->0,
        ),
{
    lemma_selection_keeps_its_order(properties);
    assert(built_in_selection(properties)[0] == TransformView::DeltaPropertyValidation);
}

/// What comes of a request: the first of its errors, or a table whose protocol and metadata its
/// properties say.
pub proof fn law_request_outcome(
    builder: BuilderView,
    table_url: Seq<char>,
    log_root: Result<Seq<char>, ErrorView>,
    existence: Option<ErrorView>,
    now: Result<i64, ErrorView>,
)
    ensures
        transaction_for(builder, table_url, log_root, existence, now) == if log_root is Err {
            Err::<TransactionView, ErrorView>(log_root->Err_0)
        } else if existence is Some {
            Err(existence->0)
        } else if builder.schema.fields@.len() == 0 {
            Err(ErrorView::Generic("Schema cannot be empty"@))
        } else if now is Err {
            Err(now->Err_0)
        } else if creation_flaw(builder.table_properties) is Some {
            Err(creation_flaw(builder.table_properties)->0)
        } else {
            let created = created_config(
                builder.schema,
                Seq::empty(),
                builder.table_properties,
                now->Ok_0,
            );
            Ok(
                TransactionView {
                    table_url,
                    log_root: log_root->Ok_0,
                    engine_info: builder.engine_info,
                    protocol: created.protocol,
                    metadata: created.metadata,
                    domain_metadata: Seq::empty(),
                },
            )
        },
{
    if now is Ok {
        law_table_creation(builder.schema, Seq::empty(), builder.table_properties, now->Ok_0);
    }
}

/// A created table stores each property of an application with its value, and none of Delta's own.
pub proof fn law_application_properties_are_stored(properties: Entries, key: Seq<char>)
    ensures
        lookup(application_properties(properties), key) == if is_delta_property(key) {
            None
        } else {
            lookup(properties, key)
        },
    decreases properties.len(),
{
    reveal(Seq::filter);
    if properties.len() > 0 {
        let front = properties.drop_last();
        law_application_properties_are_stored(front, key);
        lemma_lookup_push(front, properties.last(), key);
        assert(front.push(properties.last()) =~= properties);
        if !is_delta_property(properties.last().0) {
            lemma_lookup_push(application_properties(front), properties.last(), key);
        }
    }
}

/// Whether a property by itself does not stand in the way of a new table.
pub open spec fn is_acceptable(entry: (Seq<char>, Seq<char>)) -> bool {
    ||| !is_delta_property(entry.0)
    ||| entry == (
        signal_key(TableFeature::DomainMetadata@.name),
        SET_TABLE_FEATURE_SUPPORTED_VALUE@,
    )
    ||| entry.0 == MIN_READER_VERSION_PROP@ && u8_value(entry.1) == Some(
        TABLE_FEATURES_MIN_READER_VERSION as u8,
    )
    ||| entry.0 == MIN_WRITER_VERSION_PROP@ && u8_value(entry.1) == Some(
        TABLE_FEATURES_MIN_WRITER_VERSION as u8,
    )
}

/// The value of a property that occurs once.
proof fn lemma_lookup_only(entries: Entries, i: int)
    requires
        keys_differ(entries),
        0 <= i < entries.len(),
    ensures
        lookup(entries, entries[i].0) == Some(entries[i].1),
{
    lemma_lookup_at(entries, entries[i].0, i);
}

/// A table can be created exactly if each of its properties is acceptable: it is the property of
/// an application, or it asks for domain metadata, or it asks for the version of table features.
pub proof fn law_creation_succeeds(properties: Entries)
    requires
        keys_differ(properties),
    ensures
        creation_flaw(properties) is None <==> forall|i: int|
            0 <= i < properties.len() ==> is_acceptable(#[trigger] properties[i]),
{
    let property_flaws = |e: (Seq<char>, Seq<char>)| property_flaw(e);
    let signal_flaws = |e: (Seq<char>, Seq<char>)| signal_flaw(e);
    let feature_flaws = |s: (FeatureView, Seq<char>)| feature_flaw(s);
    let signals = signals_of(properties);
    let reader = MIN_READER_VERSION_PROP@;
    let writer = MIN_WRITER_VERSION_PROP@;
    lemma_first_error_none(properties, property_flaws);
    lemma_first_error_none(properties, signal_flaws);
    lemma_first_error_none(signals, feature_flaws);
    lemma_delta_names(Seq::empty());
    lemma_domain_metadata_is_signal();
    lemma_lookup_present(properties, reader);
    lemma_lookup_present(properties, writer);
    if creation_flaw(properties) is None {
        assert forall|i: int| 0 <= i < properties.len() implies is_acceptable(
            #[trigger] properties[i],
        ) by {
            let entry = properties[i];
            lemma_lookup_only(properties, i);
            assert(property_flaws(properties[i]) is None);
            assert(signal_flaws(properties[i]) is None);
            if is_signal(entry.0) {
                let j = lemma_signal_read(properties, i);
                assert(feature_flaws(signals[j]) is None);
                lemma_domain_metadata_key(entry.0);
            }
        }
    }
    if forall|i: int| 0 <= i < properties.len() ==> is_acceptable(#[trigger] properties[i]) {
        assert forall|i: int| 0 <= i < properties.len() implies property_flaws(
            #[trigger] properties[i],
        ) is None by {
            assert(is_acceptable(properties[i]));
        }
        let name = TableFeature::DomainMetadata@.name;
        assert(signal_feature_name(signal_key(name)) =~= name);
        assert forall|i: int| 0 <= i < properties.len() implies signal_flaws(
            #[trigger] properties[i],
        ) is None by {
            assert(is_acceptable(properties[i]));
            lemma_delta_names(properties[i].0);
        }
        assert forall|j: int| 0 <= j < signals.len() implies feature_flaws(
            #[trigger] signals[j],
        ) is None by {
            let i = lemma_signal_source(properties, j);
            assert(is_acceptable(properties[i]));
            lemma_delta_names(properties[i].0);
        }
        if has_key(properties, reader) {
            let i = choose|i: int|
                0 <= i < properties.len() && #[trigger] properties[i].0 == reader;
            lemma_lookup_only(properties, i);
            assert(is_acceptable(properties[i]));
        }
        if has_key(properties, writer) {
            let i = choose|i: int|
                0 <= i < properties.len() && #[trigger] properties[i].0 == writer;
            lemma_lookup_only(properties, i);
            assert(is_acceptable(properties[i]));
        }
    }
}

/// Each property that is a signal is read.
proof fn lemma_signal_read(entries: Entries, i: int) -> (j: int)
    requires
        0 <= i < entries.len(),
        is_signal(entries[i].0),
    ensures
        0 <= j < signals_of(entries).len(),
        signals_of(entries)[j] == (feature_named(signal_feature_name(entries[i].0)), entries[i].0),
    decreases entries.len(),
{
    let front = entries.drop_last();
    if i < front.len() {
        assert(front[i] == entries[i]);
        lemma_signal_read(front, i)
    } else {
        signals_of(front).len() as int
    }
}

/// The order of the properties does not matter: neither for whether a table can be created, nor
/// for its protocol, nor for what it stores under a key.
pub proof fn law_order_of_properties_does_not_matter(a: Entries, b: Entries, key: Seq<char>)
    requires
        keys_differ(a),
        keys_differ(b),
        a.to_multiset() == b.to_multiset(),
    ensures
        creation_flaw(a) is None <==> creation_flaw(b) is None,
        created_protocol(a) == created_protocol(b),
        lookup(application_properties(a), key) == lookup(application_properties(b), key),
{
    lemma_acceptable_in_any_order(a, b);
    lemma_acceptable_in_any_order(b, a);
    law_creation_succeeds(a);
    law_creation_succeeds(b);
    law_lookup_in_any_order(a, b, signal_key(TableFeature::DomainMetadata@.name));
    law_lookup_in_any_order(a, b, key);
    law_application_properties_are_stored(a, key);
    law_application_properties_are_stored(b, key);
}

proof fn lemma_acceptable_in_any_order(a: Entries, b: Entries)
    requires
        a.to_multiset() == b.to_multiset(),
    ensures
        (forall|i: int| 0 <= i < a.len() ==> is_acceptable(#[trigger] a[i])) ==> (forall|i: int|
            0 <= i < b.len() ==> is_acceptable(#[trigger] b[i])),
{
    broadcast use vstd::seq_lib::group_to_multiset_ensures;

    if forall|i: int| 0 <= i < a.len() ==> is_acceptable(#[trigger] a[i]) {
        assert forall|i: int| 0 <= i < b.len() implies is_acceptable(#[trigger] b[i]) by {
            assert(b.contains(b[i]));
            assert(b.to_multiset().contains(b[i]));
            assert(a.contains(b[i]));
            let j = choose|j: int| 0 <= j < a.len() && a[j] == b[i];
            assert(is_acceptable(a[j]));
        }
    }
}

/// Properties of applications are always allowed: with no others a table can be created, on the
/// bare protocol and with all of them stored.
pub proof fn law_application_properties_are_allowed(properties: Entries)
    requires
        forall|i: int| 0 <= i < properties.len() ==> !is_delta_property(#[trigger] properties[i].0),
    ensures
        creation_flaw(properties) is None,
        application_properties(properties) == properties,
        created_protocol(properties) == bare_protocol(),
{
    let property_flaws = |e: (Seq<char>, Seq<char>)| property_flaw(e);
    let signal_flaws = |e: (Seq<char>, Seq<char>)| signal_flaw(e);
    let asked = signal_key(TableFeature::DomainMetadata@.name);
    lemma_first_error_none(properties, property_flaws);
    lemma_first_error_none(properties, signal_flaws);
    lemma_delta_names(asked);
    lemma_domain_metadata_is_signal();
    lemma_lookup_present(properties, MIN_READER_VERSION_PROP@);
    lemma_lookup_present(properties, MIN_WRITER_VERSION_PROP@);
    lemma_lookup_present(properties, asked);
    assert forall|i: int| 0 <= i < properties.len() implies property_flaws(
        #[trigger] properties[i],
    ) is None && signal_flaws(properties[i]) is None && !is_signal(properties[i].0) by {
        assert(!is_delta_property(properties[i].0));
        lemma_delta_names(properties[i].0);
    }
    lemma_signals_present(properties);
    lemma_all_applications(properties);
}

proof fn lemma_all_applications(properties: Entries)
    requires
        forall|i: int| 0 <= i < properties.len() ==> !is_delta_property(#[trigger] properties[i].0),
    ensures
        application_properties(properties) == properties,
    decreases properties.len(),
{
    reveal(Seq::filter);
    if properties.len() > 0 {
        let front = properties.drop_last();
        assert forall|i: int| 0 <= i < front.len() implies !is_delta_property(
            #[trigger] front[i].0,
        ) by {
            assert(front[i] == properties[i]);
        }
        lemma_all_applications(front);
        assert(!is_delta_property(properties[properties.len() - 1].0));
        assert(front.push(properties.last()) =~= properties);
    }
}

/// Where a listing found a file there is a table already, whatever the path; where it found none,
/// or a missing file or directory, there is none; and where it failed otherwise, its own error is
/// the answer.
pub proof fn law_existing_tables_are_found<T>(listing: LogListing<T>, table_path: Seq<char>)
    ensures
        existence_flaw(listing, table_path) is None <==> match listing {
            Ok(None) => true,
            Ok(Some(Ok(_))) => false,
            Ok(Some(Err(e))) => e is FileNotFound,
            Err(e) => e is FileNotFound,
        },
        listing matches Ok(Some(Ok(_))) ==> existence_flaw(listing, table_path) == Some(
            ErrorView::Generic("Table already exists at path: "@ + table_path),
        ),
        listing matches Ok(Some(Err(e))) ==> !(e is FileNotFound) ==> existence_flaw(
            listing,
            table_path,
        ) == Some(e@),
        listing matches Err(e) ==> !(e is FileNotFound) ==> existence_flaw(listing, table_path)
            == Some(e@),
{
}

/// No request builds a table where a file was found in the log, and none where the listing failed
/// other than for a missing file: whatever the path, the URLs, the schema, the properties and the
/// time.
pub proof fn law_existing_tables_are_not_created_again<T>(
    builder: BuilderView,
    table_url: Seq<char>,
    log_root: Result<Seq<char>, ErrorView>,
    listing: LogListing<T>,
    now: Result<i64, ErrorView>,
)
    requires
        match listing {
            Ok(None) => false,
            Ok(Some(Ok(_))) => true,
            Ok(Some(Err(e))) => !(e is FileNotFound),
            Err(e) => !(e is FileNotFound),
        },
    ensures
        transaction_for(
            builder,
            table_url,
            log_root,
            existence_flaw(listing, builder.path),
            now,
        ) is Err,
        log_root is Ok && (listing matches Ok(Some(Ok(_)))) ==> transaction_for(
            builder,
            table_url,
            log_root,
            existence_flaw(listing, builder.path),
            now,
        ) == Err::<TransactionView, ErrorView>(
            ErrorView::Generic("Table already exists at path: "@ + builder.path),
        ),
{
    law_existing_tables_are_found(listing, builder.path);
}

/// A schema without fields makes no table.
pub proof fn law_a_table_has_columns(
    builder: BuilderView,
    table_url: Seq<char>,
    log_root: Result<Seq<char>, ErrorView>,
    existence: Option<ErrorView>,
    now: Result<i64, ErrorView>,
)
    requires
        builder.schema.fields@.len() == 0,
    ensures
        transaction_for(builder, table_url, log_root, existence, now) is Err,
        log_root is Ok && existence is None ==> transaction_for(
            builder,
            table_url,
            log_root,
            existence,
            now,
        ) == Err::<TransactionView, ErrorView>(ErrorView::Generic("Schema cannot be empty"@)),
{
}

/// When a request that finds no table makes one: exactly if the log has a URL, the schema has a
/// field, the clock can be read, and each property is the property of an application, the request
/// for domain metadata with the value `supported`, or a request for reader version 3 or writer
/// version 7.
pub proof fn law_which_requests_make_a_table(
    builder: BuilderView,
    table_url: Seq<char>,
    log_root: Result<Seq<char>, ErrorView>,
    now: Result<i64, ErrorView>,
)
    requires
        keys_differ(builder.table_properties),
    ensures
        transaction_for(builder, table_url, log_root, None, now) is Ok <==> {
            &&& log_root is Ok
            &&& builder.schema.fields@.len() > 0
            &&& now is Ok
            &&& forall|i: int|
                0 <= i < builder.table_properties.len() ==> {
                    let (key, value) = #[trigger] builder.table_properties[i];
                    ||| !"delta."@.is_prefix_of(key)
                    ||| key == "delta.feature."@ + "domainMetadata"@ && value == "supported"@
                    ||| key == "delta.minReaderVersion"@ && u8_value(value) == Some(3u8)
                    ||| key == "delta.minWriterVersion"@ && u8_value(value) == Some(7u8)
                }
        },
{
    let properties = builder.table_properties;
    law_request_outcome(builder, table_url, log_root, None, now);
    law_creation_succeeds(properties);
    if forall|i: int| 0 <= i < properties.len() ==> is_acceptable(#[trigger] properties[i]) {
        assert forall|i: int| 0 <= i < properties.len() implies {
            let (key, value) = #[trigger] properties[i];
            ||| !"delta."@.is_prefix_of(key)
            ||| key == "delta.feature."@ + "domainMetadata"@ && value == "supported"@
            ||| key == "delta.minReaderVersion"@ && u8_value(value) == Some(3u8)
            ||| key == "delta.minWriterVersion"@ && u8_value(value) == Some(7u8)
        } by {
            assert(is_acceptable(properties[i]));
        }
    }
}

/// What table a request makes: at the given URLs and by the given engine; at reader version 3 and
/// writer version 7, without reader features, and with domain metadata as its one writer feature
/// exactly if that was asked for; with the schema and the time that were given, no partition
/// columns, no name and no description; with each property of an application under its key and
/// none of Delta's own; and without domain metadata to commit.
pub proof fn law_what_table_a_request_makes(
    builder: BuilderView,
    table_url: Seq<char>,
    log_root: Result<Seq<char>, ErrorView>,
    existence: Option<ErrorView>,
    now: Result<i64, ErrorView>,
    key: Seq<char>,
)
    requires
        keys_differ(builder.table_properties),
    ensures
        transaction_for(builder, table_url, log_root, existence, now) matches Ok(made) ==> {
            &&& existence is None
            &&& made.table_url == table_url
            &&& log_root == Ok::<Seq<char>, ErrorView>(made.log_root)
            &&& made.engine_info == builder.engine_info
            &&& made.protocol.min_reader_version == 3
            &&& made.protocol.min_writer_version == 7
            &&& made.protocol.reader_features == Some(Seq::<FeatureView>::empty())
            &&& builder.table_properties.contains(
                ("delta.feature."@ + "domainMetadata"@, "supported"@),
            ) ==> made.protocol.writer_features == Some(
                seq![FeatureView { known: true, name: "domainMetadata"@ }],
            )
            &&& !builder.table_properties.contains(
                ("delta.feature."@ + "domainMetadata"@, "supported"@),
            ) ==> made.protocol.writer_features == Some(Seq::<FeatureView>::empty())
            &&& made.metadata.schema == builder.schema
            &&& now == Ok::<i64, ErrorView>(made.metadata.created_time)
            &&& made.metadata.partition_columns.len() == 0
            &&& made.metadata.name is None
            &&& made.metadata.description is None
            &&& lookup(made.metadata.configuration, key) == if "delta."@.is_prefix_of(key) {
                None
            } else {
                lookup(builder.table_properties, key)
            }
            &&& made.domain_metadata.len() == 0
        },
{
    let properties = builder.table_properties;
    law_request_outcome(builder, table_url, log_root, existence, now);
    law_application_properties_are_stored(properties, key);
    law_lookup_finds_entries(properties, "delta.feature."@ + "domainMetadata"@, "supported"@);
}

/// A request whose properties are allowed is answered with what is wrong with its versions before
/// anything that is wrong with its signals.
pub proof fn law_versions_are_answered_before_signals(
    schema: StructType,
    partition_columns: Seq<Seq<char>>,
    properties: Entries,
    created_time: i64,
)
    requires
        forall|i: int| 0 <= i < properties.len() ==> property_allowed(#[trigger] properties[i].0),
        version_flaw(properties) is Some,
    ensures
        ordered_run(
            built_in_selection(properties),
            initial_config(schema, partition_columns, properties, created_time),
        ) == Err::<OutputView, ErrorView>(version_flaw(properties)->0),
{
    let flaw = |e: (Seq<char>, Seq<char>)| property_flaw(e);
    law_table_creation(schema, partition_columns, properties, created_time);
    lemma_first_error_none(properties, flaw);
    assert forall|i: int| 0 <= i < properties.len() implies flaw(#[trigger] properties[i]) is None by {
        assert(property_allowed(properties[i].0));
    }
}

/// The log of a table is what joining `_delta_log/` to the table's URL gives; where that fails, the
/// table's URL is what is wrong.
pub proof fn law_where_logs_are(table_url: Seq<char>)
    ensures
        log_url(table_url) == match joined_url(table_url, "_delta_log/"@) {
            Some(joined) => Ok::<Seq<char>, ErrorView>(joined),
            None => Err(ErrorView::InvalidUrl(table_url)),
        },
{
}

/// Results and pairs stand for what they hold: a transaction agrees with one value only, texts and
/// times are taken as they are, and pairs one for one.
pub proof fn law_results_are_taken_as_they_are(
    made: Transaction,
    text: String,
    time: i64,
    e: DeltaError,
    expected: Result<TransactionView, ErrorView>,
    pairs: Seq<(&str, &str)>,
    i: int,
)
    ensures
        transaction_agrees(Ok(made), expected) <==> expected == Ok::<TransactionView, ErrorView>(
            made@,
        ),
        transaction_agrees(Err(e), expected) <==> expected == Err::<TransactionView, ErrorView>(e@),
        made@.table_url == made.table_url@,
        made@.log_root == made.log_root@,
        made@.engine_info == made.engine_info@,
        made@.protocol == made.protocol@,
        made@.metadata == made.metadata@,
        made@.domain_metadata.len() == made.domain_metadata@.len(),
        0 <= i < made.domain_metadata@.len() ==> made@.domain_metadata[i]
            == made.domain_metadata@[i]@,
        text_result(Ok(text)) == Ok::<Seq<char>, ErrorView>(text@),
        text_result(Err(e)) == Err::<Seq<char>, ErrorView>(e@),
        time_result(Ok(time)) == Ok::<i64, ErrorView>(time),
        time_result(Err(e)) == Err::<i64, ErrorView>(e@),
        pair_entries(pairs).len() == pairs.len(),
        0 <= i < pairs.len() ==> pair_entries(pairs)[i] == (pairs[i].0@, pairs[i].1@),
{
}

} // verus!
