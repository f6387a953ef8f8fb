//! What each transform answers, for every configuration.

use crate::actions::{law_listing_a_feature, DomainMetadataView, ProtocolView};
use crate::clustering::json_object_text;
use crate::error::{
    first_error, law_first_error_is_the_first, lemma_first_error_none, DeltaError, ErrorView,
};
use crate::schema::{column_text, StructType};
use crate::table_features::{
    feature_named, law_what_names_stand_for, lemma_clustering_features_are_for_writers,
    FeatureView, TableFeature,
};
use crate::table_properties::{lookup, Entries};
use crate::table_protocol_metadata_config::{property_allowed, ConfigView};
use crate::table_transformation::transform_laws::{
    law_signal_features_are_listed, law_signals_are_taken_away,
    law_version_requests_are_taken_away,
};
use crate::table_transformation::transforms::{
    column_flaw, feature_flaw, is_signal, parsed_signals, property_flaw, requested_version,
    signal_feature_name, signal_flaw, signal_views, signals_of, version_flaw,
    with_signal_features, Transform, TransformView,
};
use crate::table_transformation::{
    check_agrees, output_agrees, OutputView, TransformDependency, TransformId, TransformOutput,
};
use crate::text::{decimal, u8_value};
use vstd::prelude::*;

verus! {

// ---------------------------------------------------------------------------------------------
// Results and names
// ---------------------------------------------------------------------------------------------

/// A check agrees with one answer only, and so does an output.
pub proof fn law_answers_are_unique(
    refusal: Option<ErrorView>,
    outcome: Result<OutputView, ErrorView>,
    out: TransformOutput,
    e: DeltaError,
)
    ensures
        check_agrees(Ok(()), refusal) <==> refusal is None,
        check_agrees(Err(e), refusal) <==> refusal == Some(e@),
        output_agrees(Ok(out), outcome) <==> outcome == Ok::<OutputView, ErrorView>(out@),
        output_agrees(Err(e), outcome) <==> outcome == Err::<OutputView, ErrorView>(e@),
        out@.config.protocol == out.config.protocol@,
        out@.config.metadata == out.config.metadata@,
        out@.domain_metadata.len() == out.domain_metadata@.len(),
{
}

/// Clustering depends on domain metadata, whatever its columns; no other transform depends on
/// anything. Each transform has its own name.
pub proof fn law_dependencies_of_transforms(t: TransformView)
    ensures
        t is Clustering ==> t.needs() == seq![
            TransformDependency::TransformRequired(TransformId::DomainMetadata),
        ],
        !(t is Clustering) ==> t.needs().len() == 0,
        t.id() == TransformId::DeltaPropertyValidation <==> t is DeltaPropertyValidation,
        t.id() == TransformId::ProtocolVersion <==> t is ProtocolVersion,
        t.id() == TransformId::FeatureSignals <==> t is FeatureSignals,
        t.id() == TransformId::DomainMetadata <==> t is DomainMetadata,
        t.id() == TransformId::Partitioning <==> t is Partitioning,
        t.id() == TransformId::Clustering <==> t is Clustering,
{
}

/// A transform stands for itself, with all of its columns.
pub proof fn law_transforms_stand_for_themselves(t: Transform)
    ensures
        t is DeltaPropertyValidation <==> t@ is DeltaPropertyValidation,
        t is ProtocolVersion <==> t@ is ProtocolVersion,
        t is FeatureSignals <==> t@ is FeatureSignals,
        t is DomainMetadata <==> t@ is DomainMetadata,
        t is Partitioning <==> t@ is Partitioning,
        t is Clustering <==> t@ is Clustering,
        t is Partitioning ==> t@->Partitioning_0 == t->Partitioning_0@,
        t is Clustering ==> t@->Clustering_0 == t->Clustering_0@,
{
}

// ---------------------------------------------------------------------------------------------
// Property validation
// ---------------------------------------------------------------------------------------------

/// A property of Delta's own that is no request is refused by name; every other one passes,
/// whatever its value.
pub proof fn law_refused_properties(key: Seq<char>, value: Seq<char>)
    ensures
        property_flaw((key, value)) == if "delta."@.is_prefix_of(key)
            && !"delta.feature."@.is_prefix_of(key) && key != "delta.minReaderVersion"@ && key
            != "delta.minWriterVersion"@ {
            Some(
                ErrorView::Generic(
                    "Property '"@ + key
                        + "' is not supported during CREATE TABLE. Only delta.feature.* signals and delta.minReaderVersion/delta.minWriterVersion are allowed."@,
                ),
            )
        } else {
            None
        },
{
}

/// A configuration passes the check of its properties exactly if each of them can be set, and the
/// first that cannot is the error; the check changes nothing.
pub proof fn law_property_check(config: ConfigView)
    ensures
        TransformView::DeltaPropertyValidation.refusal(config) is None <==> forall|i: int|
            0 <= i < config.metadata.configuration.len() ==> {
                let key = (#[trigger] config.metadata.configuration[i]).0;
                ||| !"delta."@.is_prefix_of(key)
                ||| "delta.feature."@.is_prefix_of(key)
                ||| key == "delta.minReaderVersion"@
                ||| key == "delta.minWriterVersion"@
            },
        TransformView::DeltaPropertyValidation.refusal(config) matches Some(e) ==> exists|i: int|
            0 <= i < config.metadata.configuration.len() && property_flaw(
                #[trigger] config.metadata.configuration[i],
            ) == Some(e) && forall|j: int|
                0 <= j < i ==> property_flaw(#[trigger] config.metadata.configuration[j]) is None,
        TransformView::DeltaPropertyValidation.outcome(config) matches Ok(out) && out.config == config
            && out.domain_metadata.len() == 0,
{
    let flaw = |e: (Seq<char>, Seq<char>)| property_flaw(e);
    let entries = config.metadata.configuration;
    lemma_first_error_none(entries, flaw);
    assert forall|i: int| 0 <= i < entries.len() implies (flaw(entries[i]) is None
        <==> property_allowed((#[trigger] entries[i]).0)) by {}
    if first_error(entries, flaw) is None {
        assert forall|i: int| 0 <= i < entries.len() implies property_allowed(
            (#[trigger] entries[i]).0,
        ) by {
            assert(flaw(entries[i]) is None);
        }
    }
    if let Some(e) = first_error(entries, flaw) {
        law_first_error_is_the_first(entries, flaw, e);
        let i = choose|i: int|
            0 <= i < entries.len() && flaw(#[trigger] entries[i]) == Some(e) && forall|j: int|
                0 <= j < i ==> flaw(#[trigger] entries[j]) is None;
        assert(property_flaw(entries[i]) == Some(e));
        assert forall|j: int| 0 <= j < i implies property_flaw(#[trigger] entries[j]) is None by {
            assert(flaw(entries[j]) is None);
        }
    }
}

// ---------------------------------------------------------------------------------------------
// Feature signals
// ---------------------------------------------------------------------------------------------

/// A property asks for a feature exactly if its name begins with `delta.feature.`, and the feature
/// is what the rest of the name says.
pub proof fn law_what_signals_ask_for(key: Seq<char>, name: Seq<char>)
    ensures
        is_signal(key) <==> "delta.feature."@.is_prefix_of(key),
        is_signal("delta.feature."@ + name),
        signal_feature_name("delta.feature."@ + name) == name,
        is_signal(key) ==> key == "delta.feature."@ + signal_feature_name(key),
{
    let prefix = "delta.feature."@;
    let n = prefix.len() as int;
    assert((prefix + name).take(n) =~= prefix);
    assert((prefix + name).skip(n) =~= name);
    if is_signal(key) {
        assert(key =~= prefix + key.skip(n));
    }
}

/// How a request for a feature is read: another value than `supported` is refused first, then a
/// name that no known feature has; a property that is no request is not read at all.
pub proof fn law_signal_answers(name: Seq<char>, key: Seq<char>, value: Seq<char>)
    ensures
        !"delta.feature."@.is_prefix_of(key) ==> signal_flaw((key, value)) is None,
        signal_flaw(("delta.feature."@ + name, value)) == if value != "supported"@ {
            Some(
                ErrorView::Generic(
                    "Invalid value '"@ + value + "' for '"@ + ("delta.feature."@ + name)
                        + "'. Only '"@ + "supported"@ + "' is allowed."@,
                ),
            )
        } else if !exists|f: TableFeature| !(f is Unknown) && #[trigger] f@.name == name {
            Some(
                ErrorView::Generic(
                    "Unknown table feature '"@ + name
                        + "'. Cannot create table with unsupported features."@,
                ),
            )
        } else {
            None
        },
{
    law_what_signals_ask_for(key, name);
    law_what_names_stand_for(name);
}

/// Every request is read, in the order of the properties, each with the feature that its name says
/// and with its own name; nothing else is.
pub proof fn law_one_more_signal(
    entries: Entries,
    name: Seq<char>,
    key: Seq<char>,
    value: Seq<char>,
)
    ensures
        signals_of(Entries::empty()).len() == 0,
        signals_of(entries.push(("delta.feature."@ + name, value))) == signals_of(entries).push(
            (feature_named(name), "delta.feature."@ + name),
        ),
        !"delta.feature."@.is_prefix_of(key) ==> signals_of(entries.push((key, value)))
            == signals_of(entries),
{
    law_what_signals_ask_for(key, name);
    assert(entries.push(("delta.feature."@ + name, value)).drop_last() =~= entries);
    assert(entries.push((key, value)).drop_last() =~= entries);
}

/// Requests are parsed exactly if each of them can be read, and the first that cannot is the error.
pub proof fn law_signals_are_parsed(entries: Entries)
    ensures
        parsed_signals(entries) is Ok <==> forall|i: int|
            0 <= i < entries.len() ==> signal_flaw(#[trigger] entries[i]) is None,
        parsed_signals(entries) matches Ok(signals) ==> signals == signals_of(entries),
        parsed_signals(entries) matches Err(e) ==> exists|i: int|
            0 <= i < entries.len() && signal_flaw(#[trigger] entries[i]) == Some(e) && forall|j: int|
                0 <= j < i ==> signal_flaw(#[trigger] entries[j]) is None,
{
    let flaw = |e: (Seq<char>, Seq<char>)| signal_flaw(e);
    lemma_first_error_none(entries, flaw);
    assert forall|i: int| 0 <= i < entries.len() implies flaw(entries[i]) == signal_flaw(
        #[trigger] entries[i],
    ) by {}
    if let Err(e) = parsed_signals(entries) {
        law_first_error_is_the_first(entries, flaw, e);
        let i = choose|i: int|
            0 <= i < entries.len() && flaw(#[trigger] entries[i]) == Some(e) && forall|j: int|
                0 <= j < i ==> flaw(#[trigger] entries[j]) is None;
        assert(signal_flaw(entries[i]) == Some(e));
        assert forall|j: int| 0 <= j < i implies signal_flaw(#[trigger] entries[j]) is None by {
            assert(flaw(entries[j]) is None);
        }
    } else {
        assert forall|i: int| 0 <= i < entries.len() implies signal_flaw(
            #[trigger] entries[i],
        ) is None by {
            assert(flaw(entries[i]) is None);
        }
    }
}

/// Domain metadata is the one feature that a request can have; any other is refused by name.
pub proof fn law_feature_answers(feature: FeatureView, key: Seq<char>)
    ensures
        feature_flaw((feature, key)) == if feature.known && feature.name == "domainMetadata"@ {
            None
        } else {
            Some(
                ErrorView::Generic(
                    "Enabling feature '"@ + feature.name
                        + "' is not supported during CREATE TABLE"@,
                ),
            )
        },
{
}

/// Each request among the properties is among the requests that are read.
proof fn lemma_signal_is_read(entries: Entries, i: int) -> (j: int)
    requires
        0 <= i < entries.len(),
        is_signal(entries[i].0),
    ensures
        0 <= j < signals_of(entries).len(),
        signals_of(entries)[j] == (feature_named(signal_feature_name(entries[i].0)), entries[i].0),
    decreases entries.len(),
{
    let front = entries.drop_last();
    if i < front.len() {
        assert(front[i] == entries[i]);
        lemma_signal_is_read(front, i)
    } else {
        signals_of(front).len() as int
    }
}

/// Each request that is read is among the properties.
proof fn lemma_signal_has_source(entries: Entries, j: int) -> (i: int)
    requires
        0 <= j < signals_of(entries).len(),
    ensures
        0 <= i < entries.len(),
        is_signal(entries[i].0),
        signals_of(entries)[j] == (feature_named(signal_feature_name(entries[i].0)), entries[i].0),
    decreases entries.len(),
{
    let front = entries.drop_last();
    if j < signals_of(front).len() {
        let i = lemma_signal_has_source(front, j);
        assert(front[i] == entries[i]);
        i
    } else {
        entries.len() - 1
    }
}

/// A configuration passes the check of its requests exactly if each of them is the request for
/// domain metadata, with the value `supported`.
pub proof fn law_signal_check(config: ConfigView)
    ensures
        TransformView::FeatureSignals.refusal(config) is None <==> forall|i: int|
            0 <= i < config.metadata.configuration.len() && "delta.feature."@.is_prefix_of(
                (#[trigger] config.metadata.configuration[i]).0,
            ) ==> config.metadata.configuration[i] == (
                "delta.feature."@ + "domainMetadata"@,
                "supported"@,
            ),
{
    let entries = config.metadata.configuration;
    let signals = signals_of(entries);
    let flaw = |s: (FeatureView, Seq<char>)| feature_flaw(s);
    let prefix = "delta.feature."@;
    let asked = (prefix + "domainMetadata"@, "supported"@);
    law_signals_are_parsed(entries);
    lemma_first_error_none(signals, flaw);
    law_what_signals_ask_for(prefix, "domainMetadata"@);
    law_what_names_stand_for("domainMetadata"@);
    if TransformView::FeatureSignals.refusal(config) is None {
        assert forall|i: int| 0 <= i < entries.len() && prefix.is_prefix_of(
            (#[trigger] entries[i]).0,
        ) implies entries[i] == asked by {
            assert(signal_flaw(entries[i]) is None);
            let j = lemma_signal_is_read(entries, i);
            assert(flaw(signals[j]) is None);
            law_what_signals_ask_for(entries[i].0, "domainMetadata"@);
        }
    }
    if forall|i: int|
        0 <= i < entries.len() && prefix.is_prefix_of((#[trigger] entries[i]).0) ==> entries[i]
            == asked {
        assert(TableFeature::DomainMetadata@.name == "domainMetadata"@);
        assert forall|i: int| 0 <= i < entries.len() implies signal_flaw(
            #[trigger] entries[i],
        ) is None by {
            if prefix.is_prefix_of(entries[i].0) {
                assert(entries[i] == asked);
                law_signal_answers("domainMetadata"@, prefix, "supported"@);
            }
        }
        assert forall|j: int| 0 <= j < signals.len() implies flaw(#[trigger] signals[j]) is None by {
            let i = lemma_signal_has_source(entries, j);
            assert(entries[i] == asked);
        }
    }
}

/// Which error the requests have: what keeps them from being parsed comes first; else it is that of
/// the first request for a feature that cannot be asked for. Requests that cannot be parsed are not
/// carried out, and on a protocol with both feature lists all others are, refused ones included.
pub proof fn law_signal_errors(config: ConfigView)
    ensures
        parsed_signals(config.metadata.configuration) matches Err(e) ==> {
            &&& TransformView::FeatureSignals.refusal(config) == Some(e)
            &&& TransformView::FeatureSignals.outcome(config) == Err::<OutputView, ErrorView>(e)
        },
        parsed_signals(config.metadata.configuration) matches Ok(signals) ==> {
            &&& TransformView::FeatureSignals.refusal(config) matches Some(e) ==> exists|i: int|
                0 <= i < signals.len() && feature_flaw(#[trigger] signals[i]) == Some(e)
                    && forall|j: int|
                    0 <= j < i ==> feature_flaw(#[trigger] signals[j]) is None
            &&& TransformView::FeatureSignals.outcome(config) is Ok <==> with_signal_features(
                config.protocol,
                signals,
            ) is Ok
            &&& with_signal_features(config.protocol, signals) matches Ok(protocol) ==> (
            TransformView::FeatureSignals.outcome(config) matches Ok(out) && out.config.protocol
                == protocol)
            &&& config.protocol.reader_features is Some && config.protocol.writer_features is Some
                ==> TransformView::FeatureSignals.outcome(config) is Ok
        },
{
    if let Ok(signals) = parsed_signals(config.metadata.configuration) {
        let flaw = |s: (FeatureView, Seq<char>)| feature_flaw(s);
        if let Some(e) = first_error(signals, flaw) {
            law_first_error_is_the_first(signals, flaw, e);
            let i = choose|i: int|
                0 <= i < signals.len() && flaw(#[trigger] signals[i]) == Some(e) && forall|j: int|
                    0 <= j < i ==> flaw(#[trigger] signals[j]) is None;
            assert(feature_flaw(signals[i]) == Some(e));
            assert forall|j: int| 0 <= j < i implies feature_flaw(#[trigger] signals[j]) is None by {
                assert(flaw(signals[j]) is None);
            }
        }
        if config.protocol.reader_features is Some && config.protocol.writer_features is Some {
            lemma_lists_take_all(config.protocol, signals);
        }
    }
}

/// A protocol with both feature lists takes any feature.
proof fn lemma_lists_take_all(protocol: ProtocolView, signals: Seq<(FeatureView, Seq<char>)>)
    requires
        protocol.reader_features is Some,
        protocol.writer_features is Some,
    ensures
        with_signal_features(protocol, signals) matches Ok(p) && p.reader_features is Some
            && p.writer_features is Some,
    decreases signals.len(),
{
    if signals.len() > 0 {
        lemma_lists_take_all(protocol, signals.drop_last());
    }
}

/// Carrying out requests lists the features that the properties name, keeps those that were listed
/// and adds no other. It takes the requests away and leaves every other property, and the rest of
/// the metadata, as it is.
pub proof fn law_signals_are_carried_out(config: ConfigView, feature: FeatureView, key: Seq<char>)
    ensures
        TransformView::FeatureSignals.outcome(config) matches Ok(out) ==> {
            &&& out.config.protocol.has(feature) <==> config.protocol.has(feature) || (exists|i: int|
                0 <= i < config.metadata.configuration.len()
                    && (#[trigger] config.metadata.configuration[i]).0 == "delta.feature."@
                    + feature.name && feature.known)
            &&& out.config.protocol.min_reader_version == config.protocol.min_reader_version
            &&& out.config.protocol.min_writer_version == config.protocol.min_writer_version
            &&& lookup(out.config.metadata.configuration, key) == if "delta.feature."@.is_prefix_of(
                key,
            ) {
                None
            } else {
                lookup(config.metadata.configuration, key)
            }
            &&& out.config.metadata.schema == config.metadata.schema
            &&& out.config.metadata.partition_columns == config.metadata.partition_columns
            &&& out.config.metadata.created_time == config.metadata.created_time
            &&& out.config.metadata.name == config.metadata.name
            &&& out.config.metadata.description == config.metadata.description
            &&& out.domain_metadata.len() == 0
        },
{
    let entries = config.metadata.configuration;
    let signals = signals_of(entries);
    if TransformView::FeatureSignals.outcome(config) is Ok {
        law_signals_are_parsed(entries);
        law_signal_features_are_listed(config.protocol, signals, feature);
        law_signals_are_taken_away(entries, key);
        law_what_signals_ask_for(key, feature.name);
        let asked = "delta.feature."@ + feature.name;
        if exists|j: int| 0 <= j < signals.len() && #[trigger] signals[j].0 == feature {
            let j = choose|j: int| 0 <= j < signals.len() && #[trigger] signals[j].0 == feature;
            let i = lemma_signal_has_source(entries, j);
            law_what_signals_ask_for(entries[i].0, feature.name);
            assert(signal_flaw(entries[i]) is None);
            assert(entries[i].0 == asked);
        }
        if feature.known && exists|i: int|
            0 <= i < entries.len() && (#[trigger] entries[i]).0 == asked {
            let i = choose|i: int| 0 <= i < entries.len() && (#[trigger] entries[i]).0 == asked;
            assert(signal_flaw(entries[i]) is None);
            let j = lemma_signal_is_read(entries, i);
            assert(signals[j].0 == feature);
        }
    }
}

/// The features of requests are listed one after the other.
pub proof fn law_signals_are_listed_in_order(
    protocol: ProtocolView,
    signals: Seq<(FeatureView, Seq<char>)>,
    signal: (FeatureView, Seq<char>),
)
    ensures
        with_signal_features(protocol, Seq::empty()) == Ok::<ProtocolView, ErrorView>(protocol),
        with_signal_features(protocol, signals.push(signal)) == match with_signal_features(
            protocol,
            signals,
        ) {
            Ok(p) => p.with_feature(signal.0),
            Err(e) => Err(e),
        },
{
    assert(signals.push(signal).drop_last() =~= signals);
}

/// A vector of requests stands for its items, one for one.
pub proof fn law_signal_views_are_itemwise(signals: Seq<(TableFeature, String)>, i: int)
    ensures
        signal_views(signals).len() == signals.len(),
        0 <= i < signals.len() ==> signal_views(signals)[i] == (signals[i].0@, signals[i].1@),
{
}

// ---------------------------------------------------------------------------------------------
// Protocol version
// ---------------------------------------------------------------------------------------------

/// The texts of the two versions of table features.
proof fn lemma_version_texts()
    ensures
        decimal(3) == "3"@,
        decimal(7) == "7"@,
{
    reveal_strlit("3");
    reveal_strlit("7");
    assert(decimal(3) =~= "3"@);
    assert(decimal(7) =~= "7"@);
}

/// A version that no property asks for is the default; one that is asked for is the number that the
/// property's value says, and a value that says none is refused.
pub proof fn law_requested_versions(entries: Entries, property: Seq<char>, default: u8)
    ensures
        requested_version(entries, property, default) == match lookup(entries, property) {
            None => Ok::<u8, ErrorView>(default),
            Some(value) => if u8_value(value) is Some {
                Ok(u8_value(value)->0)
            } else {
                Err(
                    ErrorView::Generic(
                        "Invalid value '"@ + value + "' for "@ + property
                            + ". Must be an integer."@,
                    ),
                )
            },
        },
{
}

/// The versions can be had exactly if the reader version that is asked for, if any, is 3 and the
/// writer version is 7. Otherwise the error names the property: first one whose value is no
/// number, then one whose number is another version.
pub proof fn law_version_answers(entries: Entries)
    ensures
        ({
            let reader = lookup(entries, "delta.minReaderVersion"@);
            let writer = lookup(entries, "delta.minWriterVersion"@);
            &&& version_flaw(entries) is None <==> (reader is None || u8_value(reader->0) == Some(
                3u8,
            )) && (writer is None || u8_value(writer->0) == Some(7u8))
            &&& reader is Some && u8_value(reader->0) is None ==> version_flaw(entries) == Some(
                ErrorView::Generic(
                    "Invalid value '"@ + reader->0 + "' for "@ + "delta.minReaderVersion"@
                        + ". Must be an integer."@,
                ),
            )
            &&& (reader is None || u8_value(reader->0) is Some) && writer is Some && u8_value(
                writer->0,
            ) is None ==> version_flaw(entries) == Some(
                ErrorView::Generic(
                    "Invalid value '"@ + writer->0 + "' for "@ + "delta.minWriterVersion"@
                        + ". Must be an integer."@,
                ),
            )
            &&& reader is Some && u8_value(reader->0) is Some && u8_value(reader->0) != Some(3u8)
                && (writer is None || u8_value(writer->0) is Some) ==> version_flaw(entries)
                == Some(
                ErrorView::Generic(
                    "Invalid value '"@ + decimal(u8_value(reader->0)->0 as nat) + "' for "@
                        + "delta.minReaderVersion"@ + ". Only '"@ + "3"@
                        + "' is supported for CREATE TABLE."@,
                ),
            )
            &&& (reader is None || u8_value(reader->0) == Some(3u8)) && writer is Some && u8_value(
                writer->0,
            ) is Some && u8_value(writer->0) != Some(7u8) ==> version_flaw(entries) == Some(
                ErrorView::Generic(
                    "Invalid value '"@ + decimal(u8_value(writer->0)->0 as nat) + "' for "@
                        + "delta.minWriterVersion"@ + ". Only '"@ + "7"@
                        + "' is supported for CREATE TABLE."@,
                ),
            )
        }),
{
    lemma_version_texts();
}

/// Setting the versions sets 3 and 7, whatever the protocol had, keeps the feature lists, takes the
/// two requests away and leaves every other property, and the rest of the metadata, as it is. It
/// refuses nothing beforehand.
pub proof fn law_versions_are_set(config: ConfigView, key: Seq<char>)
    ensures
        TransformView::ProtocolVersion.refusal(config) is None,
        TransformView::ProtocolVersion.outcome(config) is Ok ==> version_flaw(
            config.metadata.configuration,
        ) is None,
        version_flaw(config.metadata.configuration) matches Some(e)
            ==> TransformView::ProtocolVersion.outcome(config) == Err::<OutputView, ErrorView>(e),
        version_flaw(config.metadata.configuration) is None && config.protocol.flaw() is None ==> (
        TransformView::ProtocolVersion.outcome(config) is Ok <==> config.protocol.reader_features
            is Some && config.protocol.writer_features is Some),
        TransformView::ProtocolVersion.outcome(config) matches Ok(out) ==> {
            &&& out.config.protocol.min_reader_version == 3
            &&& out.config.protocol.min_writer_version == 7
            &&& out.config.protocol.reader_features == config.protocol.reader_features
            &&& out.config.protocol.writer_features == config.protocol.writer_features
            &&& lookup(out.config.metadata.configuration, key) == if key
                == "delta.minReaderVersion"@ || key == "delta.minWriterVersion"@ {
                None
            } else {
                lookup(config.metadata.configuration, key)
            }
            &&& out.config.metadata.schema == config.metadata.schema
            &&& out.config.metadata.partition_columns == config.metadata.partition_columns
            &&& out.config.metadata.created_time == config.metadata.created_time
            &&& out.config.metadata.name == config.metadata.name
            &&& out.config.metadata.description == config.metadata.description
            &&& out.domain_metadata.len() == 0
        },
{
    law_version_requests_are_taken_away(config.metadata.configuration, key);
}

// ---------------------------------------------------------------------------------------------
// Layouts
// ---------------------------------------------------------------------------------------------

/// A column can be used exactly if it has one part and the schema has a field of that name,
/// whatever the field's type and nullability; otherwise the error names the column.
pub proof fn law_column_answers(kind: Seq<char>, schema: StructType, path: Seq<Seq<char>>)
    ensures
        column_flaw(kind, schema, path) is None <==> path.len() == 1 && exists|i: int|
            0 <= i < schema.fields@.len() && #[trigger] schema.fields@[i].name@ == path[0],
        path.len() != 1 ==> column_flaw(kind, schema, path) == Some(
            ErrorView::Generic(
                kind + " column '"@ + column_text(path)
                    + "' must be a top-level column, not a nested path"@,
            ),
        ),
        path.len() == 1 && !(exists|i: int|
            0 <= i < schema.fields@.len() && #[trigger] schema.fields@[i].name@ == path[0])
            ==> column_flaw(kind, schema, path) == Some(
            ErrorView::Generic(kind + " column '"@ + path[0] + "' not found in schema"@),
        ),
{
}

proof fn lemma_columns_pass(
    kind: Seq<char>,
    schema: StructType,
    columns: Seq<Seq<Seq<char>>>,
    flaw: spec_fn(Seq<Seq<char>>) -> Option<ErrorView>,
)
    requires
        forall|p: Seq<Seq<char>>| #[trigger] flaw(p) == column_flaw(kind, schema, p),
    ensures
        first_error(columns, flaw) is None <==> forall|i: int|
            0 <= i < columns.len() ==> column_flaw(kind, schema, #[trigger] columns[i]) is None,
        first_error(columns, flaw) matches Some(e) ==> exists|i: int|
            0 <= i < columns.len() && column_flaw(kind, schema, #[trigger] columns[i]) == Some(e)
                && forall|j: int|
                0 <= j < i ==> column_flaw(kind, schema, #[trigger] columns[j]) is None,
{
    lemma_first_error_none(columns, flaw);
    if let Some(e) = first_error(columns, flaw) {
        law_first_error_is_the_first(columns, flaw, e);
        let i = choose|i: int|
            0 <= i < columns.len() && flaw(#[trigger] columns[i]) == Some(e) && forall|j: int|
                0 <= j < i ==> flaw(#[trigger] columns[j]) is None;
        assert(column_flaw(kind, schema, columns[i]) == Some(e));
        assert forall|j: int| 0 <= j < i implies column_flaw(
            kind,
            schema,
            #[trigger] columns[j],
        ) is None by {
            assert(flaw(columns[j]) is None);
        }
    } else {
        assert forall|i: int| 0 <= i < columns.len() implies column_flaw(
            kind,
            schema,
            #[trigger] columns[i],
        ) is None by {
            assert(flaw(columns[i]) is None);
        }
    }
}

/// A table can be partitioned by columns exactly if each can be used; the first that cannot is the
/// error. Partitioning then makes the columns' names the partition columns, all of them and in
/// order, and changes nothing else.
pub proof fn law_partitioning_answers(columns: Seq<Seq<Seq<char>>>, config: ConfigView)
    ensures
        TransformView::Partitioning(columns).refusal(config) is None <==> forall|i: int|
            0 <= i < columns.len() ==> column_flaw(
                "Partition"@,
                config.metadata.schema,
                #[trigger] columns[i],
            ) is None,
        TransformView::Partitioning(columns).refusal(config) matches Some(e) ==> exists|i: int|
            0 <= i < columns.len() && column_flaw(
                "Partition"@,
                config.metadata.schema,
                #[trigger] columns[i],
            ) == Some(e) && forall|j: int|
                0 <= j < i ==> column_flaw(
                    "Partition"@,
                    config.metadata.schema,
                    #[trigger] columns[j],
                ) is None,
        TransformView::Partitioning(columns).applicable() <==> forall|i: int|
            0 <= i < columns.len() ==> (#[trigger] columns[i]).len() > 0,
        TransformView::Partitioning(columns).outcome(config) matches Ok(out) && {
            &&& out.config.metadata.partition_columns.len() == columns.len()
            &&& forall|i: int|
                0 <= i < columns.len() ==> #[trigger] out.config.metadata.partition_columns[i]
                    == columns[i][0]
            &&& out.config.protocol == config.protocol
            &&& out.config.metadata.configuration == config.metadata.configuration
            &&& out.config.metadata.schema == config.metadata.schema
            &&& out.config.metadata.created_time == config.metadata.created_time
            &&& out.config.metadata.name == config.metadata.name
            &&& out.config.metadata.description == config.metadata.description
            &&& out.domain_metadata.len() == 0
        },
{
    let schema = config.metadata.schema;
    lemma_columns_pass(
        "Partition"@,
        schema,
        columns,
        |p: Seq<Seq<char>>| column_flaw("Partition"@, schema, p),
    );
}

/// A table can be clustered by columns exactly if there are four at most and each can be used. Too
/// many are refused first, with their number; else the first that cannot be used is the error.
pub proof fn law_clustering_answers(columns: Seq<Seq<Seq<char>>>, config: ConfigView)
    ensures
        TransformView::Clustering(columns).refusal(config) is None <==> columns.len() <= 4
            && forall|i: int|
            0 <= i < columns.len() ==> column_flaw(
                "Clustering"@,
                config.metadata.schema,
                #[trigger] columns[i],
            ) is None,
        columns.len() > 4 ==> TransformView::Clustering(columns).refusal(config) == Some(
            ErrorView::Generic(
                "Clustering supports at most "@ + decimal(4) + " columns, but "@ + decimal(
                    columns.len(),
                ) + " were specified"@,
            ),
        ),
        columns.len() <= 4 ==> (TransformView::Clustering(columns).refusal(config) matches Some(e)
            ==> exists|i: int|
            0 <= i < columns.len() && column_flaw(
                "Clustering"@,
                config.metadata.schema,
                #[trigger] columns[i],
            ) == Some(e) && forall|j: int|
                0 <= j < i ==> column_flaw(
                    "Clustering"@,
                    config.metadata.schema,
                    #[trigger] columns[j],
                ) is None),
{
    let schema = config.metadata.schema;
    lemma_columns_pass(
        "Clustering"@,
        schema,
        columns,
        |p: Seq<Seq<char>>| column_flaw("Clustering"@, schema, p),
    );
}

/// Clustering writes one domain metadata: under `delta.clustering`, the JSON object whose field
/// `clusteringColumns` holds exactly the given columns, all of them and in order, however many
/// there are. It keeps the metadata and lists the feature.
pub proof fn law_clustering_writes_all_columns(columns: Seq<Seq<Seq<char>>>, config: ConfigView)
    ensures
        config.protocol.writer_features is Some ==> TransformView::Clustering(columns).outcome(
            config,
        ) is Ok,
        TransformView::Clustering(columns).outcome(config) matches Ok(out) ==> {
            &&& out.domain_metadata == seq![
                DomainMetadataView {
                    domain: "delta.clustering"@,
                    configuration: json_object_text("clusteringColumns"@, columns),
                },
            ]
            &&& out.config.metadata == config.metadata
            &&& out.config.protocol == config.protocol.plus(TableFeature::ClusteredTable@)
            &&& out.config.protocol.has(FeatureView { known: true, name: "clustering"@ })
        },
{
    lemma_clustering_features_are_for_writers();
    if config.protocol.can_list(TableFeature::ClusteredTable@) {
        law_listing_a_feature(
            config.protocol,
            TableFeature::ClusteredTable@,
            TableFeature::ClusteredTable@,
        );
    }
}

/// Domain metadata is listed under its name, and nothing else changes.
pub proof fn law_domain_metadata_is_listed(config: ConfigView)
    ensures
        TransformView::DomainMetadata.refusal(config) is None,
        config.protocol.writer_features is Some ==> TransformView::DomainMetadata.outcome(
            config,
        ) is Ok,
        TransformView::DomainMetadata.outcome(config) matches Ok(out) ==> {
            &&& out.config.metadata == config.metadata
            &&& out.config.protocol == config.protocol.plus(TableFeature::DomainMetadata@)
            &&& out.config.protocol.has(FeatureView { known: true, name: "domainMetadata"@ })
            &&& out.domain_metadata.len() == 0
        },
{
    lemma_clustering_features_are_for_writers();
    if config.protocol.can_list(TableFeature::DomainMetadata@) {
        law_listing_a_feature(
            config.protocol,
            TableFeature::DomainMetadata@,
            TableFeature::DomainMetadata@,
        );
    }
}

} // verus!
