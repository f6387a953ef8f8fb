//! What holds of every transform, whatever it is applied to.

use crate::actions::{law_listing_a_feature, DomainMetadataView, ProtocolView};
use crate::clustering::clustering_json;
use crate::error::ErrorView;
use crate::table_features::{
    lemma_clustering_features_are_for_writers, FeatureView, TableFeature,
};
use crate::table_properties::{
    law_lookup_after_remove, lemma_lookup_push, lookup, without_key, Entries, MIN_READER_VERSION_PROP, MIN_WRITER_VERSION_PROP,
};
use crate::table_protocol_metadata_config::ConfigView;
use crate::table_transformation::pipeline::run_all;
use crate::table_transformation::transforms::{
    clustering_domain, config_with_feature, is_signal, parsed_signals, signals_of,
    with_signal_features, without_signals, without_versions, TransformView,
};
use crate::table_transformation::OutputView;
use vstd::prelude::*;

verus! {

/// Carrying out signals takes them all away and leaves every other property as it is.
pub proof fn law_signals_are_taken_away(entries: Entries, key: Seq<char>)
    ensures
        lookup(without_signals(entries), key) == if is_signal(key) {
            None
        } else {
            lookup(entries, key)
        },
    decreases entries.len(),
{
    reveal(Seq::filter);
    if entries.len() > 0 {
        let front = entries.drop_last();
        law_signals_are_taken_away(front, key);
        lemma_lookup_push(front, entries.last(), key);
        assert(front.push(entries.last()) =~= entries);
        if !is_signal(entries.last().0) {
            lemma_lookup_push(without_signals(front), entries.last(), key);
        }
    }
}

/// Setting the versions takes the version requests away and leaves every other property as it is.
pub proof fn law_version_requests_are_taken_away(entries: Entries, key: Seq<char>)
    ensures
        lookup(without_versions(entries), key) == if key == MIN_READER_VERSION_PROP@ || key
            == MIN_WRITER_VERSION_PROP@ {
            None
        } else {
            lookup(entries, key)
        },
{
    law_lookup_after_remove(entries, MIN_READER_VERSION_PROP@, key);
    law_lookup_after_remove(
        without_key(entries, MIN_READER_VERSION_PROP@),
        MIN_WRITER_VERSION_PROP@,
        key,
    );
}

/// Whether one of the signals asks for a feature.
pub open spec fn asks_for(signals: Seq<(FeatureView, Seq<char>)>, feature: FeatureView) -> bool {
    exists|i: int| 0 <= i < signals.len() && #[trigger] signals[i].0 == feature
}

/// The features of signals are listed, those that were listed stay, and no other comes in. The
/// versions stay, and lists and versions go on fitting together. What signals ask for becomes a
/// writer feature in any case.
pub proof fn law_signal_features_are_listed(
    protocol: ProtocolView,
    signals: Seq<(FeatureView, Seq<char>)>,
    feature: FeatureView,
)
    ensures
        match with_signal_features(protocol, signals) {
            Ok(p) => {
                &&& p.has(feature) <==> protocol.has(feature) || asks_for(signals, feature)
                &&& p.min_reader_version == protocol.min_reader_version
                &&& p.min_writer_version == protocol.min_writer_version
                &&& protocol.flaw() is None ==> p.flaw() is None
                &&& protocol.flaw() is None && asks_for(signals, feature) ==> p.written(feature)
            },
            Err(_) => true,
        },
    decreases signals.len(),
{
    if signals.len() > 0 {
        let front = signals.drop_last();
        let last = signals[signals.len() - 1];
        law_signal_features_are_listed(protocol, front, feature);
        if let Ok(p) = with_signal_features(protocol, front) {
            if p.can_list(last.0) {
                law_listing_a_feature(p, last.0, feature);
            }
        }
        if asks_for(front, feature) {
            let i = choose|i: int| 0 <= i < front.len() && #[trigger] front[i].0 == feature;
            assert(signals[i].0 == feature);
        }
        if asks_for(signals, feature) && last.0 != feature {
            let i = choose|i: int| 0 <= i < signals.len() && #[trigger] signals[i].0 == feature;
            assert(front[i].0 == feature);
        }
    }
}

/// Where signals have been taken away there are none to carry out.
proof fn lemma_no_signals_left(entries: Entries)
    ensures
        parsed_signals(without_signals(entries)) == Ok::<
            Seq<(FeatureView, Seq<char>)>,
            ErrorView,
        >(Seq::empty()),
        without_signals(without_signals(entries)) == without_signals(entries),
    decreases entries.len(),
{
    reveal(Seq::filter);
    let left = without_signals(entries);
    if entries.len() > 0 {
        let front = without_signals(entries.drop_last());
        lemma_no_signals_left(entries.drop_last());
        if !is_signal(entries.last().0) {
            assert(left.drop_last() =~= front);
        }
    }
}

/// Removing a key that is not there changes nothing.
proof fn lemma_remove_absent(entries: Entries, key: Seq<char>)
    requires
        lookup(entries, key) is None,
    ensures
        without_key(entries, key) == entries,
    decreases entries.len(),
{
    reveal(Seq::filter);
    if entries.len() > 0 {
        let front = entries.drop_last();
        lemma_lookup_push(front, entries.last(), key);
        assert(front.push(entries.last()) =~= entries);
        lemma_remove_absent(front, key);
    }
}

/// Whether a configuration went through a transform as every transform lets it: the schema, the
/// time of creation, the name and the description stay, no feature is lost, and the lists and
/// versions of the protocol go on fitting together.
pub open spec fn keeps_the_table(before: ConfigView, after: ConfigView) -> bool {
    &&& after.metadata.schema == before.metadata.schema
    &&& after.metadata.created_time == before.metadata.created_time
    &&& after.metadata.name == before.metadata.name
    &&& after.metadata.description == before.metadata.description
    &&& before.protocol.flaw() is None ==> after.protocol.flaw() is None
    &&& forall|f: FeatureView| #[trigger] before.protocol.has(f) ==> after.protocol.has(f)
    &&& forall|key: Seq<char>|
        lookup(before.metadata.configuration, key) is None ==> #[trigger] lookup(
            after.metadata.configuration,
            key,
        ) is None
}

/// No transform touches the schema or the time of creation, loses a feature, brings in a property
/// or breaks the protocol.
pub proof fn law_transforms_keep_the_table(t: TransformView, config: ConfigView)
    ensures
        match t.outcome(config) {
            Ok(out) => keeps_the_table(config, out.config),
            Err(_) => true,
        },
{
    if let Ok(out) = t.outcome(config) {
        let entries = config.metadata.configuration;
        assert forall|f: FeatureView| #[trigger]
            config.protocol.has(f) implies out.config.protocol.has(f) by {
            match t {
                TransformView::FeatureSignals => {
                    law_signal_features_are_listed(config.protocol, signals_of(entries), f);
                },
                TransformView::DomainMetadata => {
                    law_listing_a_feature(config.protocol, TableFeature::DomainMetadata@, f);
                },
                TransformView::Clustering(_) => {
                    law_listing_a_feature(config.protocol, TableFeature::ClusteredTable@, f);
                },
                _ => {},
            }
        }
        assert forall|key: Seq<char>| lookup(entries, key) is None implies #[trigger] lookup(
            out.config.metadata.configuration,
            key,
        ) is None by {
            law_signals_are_taken_away(entries, key);
            law_version_requests_are_taken_away(entries, key);
        }
        law_signal_features_are_listed(
            config.protocol,
            signals_of(entries),
            TableFeature::DomainMetadata@,
        );
        match t {
            TransformView::DomainMetadata => {
                law_listing_a_feature(
                    config.protocol,
                    TableFeature::DomainMetadata@,
                    TableFeature::DomainMetadata@,
                );
            },
            TransformView::Clustering(_) => {
                law_listing_a_feature(
                    config.protocol,
                    TableFeature::ClusteredTable@,
                    TableFeature::ClusteredTable@,
                );
            },
            _ => {},
        }
    }
}

/// What no transform touches, no run of transforms touches. A run keeps the domain metadata that
/// was collected before it.
pub proof fn law_runs_keep_the_table(
    transforms: Seq<TransformView>,
    config: ConfigView,
    collected: Seq<DomainMetadataView>,
)
    ensures
        match run_all(transforms, config, collected) {
            Ok(out) => {
                &&& keeps_the_table(config, out.config)
                &&& collected.is_prefix_of(out.domain_metadata)
            },
            Err(_) => true,
        },
    decreases transforms.len(),
{
    if transforms.len() > 0 {
        law_transforms_keep_the_table(transforms[0], config);
        if let Ok(out) = transforms[0].outcome(config) {
            law_runs_keep_the_table(
                transforms.drop_first(),
                out.config,
                collected + out.domain_metadata,
            );
        }
    }
}

/// To apply a transform a second time does not change the configuration again.
pub proof fn law_transforms_are_idempotent(t: TransformView, config: ConfigView)
    ensures
        match t.outcome(config) {
            Ok(out) => match t.outcome(out.config) {
                Ok(again) => again.config == out.config && again.domain_metadata
                    == out.domain_metadata,
                Err(_) => false,
            },
            Err(_) => true,
        },
{
    let entries = config.metadata.configuration;
    match t {
        TransformView::FeatureSignals => {
            lemma_no_signals_left(entries);
        },
        TransformView::ProtocolVersion => {
            let left = without_versions(entries);
            law_version_requests_are_taken_away(entries, MIN_READER_VERSION_PROP@);
            law_version_requests_are_taken_away(entries, MIN_WRITER_VERSION_PROP@);
            lemma_remove_absent(left, MIN_READER_VERSION_PROP@);
            lemma_remove_absent(left, MIN_WRITER_VERSION_PROP@);
        },
        TransformView::DomainMetadata => {
            if config.protocol.can_list(TableFeature::DomainMetadata@) {
                law_listing_a_feature(
                    config.protocol,
                    TableFeature::DomainMetadata@,
                    TableFeature::DomainMetadata@,
                );
            }
        },
        TransformView::Clustering(_) => {
            if config.protocol.can_list(TableFeature::ClusteredTable@) {
                law_listing_a_feature(
                    config.protocol,
                    TableFeature::ClusteredTable@,
                    TableFeature::ClusteredTable@,
                );
            }
        },
        _ => {},
    }
}

/// What it means for an output to enable a feature for writers and to leave the rest alone: the
/// writer list names the feature, no feature is lost, a protocol that had it is unchanged, and so
/// is the metadata.
pub open spec fn enables_for_writers(
    before: ConfigView,
    after: ConfigView,
    feature: FeatureView,
) -> bool {
    &&& after.protocol.written(feature)
    &&& forall|f: FeatureView| #[trigger] before.protocol.has(f) ==> after.protocol.has(f)
    &&& before.protocol.has(feature) ==> after.protocol == before.protocol
    &&& after.metadata == before.metadata
}

proof fn lemma_enabled_for_writers(config: ConfigView, feature: FeatureView)
    requires
        config.protocol.flaw() is None,
        !feature.reader_writer(),
    ensures
        match config_with_feature(config, feature) {
            Ok(c) => {
                &&& config.protocol.writer_features is Some
                &&& enables_for_writers(config, c, feature)
                &&& c.protocol.flaw() is None
                &&& config_with_feature(c, feature) == Ok::<ConfigView, ErrorView>(c)
            },
            Err(_) => config.protocol.writer_features is None,
        },
{
    if config.protocol.can_list(feature) {
        law_listing_a_feature(config.protocol, feature, feature);
        assert forall|f: FeatureView| #[trigger] config.protocol.has(f) implies
            config.protocol.plus(feature).has(f) by {
            law_listing_a_feature(config.protocol, feature, f);
        }
    }
}

/// Domain metadata becomes a writer feature, and nothing else changes; it fails exactly on a
/// protocol without a writer list. To apply it again gives the same.
pub proof fn law_domain_metadata_is_a_writer_feature(config: ConfigView)
    requires
        config.protocol.flaw() is None,
    ensures
        match TransformView::DomainMetadata.outcome(config) {
            Ok(out) => {
                &&& config.protocol.writer_features is Some
                &&& enables_for_writers(config, out.config, TableFeature::DomainMetadata@)
                &&& out.domain_metadata == Seq::<DomainMetadataView>::empty()
                &&& TransformView::DomainMetadata.outcome(out.config) == Ok::<
                    OutputView,
                    ErrorView,
                >(out)
            },
            Err(_) => config.protocol.writer_features is None,
        },
{
    lemma_clustering_features_are_for_writers();
    lemma_enabled_for_writers(config, TableFeature::DomainMetadata@);
}

/// Clustering becomes a writer feature, and nothing else changes; it fails exactly on a protocol
/// without a writer list. Its columns are the only domain metadata. To apply it again gives the
/// same.
pub proof fn law_clustering_is_a_writer_feature(
    columns: Seq<Seq<Seq<char>>>,
    config: ConfigView,
)
    requires
        config.protocol.flaw() is None,
    ensures
        match TransformView::Clustering(columns).outcome(config) {
            Ok(out) => {
                &&& config.protocol.writer_features is Some
                &&& enables_for_writers(config, out.config, TableFeature::ClusteredTable@)
                &&& out.domain_metadata == seq![clustering_domain(clustering_json(columns))]
                &&& TransformView::Clustering(columns).outcome(out.config) == Ok::<
                    OutputView,
                    ErrorView,
                >(out)
            },
            Err(_) => config.protocol.writer_features is None,
        },
{
    lemma_clustering_features_are_for_writers();
    lemma_enabled_for_writers(config, TableFeature::ClusteredTable@);
}

} // verus!
