//! What protocols, feature lists and their results are worth.

use crate::actions::{
    domain_views, feature_list_view, feature_views, is_listed, optional_text, protocol_result,
    DomainMetadata, Protocol, ProtocolView,
};
use crate::error::{DeltaError, ErrorView};
use crate::table_features::{FeatureView, TableFeature};
use vstd::prelude::*;

verus! {

/// A protocol fits together exactly if it has a reader list at reader version 3 only, a writer list
/// at writer version 7 only, and every reader feature on the writer list.
pub proof fn law_protocols_that_fit(p: ProtocolView)
    ensures
        p.flaw() is None <==> {
            &&& p.reader_features is Some <==> p.min_reader_version == 3
            &&& p.writer_features is Some <==> p.min_writer_version == 7
            &&& p.reader_features is Some ==> forall|f: FeatureView| #[trigger]
                p.reader_features->0.contains(f) ==> p.writer_features is Some
                    && p.writer_features->0.contains(f)
        },
        p.flaw() matches Some(e) ==> e is InvalidProtocol,
{
    if p.readers_within_writers() && p.reader_features is Some {
        assert forall|f: FeatureView| #[trigger] p.reader_features->0.contains(f) implies
            p.writer_features is Some && p.writer_features->0.contains(f) by {
            assert(is_listed(p.reader_features, f));
        }
    }
}

/// A feature that is on a list leaves the protocol as it is. Any other feature goes to the end of
/// the writer list, and of the reader list too if it concerns readers; nothing else changes. It is
/// refused exactly where such a list is missing.
pub proof fn law_where_features_are_listed(p: ProtocolView, feature: FeatureView)
    ensures
        p.has(feature) <==> (p.reader_features is Some && p.reader_features->0.contains(feature))
            || (p.writer_features is Some && p.writer_features->0.contains(feature)),
        p.written(feature) <==> p.writer_features is Some && p.writer_features->0.contains(feature),
        p.has(feature) ==> p.with_feature(feature) == Ok::<ProtocolView, ErrorView>(p),
        !p.has(feature) ==> (p.with_feature(feature) is Ok <==> p.writer_features is Some && (
        feature.reader_writer() ==> p.reader_features is Some)),
        !p.has(feature) && p.with_feature(feature) is Ok ==> {
            let q = p.with_feature(feature)->Ok_0;
            &&& q == p.plus(feature)
            &&& q.min_reader_version == p.min_reader_version
            &&& q.min_writer_version == p.min_writer_version
            &&& q.writer_features == Some(p.writer_features->0.push(feature))
            &&& feature.reader_writer() ==> q.reader_features == Some(
                p.reader_features->0.push(feature),
            )
            &&& !feature.reader_writer() ==> q.reader_features == p.reader_features
        },
        p.with_feature(feature) matches Err(e) ==> e is InvalidProtocol,
{
}

/// Changing the versions changes the versions and leaves the lists as they are; it fails exactly
/// where the lists do not fit the new versions.
pub proof fn law_changed_versions(p: ProtocolView, reader: i32, writer: i32)
    requires
        p.flaw() is None,
    ensures
        p.with_versions(reader, writer) is Ok <==> (p.reader_features is Some <==> reader == 3) && (
        p.writer_features is Some <==> writer == 7),
        p.with_versions(reader, writer) matches Ok(q) ==> {
            &&& q.min_reader_version == reader
            &&& q.min_writer_version == writer
            &&& q.reader_features == p.reader_features
            &&& q.writer_features == p.writer_features
        },
{
    let changed = ProtocolView { min_reader_version: reader, min_writer_version: writer, ..p };
    law_protocols_that_fit(p);
    law_protocols_that_fit(changed);
}

/// Lists of features and of domain metadata stand for their items, one for one.
pub proof fn law_lists_are_itemwise(
    features: Seq<TableFeature>,
    list: Option<Vec<TableFeature>>,
    domains: Seq<DomainMetadata>,
    text: Option<String>,
    i: int,
)
    ensures
        feature_views(features).len() == features.len(),
        0 <= i < features.len() ==> feature_views(features)[i] == features[i]@,
        feature_list_view(list) is Some <==> list is Some,
        list is Some ==> feature_list_view(list)->0 == feature_views(list->0@),
        domain_views(domains).len() == domains.len(),
        0 <= i < domains.len() ==> domain_views(domains)[i] == domains[i]@,
        optional_text(text) is Some <==> text is Some,
        text is Some ==> optional_text(text)->0 == text->0@,
{
}

/// A result agrees with one value only: the protocol that it holds, or the error.
pub proof fn law_protocol_results(p: Protocol, e: DeltaError, expected: Result<ProtocolView, ErrorView>)
    ensures
        protocol_result(Ok(p), expected) <==> expected == Ok::<ProtocolView, ErrorView>(p@),
        protocol_result(Err(e), expected) <==> expected == Err::<ProtocolView, ErrorView>(e@),
{
}

} // verus!
