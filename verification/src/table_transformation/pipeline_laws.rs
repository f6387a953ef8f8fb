//! What holds of every order and of every run of transforms.

use crate::actions::DomainMetadataView;
use crate::clustering::{
    clustering_json, is_read, law_columns_read_back, undoes_encoding, Decoded,
};
use crate::error::{DeltaResult, ErrorView};
use crate::schema::{paths, ColumnName};
use crate::table_features::{lemma_clustering_features_are_for_writers, TableFeature};
use crate::table_protocol_metadata_config::ConfigView;
use crate::table_transformation::pipeline::{
    depends_on, is_first_ready, is_ready, ordered, ordered_run, run_all,
};
use crate::table_transformation::registry::required_id;
use crate::table_transformation::transforms::{
    clustering_domain, clustering_refusal, TransformView,
};
use crate::table_transformation::{OutputView, TransformId};
use vstd::prelude::*;

verus! {

/// Whether each transform depends on none that comes after it, nor on itself.
pub open spec fn respects_dependencies(transforms: Seq<TransformView>) -> bool {
    forall|k: int|
        0 <= k < transforms.len() ==> is_ready(#[trigger] transforms[k], transforms.skip(k))
}

/// At most one position is the first one that is ready.
proof fn lemma_first_ready_unique(waiting: Seq<TransformView>, i: int, j: int)
    requires
        is_first_ready(waiting, i),
        is_first_ready(waiting, j),
    ensures
        i == j,
{
    if i < j {
        assert(!is_ready(waiting[i], waiting));
    }
    if j < i {
        assert(!is_ready(waiting[j], waiting));
    }
}

/// A transform that is ready among some is ready among fewer.
proof fn lemma_ready_among_fewer(
    t: TransformView,
    some: Seq<TransformView>,
    all: Seq<TransformView>,
)
    requires
        is_ready(t, all),
        forall|x: TransformView| some.contains(x) ==> #[trigger] all.contains(x),
    ensures
        is_ready(t, some),
{
    assert forall|i: int| 0 <= i < some.len() implies !depends_on(
        t,
        (#[trigger] some[i]).id(),
    ) by {
        assert(some.contains(some[i]));
        assert(all.contains(some[i]));
        let j = choose|j: int| 0 <= j < all.len() && all[j] == some[i];
        assert(!depends_on(t, all[j].id()));
    }
}

/// An order that respects the dependencies is kept. In particular transforms that do not depend
/// on each other stay as they are.
pub proof fn law_respectful_order_is_kept(transforms: Seq<TransformView>)
    requires
        respects_dependencies(transforms),
    ensures
        ordered(transforms) == Some(transforms),
    decreases transforms.len(),
{
    if transforms.len() > 0 {
        assert(is_ready(transforms[0], transforms.skip(0)));
        assert(transforms.skip(0) =~= transforms);
        assert(is_first_ready(transforms, 0));
        let i = choose|i: int| is_first_ready(transforms, i);
        lemma_first_ready_unique(transforms, i, 0);
        let rest = transforms.remove(0);
        assert forall|k: int| 0 <= k < rest.len() implies is_ready(
            #[trigger] rest[k],
            rest.skip(k),
        ) by {
            assert(rest[k] == transforms[k + 1]);
            assert(is_ready(transforms[k + 1], transforms.skip(k + 1)));
            assert(rest.skip(k) =~= transforms.skip(k + 1));
        }
        law_respectful_order_is_kept(rest);
        assert(seq![transforms[0]] + rest =~= transforms);
    } else {
        assert(transforms =~= Seq::empty());
    }
}

/// Ordering neither loses nor adds a transform, and puts each after what it depends on.
pub proof fn law_order_respects_dependencies(transforms: Seq<TransformView>)
    requires
        ordered(transforms) is Some,
    ensures
        ordered(transforms)->0.to_multiset() == transforms.to_multiset(),
        respects_dependencies(ordered(transforms)->0),
    decreases transforms.len(),
{
    broadcast use vstd::seq_lib::group_to_multiset_ensures;

    let order = ordered(transforms)->0;
    if transforms.len() == 0 {
        assert(transforms =~= order);
    } else {
        let i = choose|i: int| is_first_ready(transforms, i);
        let first = transforms[i];
        let left = transforms.remove(i);
        let rest = ordered(left)->0;
        law_order_respects_dependencies(left);
        assert(order =~= seq![first] + rest);
        assert(order =~= rest.insert(0, first));
        assert(order.to_multiset() == rest.to_multiset().insert(first));
        assert(transforms.to_multiset().contains(first)) by {
            assert(transforms.contains(first));
        }
        assert(left.to_multiset() == transforms.to_multiset().remove(first));
        assert(order.to_multiset() =~= transforms.to_multiset());
        assert forall|k: int| 0 <= k < order.len() implies is_ready(
            #[trigger] order[k],
            order.skip(k),
        ) by {
            if k == 0 {
                assert(order.skip(0) =~= order);
                assert forall|x: TransformView| order.contains(x) implies #[trigger]
                    transforms.contains(x) by {
                    assert(order.to_multiset().contains(x));
                }
                lemma_ready_among_fewer(first, order, transforms);
            } else {
                assert(order[k] == rest[k - 1]);
                assert(is_ready(rest[k - 1], rest.skip(k - 1)));
                assert(order.skip(k) =~= rest.skip(k - 1));
            }
        }
    }
}

/// If some transform is ready, there is a first one.
proof fn lemma_some_first_ready(waiting: Seq<TransformView>, i: int)
    requires
        0 <= i < waiting.len(),
        is_ready(waiting[i], waiting),
    ensures
        exists|k: int| is_first_ready(waiting, k),
    decreases i,
{
    if forall|j: int| 0 <= j < i ==> !is_ready(#[trigger] waiting[j], waiting) {
        assert(is_first_ready(waiting, i));
    } else {
        let j = choose|j: int| 0 <= j < i && is_ready(#[trigger] waiting[j], waiting);
        lemma_some_first_ready(waiting, j);
    }
}

/// The built-in transforms never depend on each other in a circle: any of them can be ordered.
pub proof fn law_ordering_succeeds(transforms: Seq<TransformView>)
    ensures
        ordered(transforms) is Some,
    decreases transforms.len(),
{
    if transforms.len() > 0 {
        if exists|i: int|
            0 <= i < transforms.len() && (#[trigger] transforms[i]).needs().len() == 0 {
            let i = choose|i: int|
                0 <= i < transforms.len() && (#[trigger] transforms[i]).needs().len() == 0;
            assert(is_ready(transforms[i], transforms));
            lemma_some_first_ready(transforms, i);
        } else {
            // All that is left is clustering, which depends on domain metadata only.
            assert forall|j: int| 0 <= j < transforms.len() implies !depends_on(
                transforms[0],
                (#[trigger] transforms[j]).id(),
            ) by {
                assert(transforms[0].needs().len() != 0);
                assert(transforms[j].needs().len() != 0);
            }
            lemma_some_first_ready(transforms, 0);
        }
        let i = choose|i: int| is_first_ready(transforms, i);
        law_ordering_succeeds(transforms.remove(i));
    }
}

/// Running some transforms and then others is running them all.
pub proof fn law_run_in_parts(
    first: Seq<TransformView>,
    second: Seq<TransformView>,
    config: ConfigView,
    collected: Seq<DomainMetadataView>,
)
    ensures
        run_all(first + second, config, collected) == match run_all(first, config, collected) {
            Err(e) => Err::<OutputView, ErrorView>(e),
            Ok(out) => run_all(second, out.config, out.domain_metadata),
        },
    decreases first.len(),
{
    if first.len() == 0 {
        assert(first + second =~= second);
    } else {
        let all = first + second;
        assert(all.drop_first() =~= first.drop_first() + second);
        if let Ok(out) = first[0].outcome(config) {
            law_run_in_parts(
                first.drop_first(),
                second,
                out.config,
                collected + out.domain_metadata,
            );
        }
    }
}

/// Domain metadata never runs after clustering, in whatever order the two were selected.
pub proof fn law_domain_metadata_precedes_clustering(
    transforms: Seq<TransformView>,
    j: int,
    k: int,
)
    requires
        ordered(transforms) is Some,
        0 <= j < ordered(transforms)->0.len(),
        0 <= k < ordered(transforms)->0.len(),
        ordered(transforms)->0[j] is DomainMetadata,
        ordered(transforms)->0[k] is Clustering,
    ensures
        j < k,
{
    let order = ordered(transforms)->0;
    law_order_respects_dependencies(transforms);
    if k < j {
        let after = order.skip(k);
        assert(is_ready(order[k], after));
        assert(after[j - k] == order[j]);
        assert(required_id(order[k].needs()[0]) == TransformId::DomainMetadata);
        assert(depends_on(order[k], after[j - k].id()));
    }
}

/// Clustering a table whose protocol lists features puts both features on the protocol, keeps the
/// metadata, and leaves the columns as the only domain metadata. That holds although domain
/// metadata was selected after clustering.
pub proof fn law_clustering_run(columns: Seq<Seq<Seq<char>>>, config: ConfigView)
    requires
        config.protocol.writer_features is Some,
    ensures
        ordered_run(seq![TransformView::Clustering(columns), TransformView::DomainMetadata], config)
            == match clustering_refusal(columns, config) {
            Some(e) => Err::<OutputView, ErrorView>(e),
            None => Ok(
                OutputView {
                    config: ConfigView {
                        protocol: config.protocol.plus(TableFeature::DomainMetadata@).plus(
                            TableFeature::ClusteredTable@,
                        ),
                        ..config
                    },
                    domain_metadata: seq![clustering_domain(clustering_json(columns))],
                },
            ),
        },
{
    let clustering = TransformView::Clustering(columns);
    let domain = TransformView::DomainMetadata;
    let selected = seq![clustering, domain];
    assert(required_id(clustering.needs()[0]) == TransformId::DomainMetadata);
    assert(depends_on(clustering, selected[1].id()));
    assert(!is_ready(selected[0], selected));
    assert(is_ready(selected[1], selected));
    assert(is_first_ready(selected, 1));
    let i = choose|i: int| is_first_ready(selected, i);
    lemma_first_ready_unique(selected, i, 1);
    let left = selected.remove(1);
    assert(left =~= seq![clustering]);
    assert(!depends_on(clustering, TransformId::Clustering));
    assert forall|k: int| 0 <= k < left.len() implies is_ready(
        #[trigger] left[k],
        left.skip(k),
    ) by {
        assert(left.skip(k) =~= seq![clustering]);
    }
    law_respectful_order_is_kept(left);
    let order = seq![domain] + left;
    assert(order =~= seq![domain, clustering]);
    assert(order.drop_first() =~= seq![clustering]);
    assert(seq![clustering].drop_first() =~= Seq::empty());
    reveal_with_fuel(run_all, 3);
    let none = Seq::<DomainMetadataView>::empty();
    let one = seq![clustering_domain(clustering_json(columns))];
    assert(none + none =~= none);
    assert(none + one =~= one);
    lemma_clustering_features_are_for_writers();
}

/// The columns that a table was clustered by are read back from the domain metadata of the run, by
/// a decoder that undoes the encoding.
pub proof fn law_clustering_columns_are_kept<D: Fn(&str) -> Decoded>(
    columns: Seq<Seq<Seq<char>>>,
    config: ConfigView,
    decode: D,
    r: DeltaResult<Vec<ColumnName>>,
)
    requires
        config.protocol.writer_features is Some,
        clustering_refusal(columns, config) is None,
        undoes_encoding(decode),
        ordered_run(seq![TransformView::Clustering(columns), TransformView::DomainMetadata], config)
            matches Ok(out) && is_read(decode, out.domain_metadata[0].configuration, r),
    ensures
        r is Ok,
        paths(r->Ok_0@) == columns,
{
    law_clustering_run(columns, config);
    law_columns_read_back(decode, columns, r);
}

/// A transform depends on a name exactly if it is clustering and the name is that of domain
/// metadata; it is ready exactly if none of the waiting transforms has such a name.
pub proof fn law_who_waits_for_whom(t: TransformView, id: TransformId, waiting: Seq<TransformView>)
    ensures
        depends_on(t, id) <==> t is Clustering && id == TransformId::DomainMetadata,
        is_ready(t, waiting) <==> !(t is Clustering && exists|i: int|
            0 <= i < waiting.len() && #[trigger] waiting[i] is DomainMetadata),
{
    if t is Clustering {
        assert(required_id(t.needs()[0]) == TransformId::DomainMetadata);
        assert(depends_on(t, TransformId::DomainMetadata));
        if exists|i: int| 0 <= i < waiting.len() && #[trigger] waiting[i] is DomainMetadata {
            let i = choose|i: int| 0 <= i < waiting.len() && #[trigger] waiting[i] is DomainMetadata;
            assert(depends_on(t, waiting[i].id()));
        }
    }
}

/// Transforms are kept in order where no clustering stands before domain metadata.
pub proof fn law_other_orders_are_kept(transforms: Seq<TransformView>)
    requires
        forall|i: int, j: int|
            0 <= i < j < transforms.len() ==> !(#[trigger] transforms[i] is Clustering
                && #[trigger] transforms[j] is DomainMetadata),
    ensures
        ordered(transforms) == Some(transforms),
{
    assert forall|k: int| 0 <= k < transforms.len() implies is_ready(
        #[trigger] transforms[k],
        transforms.skip(k),
    ) by {
        let rest = transforms.skip(k);
        law_who_waits_for_whom(transforms[k], TransformId::DomainMetadata, rest);
        if transforms[k] is Clustering {
            assert forall|i: int| 0 <= i < rest.len() implies !(
            #[trigger] rest[i] is DomainMetadata) by {
                assert(rest[i] == transforms[k + i]);
            }
        }
    }
    law_respectful_order_is_kept(transforms);
}

/// To run one transform is to let it check the configuration and, if it does not refuse it, change
/// it; its domain metadata is added to what was collected. To run none changes nothing.
pub proof fn law_run_of_one(
    t: TransformView,
    config: ConfigView,
    collected: Seq<DomainMetadataView>,
)
    ensures
        run_all(Seq::<TransformView>::empty(), config, collected) matches Ok(out) && out.config
            == config && out.domain_metadata == collected,
        t.refusal(config) matches Some(e) ==> run_all(seq![t], config, collected) == Err::<
            OutputView,
            ErrorView,
        >(e),
        t.refusal(config) is None ==> match t.outcome(config) {
            Err(e) => run_all(seq![t], config, collected) == Err::<OutputView, ErrorView>(e),
            Ok(changed) => run_all(seq![t], config, collected) matches Ok(out) && out.config
                == changed.config && out.domain_metadata == collected + changed.domain_metadata,
        },
{
    reveal_with_fuel(run_all, 2);
    assert(seq![t].drop_first() =~= Seq::<TransformView>::empty());
}

/// Transforms are run in the order that their dependencies call for, from nothing collected.
pub proof fn law_runs_are_ordered(transforms: Seq<TransformView>, config: ConfigView)
    ensures
        ordered(transforms) matches Some(order) && ordered_run(transforms, config) == run_all(
            order,
            config,
            Seq::<DomainMetadataView>::empty(),
        ),
{
    law_ordering_succeeds(transforms);
}

} // verus!
