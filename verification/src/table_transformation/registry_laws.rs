//! What holds of every selection that a registry makes.

use crate::schema::{same_type, DataType, PrimitiveType};
use crate::seqs::{lemma_filter_keeps, lemma_filtered_item};
use crate::table_features::{TableFeature, SET_TABLE_FEATURE_SUPPORTED_PREFIX};
use crate::table_properties::{
    has_key, keys_differ, law_lookup_after_put, law_lookup_finds_entries, law_lookup_in_any_order,
    lemma_lookup_present, put, Entries,
};
use crate::table_transformation::registry::{
    any_signal, built_in_registrations, built_in_selection, contribution, has_id, ids_of,
    initial_selection, lemma_next_grows, lemma_plus_all_grows, lemma_push_id, produced,
    required_id, required_ids, same_trigger, selection_of, signal_key, transform_views, triggered,
    DataLayoutKind, SchemaTypeCheck, Selection, TransformFactory, TransformRegistration,
    TransformTrigger,
};
use crate::table_transformation::transforms::{is_signal, Transform, TransformView};
use crate::table_transformation::{TransformDependency, TransformId};
use vstd::prelude::*;

verus! {

/// Completing a selection leaves nothing to add: to complete it once more changes nothing.
pub proof fn law_completed_once_is_completed<F: TransformFactory>(
    selection: Selection,
    registrations: Seq<TransformRegistration<F>>,
    properties: Entries,
)
    ensures
        ({
            let done = selection.completed(registrations, properties);
            &&& done.next(registrations, properties) == done
            &&& done.completed(registrations, properties) == done
        }),
    decreases selection.names_left(),
{
    lemma_next_grows(selection, registrations, properties);
    lemma_plus_all_grows(selection, registrations, properties, selection.missing());
    let next = selection.next(registrations, properties);
    if next.transforms.len() != selection.transforms.len() {
        law_completed_once_is_completed(next, registrations, properties);
    }
}

/// Where nothing that a selection is missing can be made, because it is not registered or because
/// its factory declines, the selection is complete as it is.
pub proof fn law_unmade_dependencies_are_left_out<F: TransformFactory>(
    selection: Selection,
    registrations: Seq<TransformRegistration<F>>,
    properties: Entries,
)
    requires
        forall|i: int|
            0 <= i < selection.missing().len() ==> produced(
                registrations,
                properties,
                #[trigger] selection.missing()[i],
            ) is None,
    ensures
        selection.completed(registrations, properties) == selection,
{
    lemma_plus_all_of_unmade(selection, registrations, properties, selection.missing());
}

proof fn lemma_plus_all_of_unmade<F: TransformFactory>(
    selection: Selection,
    registrations: Seq<TransformRegistration<F>>,
    properties: Entries,
    ids: Seq<TransformId>,
)
    requires
        forall|i: int|
            0 <= i < ids.len() ==> produced(registrations, properties, #[trigger] ids[i]) is None,
    ensures
        selection.plus_all(registrations, properties, ids) == selection,
    decreases ids.len(),
{
    if ids.len() > 0 {
        let front = ids.drop_last();
        assert forall|i: int| 0 <= i < front.len() implies produced(
            registrations,
            properties,
            #[trigger] front[i],
        ) is None by {
            assert(front[i] == ids[i]);
        }
        lemma_plus_all_of_unmade(selection, registrations, properties, front);
        assert(produced(registrations, properties, ids[ids.len() - 1]) is None);
    }
}

/// Whether each factory makes transforms of the name that it is registered under.
pub open spec fn names_match<F: TransformFactory>(
    registrations: Seq<TransformRegistration<F>>,
    properties: Entries,
) -> bool {
    forall|i: int|
        0 <= i < registrations.len() ==> match (#[trigger] registrations[i]).factory.product(
            properties,
        ) {
            Some(t) => t.id() == registrations[i].transform_id,
            None => true,
        }
}

/// Whether no two transforms have the same name.
pub open spec fn ids_differ(transforms: Seq<TransformView>) -> bool {
    forall|i: int, j: int|
        0 <= i < j < transforms.len() ==> (#[trigger] transforms[i]).id() != (
        #[trigger] transforms[j]).id()
}

/// The triggers select no name twice, even where several registrations make the same transform.
pub proof fn law_triggered_ids_differ<F: TransformFactory>(
    registrations: Seq<TransformRegistration<F>>,
    properties: Entries,
)
    ensures
        ids_differ(triggered(registrations, properties)),
    decreases registrations.len(),
{
    if registrations.len() > 0 {
        law_triggered_ids_differ(registrations.drop_last(), properties);
    }
}

/// A transform whose trigger fires is selected, or another one of the same name is.
pub proof fn law_triggered_transforms_are_selected<F: TransformFactory>(
    registrations: Seq<TransformRegistration<F>>,
    properties: Entries,
    i: int,
)
    requires
        0 <= i < registrations.len(),
        contribution(registrations[i], properties) is Some,
    ensures
        has_id(
            triggered(registrations, properties),
            contribution(registrations[i], properties)->0.id(),
        ),
    decreases registrations.len(),
{
    let front = registrations.drop_last();
    let before = triggered(front, properties);
    let all = triggered(registrations, properties);
    let id = contribution(registrations[i], properties)->0.id();
    if i < front.len() {
        assert(front[i] == registrations[i]);
        law_triggered_transforms_are_selected(front, properties, i);
        let k = choose|k: int| 0 <= k < before.len() && (#[trigger] before[k]).id() == id;
        assert(all[k].id() == id);
    } else if !has_id(before, id) {
        assert(all[before.len() as int].id() == id);
    }
}

/// A transform that the triggers select stems from a registration whose trigger fires.
pub proof fn law_only_triggered_transforms_are_selected<F: TransformFactory>(
    registrations: Seq<TransformRegistration<F>>,
    properties: Entries,
    k: int,
)
    requires
        0 <= k < triggered(registrations, properties).len(),
    ensures
        exists|i: int|
            0 <= i < registrations.len() && contribution(#[trigger] registrations[i], properties)
                == Some(triggered(registrations, properties)[k]),
    decreases registrations.len(),
{
    let front = registrations.drop_last();
    let before = triggered(front, properties);
    if k < before.len() {
        law_only_triggered_transforms_are_selected(front, properties, k);
        let i = choose|i: int|
            0 <= i < front.len() && contribution(#[trigger] front[i], properties) == Some(before[k]);
        assert(registrations[i] == front[i]);
    } else {
        assert(contribution(registrations[registrations.len() - 1], properties) == Some(
            triggered(registrations, properties)[k],
        ));
    }
}

/// What a selection keeps while it is completed: the names that count as included are those of
/// its transforms, and no name occurs twice.
pub open spec fn is_consistent(selection: Selection) -> bool {
    &&& ids_differ(selection.transforms)
    &&& selection.included == ids_of(selection.transforms)
}

proof fn lemma_produced_id<F: TransformFactory>(
    registrations: Seq<TransformRegistration<F>>,
    properties: Entries,
    id: TransformId,
)
    requires
        names_match(registrations, properties),
    ensures
        produced(registrations, properties, id) matches Some(t) ==> t.id() == id,
    decreases registrations.len(),
{
    if registrations.len() > 0 {
        assert(registrations[0].transform_id == id || registrations[0].transform_id != id);
        let rest = registrations.drop_first();
        assert forall|i: int| 0 <= i < rest.len() implies match (
        #[trigger] rest[i]).factory.product(properties) {
            Some(t) => t.id() == rest[i].transform_id,
            None => true,
        } by {
            assert(rest[i] == registrations[i + 1]);
        }
        lemma_produced_id(rest, properties, id);
    }
}

proof fn lemma_plus_keeps<F: TransformFactory>(
    selection: Selection,
    registrations: Seq<TransformRegistration<F>>,
    properties: Entries,
    id: TransformId,
)
    requires
        names_match(registrations, properties),
        is_consistent(selection),
    ensures
        is_consistent(selection.plus(registrations, properties, id)),
        selection.transforms.is_prefix_of(
            selection.plus(registrations, properties, id).transforms,
        ),
{
    lemma_produced_id(registrations, properties, id);
    let more = selection.plus(registrations, properties, id);
    if let Some(t) = produced(registrations, properties, id) {
        if !selection.included.contains(id) {
            lemma_push_id(selection.transforms, t);
            assert(more.included =~= ids_of(more.transforms)) by {
                assert forall|x: TransformId| more.included.contains(x) == ids_of(
                    more.transforms,
                ).contains(x) by {
                    assert(has_id(more.transforms, x) <==> has_id(selection.transforms, x) || x
                        == t.id());
                }
            }
            assert(!has_id(selection.transforms, id));
        }
    }
}

proof fn lemma_plus_all_keeps<F: TransformFactory>(
    selection: Selection,
    registrations: Seq<TransformRegistration<F>>,
    properties: Entries,
    ids: Seq<TransformId>,
)
    requires
        names_match(registrations, properties),
        is_consistent(selection),
    ensures
        is_consistent(selection.plus_all(registrations, properties, ids)),
        selection.transforms.is_prefix_of(
            selection.plus_all(registrations, properties, ids).transforms,
        ),
    decreases ids.len(),
{
    if ids.len() > 0 {
        lemma_plus_all_keeps(selection, registrations, properties, ids.drop_last());
        let before = selection.plus_all(registrations, properties, ids.drop_last());
        lemma_plus_keeps(before, registrations, properties, ids.last());
    }
}

proof fn lemma_completed_keeps<F: TransformFactory>(
    selection: Selection,
    registrations: Seq<TransformRegistration<F>>,
    properties: Entries,
)
    requires
        names_match(registrations, properties),
        is_consistent(selection),
    ensures
        is_consistent(selection.completed(registrations, properties)),
        selection.transforms.is_prefix_of(
            selection.completed(registrations, properties).transforms,
        ),
    decreases selection.names_left(),
{
    lemma_next_grows(selection, registrations, properties);
    let next = selection.next(registrations, properties);
    if next.transforms.len() != selection.transforms.len() {
        lemma_plus_all_keeps(selection, registrations, properties, selection.missing());
        lemma_completed_keeps(next, registrations, properties);
    }
}

/// The names that a transform depends on are among those that the sequence depends on.
proof fn lemma_required_ids_member(transforms: Seq<TransformView>, k: int, d: int)
    requires
        0 <= k < transforms.len(),
        0 <= d < transforms[k].needs().len(),
    ensures
        required_ids(transforms).contains(required_id(transforms[k].needs()[d])),
    decreases transforms.len(),
{
    let front = transforms.drop_last();
    let before = required_ids(front);
    let last = transforms.last().needs().map_values(|x: TransformDependency| required_id(x));
    let all = required_ids(transforms);
    let id = required_id(transforms[k].needs()[d]);
    if k < front.len() {
        assert(front[k] == transforms[k]);
        lemma_required_ids_member(front, k, d);
        let i = choose|i: int| 0 <= i < before.len() && before[i] == id;
        assert(all[i] == id);
    } else {
        assert(last[d] == id);
        assert(all[before.len() + d] == id);
    }
}

/// A completed selection begins with the transforms whose triggers fire, has no name twice, and
/// has whatever one of its transforms depends on and can be made.
pub proof fn law_completed_selection<F: TransformFactory>(
    registrations: Seq<TransformRegistration<F>>,
    properties: Entries,
)
    requires
        names_match(registrations, properties),
    ensures
        ({
            let selected = initial_selection(registrations, properties).completed(
                registrations,
                properties,
            ).transforms;
            &&& triggered(registrations, properties).is_prefix_of(selected)
            &&& ids_differ(selected)
            &&& forall|k: int, d: int|
                0 <= k < selected.len() && 0 <= d < (#[trigger] selected[k]).needs().len()
                    ==> has_id(selected, required_id(#[trigger] selected[k].needs()[d]))
                    || produced(
                    registrations,
                    properties,
                    required_id(selected[k].needs()[d]),
                ) is None
        }),
{
    let start = initial_selection(registrations, properties);
    law_triggered_ids_differ(registrations, properties);
    lemma_completed_keeps(start, registrations, properties);
    let done = start.completed(registrations, properties);
    let selected = done.transforms;
    assert forall|k: int, d: int|
        0 <= k < selected.len() && 0 <= d < (#[trigger] selected[k]).needs().len() implies has_id(
        selected,
        required_id(#[trigger] selected[k].needs()[d]),
    ) || produced(registrations, properties, required_id(selected[k].needs()[d])) is None by {
        let id = required_id(selected[k].needs()[d]);
        lemma_required_ids_member(selected, k, d);
        lemma_completed_has(start, registrations, properties, id);
        if done.included.contains(id) {
            assert(ids_of(selected).contains(id));
        }
    }
}

/// What a completed selection depends on is included or cannot be made.
proof fn lemma_completed_has<F: TransformFactory>(
    selection: Selection,
    registrations: Seq<TransformRegistration<F>>,
    properties: Entries,
    id: TransformId,
)
    requires
        required_ids(selection.completed(registrations, properties).transforms).contains(id),
    ensures
        selection.completed(registrations, properties).included.contains(id) || produced(
            registrations,
            properties,
            id,
        ) is None,
{
    let done = selection.completed(registrations, properties);
    law_completed_once_is_completed(selection, registrations, properties);
    lemma_plus_all_grows(done, registrations, properties, done.missing());
    if !done.included.contains(id) {
        let keep = |x: TransformId| !done.included.contains(x);
        lemma_filter_keeps(required_ids(done.transforms), keep, id);
        let i = choose|i: int| 0 <= i < done.missing().len() && done.missing()[i] == id;
        assert(done.missing()[i] == id);
    }
}

/// What the first of some transforms depend on, all of them depend on.
proof fn lemma_required_ids_grow(some: Seq<TransformView>, all: Seq<TransformView>, id: TransformId)
    requires
        some.is_prefix_of(all),
        required_ids(some).contains(id),
    ensures
        required_ids(all).contains(id),
    decreases all.len(),
{
    if some.len() == all.len() {
        assert(some =~= all);
    } else {
        let front = all.drop_last();
        assert(some.is_prefix_of(front));
        lemma_required_ids_grow(some, front, id);
        let i = choose|i: int| 0 <= i < required_ids(front).len() && required_ids(front)[i] == id;
        assert(required_ids(all)[i] == id);
    }
}

/// Whether each transform from a position on is one that the selection depends on.
spec fn rest_is_required(selection: Selection, from: int) -> bool {
    forall|k: int|
        from <= k < selection.transforms.len() ==> required_ids(selection.transforms).contains(
            (#[trigger] selection.transforms[k]).id(),
        )
}

proof fn lemma_plus_all_required<F: TransformFactory>(
    selection: Selection,
    registrations: Seq<TransformRegistration<F>>,
    properties: Entries,
    ids: Seq<TransformId>,
    from: int,
)
    requires
        names_match(registrations, properties),
        is_consistent(selection),
        0 <= from <= selection.transforms.len(),
        rest_is_required(selection, from),
        forall|i: int|
            0 <= i < ids.len() ==> required_ids(selection.transforms).contains(#[trigger] ids[i]),
    ensures
        rest_is_required(selection.plus_all(registrations, properties, ids), from),
    decreases ids.len(),
{
    if ids.len() > 0 {
        let front = ids.drop_last();
        let id = ids.last();
        assert(ids[ids.len() - 1] == id);
        assert forall|i: int| 0 <= i < front.len() implies required_ids(
            selection.transforms,
        ).contains(#[trigger] front[i]) by {
            assert(front[i] == ids[i]);
        }
        lemma_plus_all_required(selection, registrations, properties, front, from);
        lemma_plus_all_keeps(selection, registrations, properties, front);
        let before = selection.plus_all(registrations, properties, front);
        let after = selection.plus_all(registrations, properties, ids);
        lemma_plus_keeps(before, registrations, properties, id);
        lemma_produced_id(registrations, properties, id);
        assert forall|k: int| from <= k < after.transforms.len() implies required_ids(
            after.transforms,
        ).contains((#[trigger] after.transforms[k]).id()) by {
            if k < before.transforms.len() {
                assert(after.transforms[k] == before.transforms[k]);
                lemma_required_ids_grow(
                    before.transforms,
                    after.transforms,
                    before.transforms[k].id(),
                );
            } else {
                assert(selection.transforms.is_prefix_of(after.transforms));
                lemma_required_ids_grow(selection.transforms, after.transforms, id);
            }
        }
    }
}

proof fn lemma_completed_required<F: TransformFactory>(
    selection: Selection,
    registrations: Seq<TransformRegistration<F>>,
    properties: Entries,
    from: int,
)
    requires
        names_match(registrations, properties),
        is_consistent(selection),
        0 <= from <= selection.transforms.len(),
        rest_is_required(selection, from),
    ensures
        rest_is_required(selection.completed(registrations, properties), from),
    decreases selection.names_left(),
{
    let missing = selection.missing();
    let next = selection.next(registrations, properties);
    lemma_next_grows(selection, registrations, properties);
    if next.transforms.len() != selection.transforms.len() {
        assert forall|i: int| 0 <= i < missing.len() implies required_ids(
            selection.transforms,
        ).contains(#[trigger] missing[i]) by {
            lemma_filtered_item(
                required_ids(selection.transforms),
                |id: TransformId| !selection.included.contains(id),
                i,
            );
        }
        lemma_plus_all_required(selection, registrations, properties, missing, from);
        lemma_plus_all_keeps(selection, registrations, properties, missing);
        lemma_completed_required(next, registrations, properties, from);
    }
}

/// A completed selection adds to the triggered transforms only such that one of its transforms
/// depends on.
pub proof fn law_only_dependencies_are_added<F: TransformFactory>(
    registrations: Seq<TransformRegistration<F>>,
    properties: Entries,
)
    requires
        names_match(registrations, properties),
    ensures
        ({
            let selected = initial_selection(registrations, properties).completed(
                registrations,
                properties,
            ).transforms;
            forall|k: int|
                triggered(registrations, properties).len() <= k < selected.len() ==> required_ids(
                    selected,
                ).contains((#[trigger] selected[k]).id())
        }),
{
    let start = initial_selection(registrations, properties);
    law_triggered_ids_differ(registrations, properties);
    lemma_completed_required(start, registrations, properties, start.transforms.len() as int);
}

/// Whether everything that a registered transform depends on can be made.
pub open spec fn dependencies_registered<F: TransformFactory>(
    registrations: Seq<TransformRegistration<F>>,
    properties: Entries,
) -> bool {
    forall|i: int|
        0 <= i < registrations.len() ==> match (#[trigger] registrations[i]).factory.product(
            properties,
        ) {
            Some(t) => needs_can_be_made(registrations, properties, t),
            None => true,
        }
}

/// Whether everything that a transform depends on can be made.
pub open spec fn needs_can_be_made<F: TransformFactory>(
    registrations: Seq<TransformRegistration<F>>,
    properties: Entries,
    t: TransformView,
) -> bool {
    forall|d: int|
        0 <= d < t.needs().len() ==> produced(
            registrations,
            properties,
            required_id(#[trigger] t.needs()[d]),
        ) is Some
}

spec fn all_can_be_made<F: TransformFactory>(
    registrations: Seq<TransformRegistration<F>>,
    properties: Entries,
    transforms: Seq<TransformView>,
) -> bool {
    forall|k: int|
        0 <= k < transforms.len() ==> needs_can_be_made(
            registrations,
            properties,
            #[trigger] transforms[k],
        )
}

proof fn lemma_produced_is_registered<F: TransformFactory>(
    registrations: Seq<TransformRegistration<F>>,
    properties: Entries,
    id: TransformId,
)
    requires
        produced(registrations, properties, id) is Some,
    ensures
        exists|i: int|
            0 <= i < registrations.len() && (#[trigger] registrations[i]).factory.product(
                properties,
            ) == produced(registrations, properties, id),
    decreases registrations.len(),
{
    if registrations[0].transform_id == id {
        assert(registrations[0].factory.product(properties) == produced(
            registrations,
            properties,
            id,
        ));
    } else {
        let rest = registrations.drop_first();
        lemma_produced_is_registered(rest, properties, id);
        let i = choose|i: int|
            0 <= i < rest.len() && (#[trigger] rest[i]).factory.product(properties) == produced(
                rest,
                properties,
                id,
            );
        assert(registrations[i + 1] == rest[i]);
    }
}

/// What some transforms depend on can be made, if what each of them depends on can.
proof fn lemma_required_can_be_made<F: TransformFactory>(
    registrations: Seq<TransformRegistration<F>>,
    properties: Entries,
    transforms: Seq<TransformView>,
    i: int,
)
    requires
        all_can_be_made(registrations, properties, transforms),
        0 <= i < required_ids(transforms).len(),
    ensures
        produced(registrations, properties, required_ids(transforms)[i]) is Some,
    decreases transforms.len(),
{
    let front = transforms.drop_last();
    assert forall|k: int| 0 <= k < front.len() implies needs_can_be_made(
        registrations,
        properties,
        #[trigger] front[k],
    ) by {
        assert(front[k] == transforms[k]);
    }
    let before = required_ids(front);
    if i < before.len() {
        lemma_required_can_be_made(registrations, properties, front, i);
    } else {
        let t = transforms[transforms.len() - 1];
        let d = i - before.len();
        assert(needs_can_be_made(registrations, properties, t));
        assert(required_ids(transforms)[i] == required_id(t.needs()[d]));
    }
}

proof fn lemma_plus_all_can_be_made<F: TransformFactory>(
    selection: Selection,
    registrations: Seq<TransformRegistration<F>>,
    properties: Entries,
    ids: Seq<TransformId>,
)
    requires
        dependencies_registered(registrations, properties),
        all_can_be_made(registrations, properties, selection.transforms),
    ensures
        all_can_be_made(
            registrations,
            properties,
            selection.plus_all(registrations, properties, ids).transforms,
        ),
    decreases ids.len(),
{
    if ids.len() > 0 {
        lemma_plus_all_can_be_made(selection, registrations, properties, ids.drop_last());
        if produced(registrations, properties, ids.last()) is Some {
            lemma_produced_is_registered(registrations, properties, ids.last());
        }
    }
}

proof fn lemma_completed_can_be_made<F: TransformFactory>(
    selection: Selection,
    registrations: Seq<TransformRegistration<F>>,
    properties: Entries,
)
    requires
        dependencies_registered(registrations, properties),
        all_can_be_made(registrations, properties, selection.transforms),
    ensures
        all_can_be_made(
            registrations,
            properties,
            selection.completed(registrations, properties).transforms,
        ),
    decreases selection.names_left(),
{
    let missing = selection.missing();
    let next = selection.next(registrations, properties);
    lemma_next_grows(selection, registrations, properties);
    if next.transforms.len() != selection.transforms.len() {
        lemma_plus_all_can_be_made(selection, registrations, properties, missing);
        lemma_completed_can_be_made(next, registrations, properties);
    }
}

/// If everything that a registered transform depends on can be made, then a completed selection
/// misses nothing.
pub proof fn law_closed_registry_misses_nothing<F: TransformFactory>(
    registrations: Seq<TransformRegistration<F>>,
    properties: Entries,
)
    requires
        dependencies_registered(registrations, properties),
    ensures
        initial_selection(registrations, properties).completed(
            registrations,
            properties,
        ).missing() == Seq::<TransformId>::empty(),
{
    let start = initial_selection(registrations, properties);
    assert forall|k: int| 0 <= k < start.transforms.len() implies needs_can_be_made(
        registrations,
        properties,
        #[trigger] start.transforms[k],
    ) by {
        law_only_triggered_transforms_are_selected(registrations, properties, k);
        let i = choose|i: int|
            0 <= i < registrations.len() && contribution(#[trigger] registrations[i], properties)
                == Some(start.transforms[k]);
        assert(registrations[i].factory.product(properties) == Some(start.transforms[k]));
    }
    lemma_completed_can_be_made(start, registrations, properties);
    let done = start.completed(registrations, properties);
    if done.missing().len() > 0 {
        let id = done.missing()[0];
        lemma_filtered_item(
            required_ids(done.transforms),
            |x: TransformId| !done.included.contains(x),
            0,
        );
        let j = choose|j: int|
            0 <= j < required_ids(done.transforms).len() && required_ids(done.transforms)[j] == id;
        lemma_required_can_be_made(registrations, properties, done.transforms, j);
        lemma_completed_has(start, registrations, properties, id);
    }
}

/// The registry of table creation selects exactly [`built_in_selection`], for any properties.
pub proof fn law_built_in_selection(properties: Entries)
    ensures
        initial_selection(built_in_registrations(), properties).completed(
            built_in_registrations(),
            properties,
        ).transforms == built_in_selection(properties),
{
    reveal_with_fuel(triggered, 5);
    reveal_with_fuel(required_ids, 5);
    reveal(Seq::filter);
    let all = built_in_registrations();
    let r3 = all.drop_last();
    let r2 = r3.drop_last();
    let r1 = r2.drop_last();
    assert(r1.drop_last() =~= Seq::empty());
    let one = seq![TransformView::DeltaPropertyValidation];
    let two = one.push(TransformView::ProtocolVersion);
    assert(!has_id(Seq::empty(), TransformId::DeltaPropertyValidation));
    assert(triggered(r1, properties) =~= one);
    assert(!has_id(one, TransformId::ProtocolVersion));
    assert(triggered(r2, properties) =~= two);
    let third = if any_signal(properties) {
        two.push(TransformView::FeatureSignals)
    } else {
        two
    };
    assert(!has_id(two, TransformId::FeatureSignals));
    assert(triggered(r3, properties) =~= third);
    assert(!has_id(third, TransformId::DomainMetadata));
    assert(triggered(all, properties) =~= built_in_selection(properties));
    let start = initial_selection(all, properties);
    lemma_no_needs(start.transforms);
    assert(start.missing() =~= Seq::empty());
}

/// Transforms without dependencies require nothing.
proof fn lemma_no_needs(transforms: Seq<TransformView>)
    requires
        forall|i: int| 0 <= i < transforms.len() ==> (#[trigger] transforms[i]).needs().len() == 0,
    ensures
        required_ids(transforms) == Seq::<TransformId>::empty(),
    decreases transforms.len(),
{
    if transforms.len() > 0 {
        let front = transforms.drop_last();
        assert forall|i: int| 0 <= i < front.len() implies (#[trigger] front[i]).needs().len()
            == 0 by {
            assert(front[i] == transforms[i]);
        }
        lemma_no_needs(front);
        assert(transforms[transforms.len() - 1].needs().len() == 0);
        assert(required_ids(transforms) =~= Seq::empty());
    }
}

/// A signal for one feature is a signal: where it triggers a transform, so does the presence of
/// signals.
pub proof fn law_a_feature_signal_is_a_signal(feature: TableFeature, properties: Entries)
    ensures
        TransformTrigger::FeatureSignal(feature).fires(properties)
            ==> TransformTrigger::FeatureSignalsPresent.fires(properties),
{
    let key = signal_key(feature@.name);
    let prefix = SET_TABLE_FEATURE_SUPPORTED_PREFIX@;
    lemma_lookup_present(properties, key);
    if has_key(properties, key) {
        let i = choose|i: int| 0 <= i < properties.len() && #[trigger] properties[i].0 == key;
        assert(key.take(prefix.len() as int) =~= prefix);
        assert(is_signal(properties[i].0));
    }
}

/// What a trigger does depends on the properties and not on their order.
pub proof fn law_triggers_ignore_order(trigger: TransformTrigger, a: Entries, b: Entries)
    requires
        keys_differ(a),
        keys_differ(b),
        a.to_multiset() == b.to_multiset(),
    ensures
        trigger.fires(a) == trigger.fires(b),
{
    match trigger {
        TransformTrigger::FeatureSignal(feature) => {
            law_lookup_in_any_order(a, b, signal_key(feature@.name));
        },
        TransformTrigger::Property(name) => {
            law_lookup_in_any_order(a, b, name@);
            lemma_lookup_present(a, name@);
            lemma_lookup_present(b, name@);
        },
        TransformTrigger::FeatureSignalsPresent => {
            if any_signal(a) {
                lemma_signals_in_any_order(a, b);
            }
            if any_signal(b) {
                lemma_signals_in_any_order(b, a);
            }
        },
        _ => {},
    }
}

proof fn lemma_signals_in_any_order(a: Entries, b: Entries)
    requires
        a.to_multiset() == b.to_multiset(),
        any_signal(a),
    ensures
        any_signal(b),
{
    broadcast use vstd::seq_lib::group_to_multiset_ensures;

    let i = choose|i: int| 0 <= i < a.len() && is_signal(#[trigger] a[i].0);
    assert(a.contains(a[i]));
    assert(b.to_multiset().contains(a[i]));
    let j = choose|j: int| 0 <= j < b.len() && b[j] == a[i];
    assert(is_signal(b[j].0));
}

/// A property trigger fires exactly if an entry has that name as its key, whatever the name and
/// the value.
pub proof fn law_property_triggers(name: &'static str, properties: Entries)
    ensures
        TransformTrigger::Property(name).fires(properties) <==> exists|i: int|
            0 <= i < properties.len() && #[trigger] properties[i].0 == name@,
{
}

/// Setting a property makes its trigger fire, and makes no other property trigger fire or stop.
pub proof fn law_setting_a_property_triggers(
    name: &'static str,
    other: &'static str,
    properties: Entries,
    value: Seq<char>,
)
    ensures
        TransformTrigger::Property(name).fires(put(properties, name@, value)),
        other@ != name@ ==> TransformTrigger::Property(other).fires(put(properties, name@, value))
            == TransformTrigger::Property(other).fires(properties),
{
    let more = put(properties, name@, value);
    law_lookup_after_put(properties, name@, value, name@);
    law_lookup_after_put(properties, name@, value, other@);
    lemma_lookup_present(more, name@);
    lemma_lookup_present(more, other@);
    lemma_lookup_present(properties, other@);
}

/// A feature trigger fires exactly if the property `delta.feature.` with the feature's name has the
/// value `supported`.
pub proof fn law_feature_triggers(feature: TableFeature, properties: Entries)
    requires
        keys_differ(properties),
    ensures
        TransformTrigger::FeatureSignal(feature).fires(properties) <==> properties.contains(
            ("delta.feature."@ + feature@.name, "supported"@),
        ),
        signal_key(feature@.name) == "delta.feature."@ + feature@.name,
{
    law_lookup_finds_entries(properties, "delta.feature."@ + feature@.name, "supported"@);
}

/// Some triggers fire always, some never, and one exactly if there is a request for a feature.
pub proof fn law_other_triggers(
    check: SchemaTypeCheck,
    kind: DataLayoutKind,
    properties: Entries,
)
    ensures
        TransformTrigger::Always.fires(properties),
        !TransformTrigger::SchemaType(check).fires(properties),
        !TransformTrigger::DataLayout(kind).fires(properties),
        TransformTrigger::FeatureSignalsPresent.fires(properties) <==> exists|i: int|
            0 <= i < properties.len() && "delta.feature."@.is_prefix_of(
                #[trigger] properties[i].0,
            ),
{
    if exists|i: int|
        0 <= i < properties.len() && "delta.feature."@.is_prefix_of(#[trigger] properties[i].0) {
        let i = choose|i: int|
            0 <= i < properties.len() && "delta.feature."@.is_prefix_of(#[trigger] properties[i].0);
        assert(is_signal(properties[i].0));
    }
    if any_signal(properties) {
        let i = choose|i: int| 0 <= i < properties.len() && is_signal(#[trigger] properties[i].0);
        assert("delta.feature."@.is_prefix_of(properties[i].0));
    }
}

/// One more registration adds its transform at the end if its trigger fires and its factory makes
/// one, unless a transform of that name is there; otherwise it changes nothing. So transforms stand
/// in the order of their registration.
pub proof fn law_one_more_registration<F: TransformFactory>(
    registrations: Seq<TransformRegistration<F>>,
    registration: TransformRegistration<F>,
    properties: Entries,
)
    ensures
        triggered(Seq::<TransformRegistration<F>>::empty(), properties).len() == 0,
        ({
            let before = triggered(registrations, properties);
            let made = registration.factory.product(properties);
            triggered(registrations.push(registration), properties)
                == if registration.trigger.fires(properties) && made is Some && !(exists|i: int|
                0 <= i < before.len() && (#[trigger] before[i]).id() == made->0.id()) {
                before.push(made->0)
            } else {
                before
            }
        }),
{
    assert(registrations.push(registration).drop_last() =~= registrations);
}

/// What can be made under a name is what the first registration under this name makes; nothing can
/// be made under a name that is not registered.
pub proof fn law_first_registration_makes<F: TransformFactory>(
    registrations: Seq<TransformRegistration<F>>,
    properties: Entries,
    id: TransformId,
    i: int,
)
    ensures
        0 <= i < registrations.len() && registrations[i].transform_id == id && (forall|j: int|
            0 <= j < i ==> (#[trigger] registrations[j]).transform_id != id) ==> produced(
            registrations,
            properties,
            id,
        ) == registrations[i].factory.product(properties),
        (forall|j: int|
            0 <= j < registrations.len() ==> (#[trigger] registrations[j]).transform_id != id)
            ==> produced(registrations, properties, id) is None,
    decreases registrations.len(),
{
    if registrations.len() > 0 {
        let rest = registrations.drop_first();
        law_first_registration_makes(rest, properties, id, i - 1);
        if forall|j: int|
            0 <= j < registrations.len() ==> (#[trigger] registrations[j]).transform_id != id {
            assert forall|j: int| 0 <= j < rest.len() implies (#[trigger] rest[j]).transform_id
                != id by {
                assert(rest[j] == registrations[j + 1]);
            }
        }
        if 0 < i < registrations.len() && registrations[i].transform_id == id && (forall|j: int|
            0 <= j < i ==> (#[trigger] registrations[j]).transform_id != id) {
            assert(registrations[0].transform_id != id);
            assert(rest[i - 1] == registrations[i]);
            assert forall|j: int| 0 <= j < i - 1 implies (#[trigger] rest[j]).transform_id != id by {
                assert(rest[j] == registrations[j + 1]);
            }
        }
    }
}

/// Transforms require exactly what one of them depends on.
pub proof fn law_what_transforms_require(transforms: Seq<TransformView>, id: TransformId)
    ensures
        required_ids(transforms).contains(id) <==> exists|k: int|
            0 <= k < transforms.len() && (#[trigger] transforms[k]).needs().contains(
                TransformDependency::TransformRequired(id),
            ),
    decreases transforms.len(),
{
    let dep = TransformDependency::TransformRequired(id);
    if transforms.len() > 0 {
        let front = transforms.drop_last();
        let last = transforms[transforms.len() - 1];
        let before = required_ids(front);
        let mapped = last.needs().map_values(|x: TransformDependency| required_id(x));
        let all = required_ids(transforms);
        law_what_transforms_require(front, id);
        if all.contains(id) {
            let i = choose|i: int| 0 <= i < all.len() && all[i] == id;
            if i < before.len() {
                assert(before[i] == id);
                let k = choose|k: int|
                    0 <= k < front.len() && (#[trigger] front[k]).needs().contains(dep);
                assert(transforms[k].needs().contains(dep));
            } else {
                let d = i - before.len();
                assert(mapped[d] == id);
                assert(last.needs()[d] == dep);
                assert(transforms[transforms.len() - 1].needs().contains(dep));
            }
        }
        if exists|k: int|
            0 <= k < transforms.len() && (#[trigger] transforms[k]).needs().contains(dep) {
            let k = choose|k: int|
                0 <= k < transforms.len() && (#[trigger] transforms[k]).needs().contains(dep);
            let d = choose|d: int|
                0 <= d < transforms[k].needs().len() && transforms[k].needs()[d] == dep;
            lemma_required_ids_member(transforms, k, d);
        }
    }
}

/// Whether one selection grew out of another only by what it depends on: the transforms that were
/// there stand first, the names that were included stay, and each further name is one that a
/// transform of the selection depends on, with the transform that its registration makes.
spec fn grew_by_dependencies<F: TransformFactory>(
    registrations: Seq<TransformRegistration<F>>,
    properties: Entries,
    before: Selection,
    after: Selection,
) -> bool {
    &&& before.transforms.is_prefix_of(after.transforms)
    &&& before.included.subset_of(after.included)
    &&& forall|id: TransformId| #[trigger]
        after.included.contains(id) && !before.included.contains(id) ==> {
            &&& required_ids(after.transforms).contains(id)
            &&& produced(registrations, properties, id) is Some
            &&& after.transforms.contains(produced(registrations, properties, id)->0)
        }
    &&& forall|k: int|
        before.transforms.len() <= k < after.transforms.len() ==> was_made(
            registrations,
            properties,
            before,
            after,
            #[trigger] after.transforms[k],
        )
}

spec fn was_made<F: TransformFactory>(
    registrations: Seq<TransformRegistration<F>>,
    properties: Entries,
    before: Selection,
    after: Selection,
    t: TransformView,
) -> bool {
    exists|id: TransformId| #[trigger]
        after.included.contains(id) && !before.included.contains(id) && produced(
            registrations,
            properties,
            id,
        ) == Some(t)
}

proof fn lemma_growth_by_one<F: TransformFactory>(
    registrations: Seq<TransformRegistration<F>>,
    properties: Entries,
    start: Selection,
    before: Selection,
    id: TransformId,
)
    requires
        grew_by_dependencies(registrations, properties, start, before),
        required_ids(before.transforms).contains(id),
    ensures
        grew_by_dependencies(
            registrations,
            properties,
            start,
            before.plus(registrations, properties, id),
        ),
        before.transforms.is_prefix_of(before.plus(registrations, properties, id).transforms),
{
    let after = before.plus(registrations, properties, id);
    if !before.included.contains(id) && produced(registrations, properties, id) is Some {
        let t = produced(registrations, properties, id)->0;
        assert(before.transforms.is_prefix_of(after.transforms));
        assert forall|x: TransformId| #[trigger]
            after.included.contains(x) && !start.included.contains(x) implies {
            &&& required_ids(after.transforms).contains(x)
            &&& produced(registrations, properties, x) is Some
            &&& after.transforms.contains(produced(registrations, properties, x)->0)
        } by {
            if x == id {
                lemma_required_ids_grow(before.transforms, after.transforms, id);
                assert(after.transforms[before.transforms.len() as int] == t);
            } else {
                assert(before.included.contains(x));
                lemma_required_ids_grow(before.transforms, after.transforms, x);
                let made = produced(registrations, properties, x)->0;
                let k = choose|k: int|
                    0 <= k < before.transforms.len() && before.transforms[k] == made;
                assert(after.transforms[k] == made);
            }
        }
        assert forall|k: int| start.transforms.len() <= k < after.transforms.len() implies was_made(
            registrations,
            properties,
            start,
            after,
            #[trigger] after.transforms[k],
        ) by {
            if k < before.transforms.len() {
                assert(after.transforms[k] == before.transforms[k]);
                assert(was_made(registrations, properties, start, before, before.transforms[k]));
                let x = choose|x: TransformId| #[trigger]
                    before.included.contains(x) && !start.included.contains(x) && produced(
                        registrations,
                        properties,
                        x,
                    ) == Some(before.transforms[k]);
                assert(after.included.contains(x));
            } else {
                assert(after.included.contains(id));
            }
        }
    }
}

proof fn lemma_growth_by_all<F: TransformFactory>(
    registrations: Seq<TransformRegistration<F>>,
    properties: Entries,
    start: Selection,
    before: Selection,
    ids: Seq<TransformId>,
)
    requires
        grew_by_dependencies(registrations, properties, start, before),
        forall|i: int|
            0 <= i < ids.len() ==> required_ids(before.transforms).contains(#[trigger] ids[i]),
    ensures
        grew_by_dependencies(
            registrations,
            properties,
            start,
            before.plus_all(registrations, properties, ids),
        ),
        before.transforms.is_prefix_of(before.plus_all(registrations, properties, ids).transforms),
    decreases ids.len(),
{
    if ids.len() > 0 {
        let front = ids.drop_last();
        let id = ids[ids.len() - 1];
        assert forall|i: int| 0 <= i < front.len() implies required_ids(
            before.transforms,
        ).contains(#[trigger] front[i]) by {
            assert(front[i] == ids[i]);
        }
        lemma_growth_by_all(registrations, properties, start, before, front);
        let middle = before.plus_all(registrations, properties, front);
        lemma_required_ids_grow(before.transforms, middle.transforms, id);
        lemma_growth_by_one(registrations, properties, start, middle, id);
    }
}

proof fn lemma_completed_growth<F: TransformFactory>(
    registrations: Seq<TransformRegistration<F>>,
    properties: Entries,
    start: Selection,
    selection: Selection,
)
    requires
        grew_by_dependencies(registrations, properties, start, selection),
    ensures
        grew_by_dependencies(
            registrations,
            properties,
            start,
            selection.completed(registrations, properties),
        ),
    decreases selection.names_left(),
{
    let missing = selection.missing();
    let next = selection.next(registrations, properties);
    lemma_next_grows(selection, registrations, properties);
    if next.transforms.len() != selection.transforms.len() {
        assert forall|i: int| 0 <= i < missing.len() implies required_ids(
            selection.transforms,
        ).contains(#[trigger] missing[i]) by {
            lemma_filtered_item(
                required_ids(selection.transforms),
                |id: TransformId| !selection.included.contains(id),
                i,
            );
        }
        lemma_growth_by_all(registrations, properties, start, selection, missing);
        lemma_completed_growth(registrations, properties, start, next);
    }
}

/// Resolving any selection keeps its transforms in front and its names included. Whatever one of
/// the resulting transforms depends on is included or cannot be made; whatever was added is
/// something that one of them depends on, and is what its registration makes.
pub proof fn law_resolution<F: TransformFactory>(
    selection: Selection,
    registrations: Seq<TransformRegistration<F>>,
    properties: Entries,
    k: int,
    id: TransformId,
)
    ensures
        ({
            let done = selection.completed(registrations, properties);
            &&& selection.transforms.is_prefix_of(done.transforms)
            &&& selection.included.contains(id) ==> done.included.contains(id)
            &&& 0 <= k < done.transforms.len() && done.transforms[k].needs().contains(
                TransformDependency::TransformRequired(id),
            ) ==> done.included.contains(id) || produced(registrations, properties, id) is None
            &&& done.included.contains(id) && !selection.included.contains(id) ==> {
                &&& produced(registrations, properties, id) is Some
                &&& done.transforms.contains(produced(registrations, properties, id)->0)
                &&& exists|j: int|
                    0 <= j < done.transforms.len() && (
                    #[trigger] done.transforms[j]).needs().contains(
                        TransformDependency::TransformRequired(id),
                    )
            }
            &&& selection.transforms.len() <= k < done.transforms.len() ==> exists|x: TransformId|
                #[trigger]
                done.included.contains(x) && !selection.included.contains(x) && produced(
                    registrations,
                    properties,
                    x,
                ) == Some(done.transforms[k])
        }),
{
    let done = selection.completed(registrations, properties);
    lemma_completed_growth(registrations, properties, selection, selection);
    law_what_transforms_require(done.transforms, id);
    if 0 <= k < done.transforms.len() && done.transforms[k].needs().contains(
        TransformDependency::TransformRequired(id),
    ) {
        lemma_completed_has(selection, registrations, properties, id);
    }
    if selection.transforms.len() <= k < done.transforms.len() {
        assert(was_made(registrations, properties, selection, done, done.transforms[k]));
    }
}

/// A vector of transforms stands for its items, one for one, and a vector of names for the names in
/// it. A selection starts with the triggered transforms, and their names are included.
pub proof fn law_selections_are_itemwise<F: TransformFactory>(
    transforms: Seq<Transform>,
    included: Seq<TransformId>,
    registrations: Seq<TransformRegistration<F>>,
    properties: Entries,
    i: int,
    id: TransformId,
)
    ensures
        transform_views(transforms).len() == transforms.len(),
        0 <= i < transforms.len() ==> transform_views(transforms)[i] == transforms[i]@,
        selection_of(transforms, included).transforms == transform_views(transforms),
        selection_of(transforms, included).included.contains(id) <==> included.contains(id),
        initial_selection(registrations, properties).transforms == triggered(
            registrations,
            properties,
        ),
        initial_selection(registrations, properties).included.contains(id) <==> exists|k: int|
            0 <= k < triggered(registrations, properties).len() && (#[trigger] triggered(
                registrations,
                properties,
            )[k]).id() == id,
{
}

/// What table creation selects: first the check of the properties, then the versions, always; then
/// the signals exactly if a property begins with `delta.feature.`; then domain metadata exactly if
/// it is asked for with the value `supported`; and nothing else.
pub proof fn law_what_table_creation_selects(properties: Entries)
    requires
        keys_differ(properties),
    ensures
        ({
            let selected = initial_selection(built_in_registrations(), properties).completed(
                built_in_registrations(),
                properties,
            ).transforms;
            let signals = exists|i: int|
                0 <= i < properties.len() && "delta.feature."@.is_prefix_of(
                    #[trigger] properties[i].0,
                );
            let domain = properties.contains(("delta.feature."@ + "domainMetadata"@, "supported"@));
            &&& selected.len() == 2 + (if signals {
                1int
            } else {
                0int
            }) + (if domain {
                1int
            } else {
                0int
            })
            &&& selected[0] == TransformView::DeltaPropertyValidation
            &&& selected[1] == TransformView::ProtocolVersion
            &&& signals ==> selected[2] == TransformView::FeatureSignals
            &&& domain ==> selected.last() == TransformView::DomainMetadata
        }),
{
    law_built_in_selection(properties);
    law_lookup_finds_entries(properties, "delta.feature."@ + "domainMetadata"@, "supported"@);
    law_other_triggers(
        SchemaTypeCheck::ContainsType(DataType::Primitive(PrimitiveType::String)),
        DataLayoutKind::Clustered,
        properties,
    );
}

/// Triggers are the same only if they are of one kind and about the same thing.
pub proof fn law_same_triggers(a: TransformTrigger, b: TransformTrigger)
    requires
        same_trigger(a, b),
    ensures
        a is Always <==> b is Always,
        a is FeatureSignal <==> b is FeatureSignal,
        a is Property <==> b is Property,
        a is SchemaType <==> b is SchemaType,
        a is DataLayout <==> b is DataLayout,
        a is FeatureSignalsPresent <==> b is FeatureSignalsPresent,
        a is FeatureSignal ==> a->FeatureSignal_0@ == b->FeatureSignal_0@,
        a is Property ==> a->Property_0@ == b->Property_0@,
        a is DataLayout ==> a->DataLayout_0 == b->DataLayout_0,
        a is SchemaType ==> same_type(
            a->SchemaType_0->ContainsType_0,
            b->SchemaType_0->ContainsType_0,
        ),
{
}

} // verus!
