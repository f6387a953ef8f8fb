//! Which transforms a set of properties calls for.
//!
//! A registration says when a transform is triggered and how to make it. The registry selects the
//! transforms whose triggers fire, and with them the transforms that they depend on.

use crate::error::DeltaResult;
use crate::schema::{same_type, struct_contains, type_contains, DataType, StructType};
use crate::seqs::lemma_push_contains;
use crate::table_features::{
    TableFeature, SET_TABLE_FEATURE_SUPPORTED_PREFIX, SET_TABLE_FEATURE_SUPPORTED_VALUE,
};
use crate::table_properties::{has_key, lookup, Entries, PropertyMap};
use crate::table_transformation::transforms::{
    is_signal, DeltaPropertyValidationTransform, DomainMetadataTransform, FeatureSignalTransform,
    ProtocolVersionTransform, Transform, TransformView,
};
use crate::table_transformation::{ProtocolMetadataTransform, TransformDependency, TransformId};
use crate::text::{same_text, starts_with};
use vstd::prelude::*;

verus! {

/// What a factory can go by when it makes a transform.
#[derive(Debug)]
pub struct TransformContext<'a> {
    /// The user's properties, requests among them.
    pub properties: &'a PropertyMap,
}

impl<'a> View for TransformContext<'a> {
    type V = Entries;

    open spec fn view(&self) -> Entries {
        self.properties@
    }
}

impl<'a> TransformContext<'a> {
    /// The context of a set of properties.
    pub fn new(properties: &'a PropertyMap) -> (r: TransformContext<'a>)
        ensures
            r@ == properties@,
    {
        TransformContext { properties }
    }
}

/// Makes a transform.
pub trait TransformFactory: Sized {
    /// The transform made for some properties; `None` if there is nothing for it to do.
    spec fn product(&self, properties: Entries) -> Option<TransformView>;

    /// Makes the transform.
    fn create(&self, context: &TransformContext<'_>) -> (r: Option<Transform>)
        ensures
            match r {
                Some(t) => self.product(context@) == Some(t@),
                None => self.product(context@) is None,
            },
    ;
}

/// How a schema is looked at for a type.
#[derive(Debug)]
pub enum SchemaTypeCheck {
    /// The schema contains this type at any level.
    ContainsType(DataType),
}

/// A way to lay out data that can trigger a transform.
#[derive(Debug, Clone, Copy, PartialEq, Eq, Structural)]
pub enum DataLayoutKind {
    Partitioned,
    Clustered,
}

/// When a transform is selected.
#[derive(Debug)]
pub enum TransformTrigger {
    /// In any case.
    Always,
    /// If a signal asks for this feature.
    FeatureSignal(TableFeature),
    /// If this property is set.
    Property(&'static str),
    /// If the schema has a type. A selection looks at properties only, so this does not fire.
    SchemaType(SchemaTypeCheck),
    /// If the table has a layout. A selection looks at properties only, so this does not fire.
    DataLayout(DataLayoutKind),
    /// If a signal asks for some feature.
    FeatureSignalsPresent,
}

/// Whether two schema checks look for the same type.
pub open spec fn same_check(a: SchemaTypeCheck, b: SchemaTypeCheck) -> bool {
    match (a, b) {
        (SchemaTypeCheck::ContainsType(x), SchemaTypeCheck::ContainsType(y)) => same_type(x, y),
    }
}

impl Clone for SchemaTypeCheck {
    fn clone(&self) -> (r: SchemaTypeCheck)
        ensures
            same_check(r, *self),
    {
        match self {
            SchemaTypeCheck::ContainsType(target) => SchemaTypeCheck::ContainsType(target.clone()),
        }
    }
}

/// Whether two triggers are the same.
pub open spec fn same_trigger(a: TransformTrigger, b: TransformTrigger) -> bool {
    match (a, b) {
        (TransformTrigger::Always, TransformTrigger::Always) => true,
        (TransformTrigger::FeatureSignal(x), TransformTrigger::FeatureSignal(y)) => x@ == y@,
        (TransformTrigger::Property(x), TransformTrigger::Property(y)) => x@ == y@,
        (TransformTrigger::SchemaType(x), TransformTrigger::SchemaType(y)) => same_check(x, y),
        (TransformTrigger::DataLayout(x), TransformTrigger::DataLayout(y)) => x == y,
        (TransformTrigger::FeatureSignalsPresent, TransformTrigger::FeatureSignalsPresent) => true,
        _ => false,
    }
}

impl Clone for TransformTrigger {
    fn clone(&self) -> (r: TransformTrigger)
        ensures
            same_trigger(r, *self),
            forall|properties: Entries| #[trigger]
                r.fires(properties) == self.fires(properties),
    {
        match self {
            TransformTrigger::Always => TransformTrigger::Always,
            TransformTrigger::FeatureSignal(f) => TransformTrigger::FeatureSignal(f.clone()),
            TransformTrigger::Property(name) => TransformTrigger::Property(name),
            TransformTrigger::SchemaType(check) => TransformTrigger::SchemaType(check.clone()),
            TransformTrigger::DataLayout(kind) => TransformTrigger::DataLayout(*kind),
            TransformTrigger::FeatureSignalsPresent => TransformTrigger::FeatureSignalsPresent,
        }
    }
}

/// The property that asks for a feature.
pub open spec fn signal_key(feature: Seq<char>) -> Seq<char> {
    SET_TABLE_FEATURE_SUPPORTED_PREFIX@ + feature
}

/// Whether a property asks for some feature.
pub open spec fn any_signal(properties: Entries) -> bool {
    exists|i: int| 0 <= i < properties.len() && is_signal(#[trigger] properties[i].0)
}

impl TransformTrigger {
    /// Whether the trigger fires for some properties.
    pub open spec fn fires(self, properties: Entries) -> bool {
        match self {
            TransformTrigger::Always => true,
            TransformTrigger::FeatureSignal(feature) => lookup(
                properties,
                signal_key(feature@.name),
            ) == Some(SET_TABLE_FEATURE_SUPPORTED_VALUE@),
            TransformTrigger::Property(name) => has_key(properties, name@),
            TransformTrigger::SchemaType(_) => false,
            TransformTrigger::DataLayout(_) => false,
            TransformTrigger::FeatureSignalsPresent => any_signal(properties),
        }
    }

    /// Whether the trigger fires.
    pub fn is_triggered(&self, properties: &PropertyMap) -> (r: bool)
        ensures
            r == self.fires(properties@),
    {
        match self {
            TransformTrigger::Always => true,
            TransformTrigger::FeatureSignal(feature) => {
                let key = SET_TABLE_FEATURE_SUPPORTED_PREFIX.to_owned().concat(feature.as_ref());
                match properties.get(key.as_str()) {
                    Some(value) => same_text(value, SET_TABLE_FEATURE_SUPPORTED_VALUE),
                    None => false,
                }
            },
            TransformTrigger::Property(name) => properties.contains_key(name),
            TransformTrigger::SchemaType(_) => false,
            TransformTrigger::DataLayout(_) => false,
            TransformTrigger::FeatureSignalsPresent => has_signal(properties),
        }
    }
}

fn has_signal(properties: &PropertyMap) -> (r: bool)
    ensures
        r == any_signal(properties@),
{
    let len: usize = properties.len();
    let mut i: usize = 0;
    while i < len
        invariant
            len == properties@.len(),
            i <= len,
            forall|j: int| 0 <= j < i ==> !is_signal(#[trigger] properties@[j].0),
        decreases len - i,
    {
        if starts_with(properties.key_at(i), SET_TABLE_FEATURE_SUPPORTED_PREFIX) {
            return true;
        }
        i = i + 1;
    }
    false
}

/// A transform that the registry can select.
#[derive(Debug)]
pub struct TransformRegistration<F> {
    /// The name under which other transforms depend on it.
    pub transform_id: TransformId,
    /// The feature that it is about, if it is about one.
    pub feature: Option<TableFeature>,
    /// When it is selected.
    pub trigger: TransformTrigger,
    /// How it is made.
    pub factory: F,
}

/// The transforms that can be selected.
#[derive(Debug)]
pub struct TransformRegistry<F> {
    registrations: Vec<TransformRegistration<F>>,
}

impl<F> View for TransformRegistry<F> {
    type V = Seq<TransformRegistration<F>>;

    closed spec fn view(&self) -> Seq<TransformRegistration<F>> {
        self.registrations@
    }
}

/// A selection on its way: the transforms so far, and the names that count as included.
#[verifier::ext_equal]
pub struct Selection {
    pub transforms: Seq<TransformView>,
    pub included: Set<TransformId>,
}

/// The names of some transforms.
pub open spec fn ids_of(transforms: Seq<TransformView>) -> Set<TransformId> {
    Set::new(|id: TransformId| has_id(transforms, id))
}

/// Whether a transform of the sequence has this name.
pub open spec fn has_id(transforms: Seq<TransformView>, id: TransformId) -> bool {
    exists|i: int| 0 <= i < transforms.len() && (#[trigger] transforms[i]).id() == id
}

/// The transform that a registration contributes by its trigger.
pub open spec fn contribution<F: TransformFactory>(
    registration: TransformRegistration<F>,
    properties: Entries,
) -> Option<TransformView> {
    if registration.trigger.fires(properties) {
        registration.factory.product(properties)
    } else {
        None
    }
}

/// The transforms whose triggers fire, in the order of their registration; of those with one name
/// only the first.
pub open spec fn triggered<F: TransformFactory>(
    registrations: Seq<TransformRegistration<F>>,
    properties: Entries,
) -> Seq<TransformView>
    decreases registrations.len(),
{
    if registrations.len() == 0 {
        Seq::empty()
    } else {
        let before = triggered(registrations.drop_last(), properties);
        match contribution(registrations.last(), properties) {
            Some(t) => if has_id(before, t.id()) {
                before
            } else {
                before.push(t)
            },
            None => before,
        }
    }
}

/// The name that a dependency is about.
pub open spec fn required_id(dependency: TransformDependency) -> TransformId {
    match dependency {
        TransformDependency::TransformRequired(id) => id,
    }
}

/// The names that some transforms depend on, in order.
pub open spec fn required_ids(transforms: Seq<TransformView>) -> Seq<TransformId>
    decreases transforms.len(),
{
    if transforms.len() == 0 {
        Seq::empty()
    } else {
        required_ids(transforms.drop_last()) + transforms.last().needs().map_values(
            |d: TransformDependency| required_id(d),
        )
    }
}

/// The transform that the first registration under a name makes.
pub open spec fn produced<F: TransformFactory>(
    registrations: Seq<TransformRegistration<F>>,
    properties: Entries,
    id: TransformId,
) -> Option<TransformView>
    decreases registrations.len(),
{
    if registrations.len() == 0 {
        None
    } else if registrations[0].transform_id == id {
        registrations[0].factory.product(properties)
    } else {
        produced(registrations.drop_first(), properties, id)
    }
}

impl Selection {
    /// The names that the selection depends on and does not include, in order.
    pub open spec fn missing(self) -> Seq<TransformId> {
        required_ids(self.transforms).filter(|id: TransformId| !self.included.contains(id))
    }

    /// The selection with the transform under a name, if it is not included and can be made.
    pub open spec fn plus<F: TransformFactory>(
        self,
        registrations: Seq<TransformRegistration<F>>,
        properties: Entries,
        id: TransformId,
    ) -> Selection {
        if self.included.contains(id) {
            self
        } else {
            match produced(registrations, properties, id) {
                Some(t) => Selection {
                    transforms: self.transforms.push(t),
                    included: self.included.insert(id),
                },
                None => self,
            }
        }
    }

    /// The selection with the transforms under some names, from first to last.
    pub open spec fn plus_all<F: TransformFactory>(
        self,
        registrations: Seq<TransformRegistration<F>>,
        properties: Entries,
        ids: Seq<TransformId>,
    ) -> Selection
        decreases ids.len(),
    {
        if ids.len() == 0 {
            self
        } else {
            self.plus_all(registrations, properties, ids.drop_last()).plus(
                registrations,
                properties,
                ids.last(),
            )
        }
    }

    /// The selection with what it is missing, as far as that can be made.
    pub open spec fn next<F: TransformFactory>(
        self,
        registrations: Seq<TransformRegistration<F>>,
        properties: Entries,
    ) -> Selection {
        self.plus_all(registrations, properties, self.missing())
    }

    /// The number of names that do not count as included.
    pub open spec fn names_left(self) -> nat {
        all_ids().difference(self.included).len()
    }

    /// The selection with everything that it depends on, directly or not, and that can be made:
    /// what is missing is added until there is nothing more to add.
    pub open spec fn completed<F: TransformFactory>(
        self,
        registrations: Seq<TransformRegistration<F>>,
        properties: Entries,
    ) -> Selection
        decreases self.names_left(),
    {
        proof {
            lemma_next_grows(self, registrations, properties);
        }
        let next = self.next(registrations, properties);
        if next.transforms.len() == self.transforms.len() {
            self
        } else {
            next.completed(registrations, properties)
        }
    }
}

/// All names of transforms.
pub open spec fn all_ids() -> Set<TransformId> {
    set![
        TransformId::DeltaPropertyValidation,
        TransformId::ProtocolVersion,
        TransformId::FeatureSignals,
        TransformId::DomainMetadata,
        TransformId::Partitioning,
        TransformId::Clustering,
    ]
}

/// Adding names either changes nothing, because each is included or cannot be made, or includes a
/// name that was not.
pub proof fn lemma_plus_all_grows<F: TransformFactory>(
    selection: Selection,
    registrations: Seq<TransformRegistration<F>>,
    properties: Entries,
    ids: Seq<TransformId>,
)
    ensures
        ({
            let more = selection.plus_all(registrations, properties, ids);
            &&& selection.transforms.len() <= more.transforms.len()
            &&& selection.included.subset_of(more.included)
            &&& selection.transforms.len() == more.transforms.len() ==> {
                &&& more == selection
                &&& forall|i: int|
                    0 <= i < ids.len() ==> selection.included.contains(#[trigger] ids[i])
                        || produced(registrations, properties, ids[i]) is None
            }
            &&& selection.transforms.len() < more.transforms.len() ==> exists|id: TransformId|
                !selection.included.contains(id) && #[trigger] more.included.contains(id)
        }),
    decreases ids.len(),
{
    if ids.len() > 0 {
        let front = ids.drop_last();
        let id = ids[ids.len() - 1];
        lemma_plus_all_grows(selection, registrations, properties, front);
        let before = selection.plus_all(registrations, properties, front);
        let more = selection.plus_all(registrations, properties, ids);
        if selection.transforms.len() == more.transforms.len() {
            assert forall|i: int| 0 <= i < ids.len() implies selection.included.contains(
                #[trigger] ids[i],
            ) || produced(registrations, properties, ids[i]) is None by {
                if i < front.len() {
                    assert(front[i] == ids[i]);
                }
            }
        } else if selection.transforms.len() < before.transforms.len() {
            let x = choose|x: TransformId|
                !selection.included.contains(x) && #[trigger] before.included.contains(x);
            assert(more.included.contains(x));
        } else {
            assert(more.included.contains(id));
        }
    }
}

/// A round that adds a transform leaves fewer names.
pub proof fn lemma_next_grows<F: TransformFactory>(
    selection: Selection,
    registrations: Seq<TransformRegistration<F>>,
    properties: Entries,
)
    ensures
        ({
            let next = selection.next(registrations, properties);
            &&& selection.transforms.len() <= next.transforms.len()
            &&& selection.transforms.len() < next.transforms.len() ==> next.names_left()
                < selection.names_left()
        }),
{
    let next = selection.next(registrations, properties);
    lemma_plus_all_grows(selection, registrations, properties, selection.missing());
    if selection.transforms.len() < next.transforms.len() {
        let id = choose|id: TransformId|
            !selection.included.contains(id) && #[trigger] next.included.contains(id);
        let left = all_ids().difference(selection.included);
        let new_left = all_ids().difference(next.included);
        assert(all_ids().finite());
        assert(all_ids().contains(id));
        assert(left.contains(id) && !new_left.contains(id));
        assert(new_left.subset_of(left.remove(id)));
        vstd::set_lib::lemma_len_subset(new_left, left.remove(id));
    }
}

/// The transforms whose triggers fire, and their names.
pub open spec fn initial_selection<F: TransformFactory>(
    registrations: Seq<TransformRegistration<F>>,
    properties: Entries,
) -> Selection {
    let transforms = triggered(registrations, properties);
    Selection { transforms, included: ids_of(transforms) }
}

/// The transforms of a vector.
pub open spec fn transform_views(transforms: Seq<Transform>) -> Seq<TransformView> {
    transforms.map_values(|t: Transform| t@)
}

/// The selection that a vector of transforms and a vector of names stand for.
pub open spec fn selection_of(transforms: Seq<Transform>, included: Seq<TransformId>) -> Selection {
    Selection {
        transforms: transform_views(transforms),
        included: Set::new(|id: TransformId| included.contains(id)),
    }
}

fn contains_id(ids: &Vec<TransformId>, id: TransformId) -> (r: bool)
    ensures
        r == ids@.contains(id),
{
    let mut i: usize = 0;
    while i < ids.len()
        invariant
            i <= ids@.len(),
            forall|j: int| 0 <= j < i ==> ids@[j] != id,
        decreases ids@.len() - i,
    {
        if ids[i] == id {
            return true;
        }
        i = i + 1;
    }
    false
}

impl<F: TransformFactory> TransformRegistry<F> {
    /// A registry without transforms.
    pub fn new() -> (r: TransformRegistry<F>)
        ensures
            r@ == Seq::<TransformRegistration<F>>::empty(),
    {
        TransformRegistry { registrations: Vec::new() }
    }

    /// Registers a transform that enables a feature.
    pub fn register_feature_transform(
        &mut self,
        transform_id: TransformId,
        feature: TableFeature,
        trigger: TransformTrigger,
        factory: F,
    )
        ensures
            final(self)@ == old(self)@.push(
                TransformRegistration { transform_id, feature: Some(feature), trigger, factory },
            ),
    {
        self.registrations.push(
            TransformRegistration { transform_id, feature: Some(feature), trigger, factory },
        );
    }

    /// Registers a transform that belongs to table creation as such.
    pub fn register_builder_transform(
        &mut self,
        transform_id: TransformId,
        trigger: TransformTrigger,
        factory: F,
    )
        ensures
            final(self)@ == old(self)@.push(
                TransformRegistration { transform_id, feature: None, trigger, factory },
            ),
    {
        self.registrations.push(
            TransformRegistration { transform_id, feature: None, trigger, factory },
        );
    }

    /// Selects the transforms that some properties call for: those whose triggers fire, each name
    /// once, and then those that they depend on, directly or not. A dependency that is not
    /// registered, or that its factory does not make, is left out.
    pub fn select_transforms_to_trigger(&self, properties: &PropertyMap) -> (r: DeltaResult<
        Vec<Transform>,
    >)
        ensures
            r is Ok,
            transform_views(r->Ok_0@) == initial_selection(self@, properties@).completed(
                self@,
                properties@,
            ).transforms,
    {
        let context = TransformContext::new(properties);
        let mut transforms: Vec<Transform> = Vec::new();
        let mut included_ids: Vec<TransformId> = Vec::new();
        let mut i: usize = 0;
        proof {
            assert(self@.take(0) =~= Seq::empty());
            assert(transform_views(transforms@) =~= triggered(self@.take(0), properties@));
        }
        while i < self.registrations.len()
            invariant
                i <= self@.len(),
                self@ == self.registrations@,
                context@ == properties@,
                transform_views(transforms@) == triggered(self@.take(i as int), properties@),
                forall|id: TransformId| #[trigger]
                    included_ids@.contains(id) <==> has_id(transform_views(transforms@), id),
            decreases self@.len() - i,
        {
            let registration = &self.registrations[i];
            let ghost before = transforms@;
            let ghost ids_before = included_ids@;
            assert(self@.take(i + 1).drop_last() =~= self@.take(i as int));
            if registration.trigger.is_triggered(properties) {
                if let Some(transform) = registration.factory.create(&context) {
                    let id = transform.id();
                    if !contains_id(&included_ids, id) {
                        included_ids.push(id);
                        let ghost t = transform@;
                        transforms.push(transform);
                        proof {
                            let old_views = transform_views(before);
                            let new_views = transform_views(transforms@);
                            assert(new_views =~= old_views.push(t));
                            lemma_push_id(old_views, t);
                            assert forall|x: TransformId| #[trigger]
                                included_ids@.contains(x) <==> has_id(new_views, x) by {
                                lemma_push_contains(ids_before, id, x);
                            }
                        }
                    }
                }
            }
            i = i + 1;
        }
        proof {
            assert(self@.take(i as int) =~= self@);
            let start = initial_selection(self@, properties@);
            assert(selection_of(transforms@, included_ids@).included =~= start.included);
            assert(selection_of(transforms@, included_ids@) == start);
        }
        self.resolve_transform_dependencies(&context, &mut transforms, &mut included_ids);
        Ok(transforms)
    }

    /// The transform of the first registration under a name.
    fn create_by_id(&self, context: &TransformContext<'_>, id: TransformId) -> (r: Option<
        Transform,
    >)
        ensures
            match r {
                Some(t) => produced(self@, context@, id) == Some(t@),
                None => produced(self@, context@, id) is None,
            },
    {
        let mut i: usize = 0;
        assert(self@.skip(0) =~= self@);
        while i < self.registrations.len()
            invariant
                i <= self@.len(),
                self@ == self.registrations@,
                produced(self@, context@, id) == produced(self@.skip(i as int), context@, id),
            decreases self@.len() - i,
        {
            assert(self@.skip(i as int).drop_first() =~= self@.skip(i + 1));
            let registration = &self.registrations[i];
            if registration.transform_id == id {
                return registration.factory.create(context);
            }
            i = i + 1;
        }
        None
    }

    /// Adds to a selection what it depends on, until there is nothing more to add: nothing is
    /// missing, or nothing of what is missing can be made.
    pub fn resolve_transform_dependencies(
        &self,
        context: &TransformContext<'_>,
        transforms: &mut Vec<Transform>,
        included_ids: &mut Vec<TransformId>,
    )
        ensures
            selection_of(final(transforms)@, final(included_ids)@) == selection_of(
                old(transforms)@,
                old(included_ids)@,
            ).completed(self@, context@),
    {
        let ghost goal = selection_of(transforms@, included_ids@).completed(self@, context@);
        loop
            invariant
                selection_of(transforms@, included_ids@).completed(self@, context@) == goal,
            ensures
                selection_of(transforms@, included_ids@) == goal,
            decreases selection_of(transforms@, included_ids@).names_left(),
        {
            let ghost current = selection_of(transforms@, included_ids@);
            let count: usize = transforms.len();
            let new_deps = missing_ids(transforms, included_ids);
            if new_deps.len() == 0 {
                break;
            }
            let mut i: usize = 0;
            assert(new_deps@.take(0) =~= Seq::empty());
            while i < new_deps.len()
                invariant
                    i <= new_deps@.len(),
                    selection_of(transforms@, included_ids@) == current.plus_all(
                        self@,
                        context@,
                        new_deps@.take(i as int),
                    ),
                decreases new_deps@.len() - i,
            {
                assert(new_deps@.take(i + 1).drop_last() =~= new_deps@.take(i as int));
                let dep_id = new_deps[i];
                let ghost ts = transforms@;
                let ghost ids = included_ids@;
                if !contains_id(included_ids, dep_id) {
                    if let Some(transform) = self.create_by_id(context, dep_id) {
                        let ghost t = transform@;
                        included_ids.push(dep_id);
                        transforms.push(transform);
                        proof {
                            assert(transform_views(transforms@) =~= transform_views(ts).push(t));
                            assert forall|x: TransformId|
                                selection_of(transforms@, included_ids@).included.contains(x)
                                    == selection_of(ts, ids).included.insert(dep_id).contains(
                                    x,
                                ) by {
                                lemma_push_contains(ids, dep_id, x);
                            }
                            assert(selection_of(transforms@, included_ids@).included
                                =~= selection_of(ts, ids).included.insert(dep_id));
                        }
                    }
                }
                i = i + 1;
            }
            proof {
                assert(new_deps@.take(i as int) =~= new_deps@);
                lemma_next_grows(current, self@, context@);
                lemma_plus_all_grows(current, self@, context@, current.missing());
            }
            if transforms.len() == count {
                break;
            }
        }
    }
}

/// The names that a selection depends on and does not include.
fn missing_ids(transforms: &Vec<Transform>, included_ids: &Vec<TransformId>) -> (r: Vec<
    TransformId,
>)
    ensures
        r@ == selection_of(transforms@, included_ids@).missing(),
{
    let ghost selection = selection_of(transforms@, included_ids@);
    let ghost keep = |id: TransformId| !selection.included.contains(id);
    let mut missing: Vec<TransformId> = Vec::new();
    let mut i: usize = 0;
    proof {
        reveal(Seq::filter);
        assert(selection.transforms.take(0) =~= Seq::empty());
        assert(required_ids(selection.transforms.take(0)).filter(keep) =~= Seq::empty());
    }
    while i < transforms.len()
        invariant
            i <= transforms@.len(),
            selection == selection_of(transforms@, included_ids@),
            keep == (|id: TransformId| !selection.included.contains(id)),
            missing@ == required_ids(selection.transforms.take(i as int)).filter(keep),
        decreases transforms@.len() - i,
    {
        let ghost front = required_ids(selection.transforms.take(i as int));
        let dependencies = transforms[i].dependencies();
        let ghost needed = dependencies@.map_values(|d: TransformDependency| required_id(d));
        let mut j: usize = 0;
        assert(front + needed.take(0) =~= front);
        while j < dependencies.len()
            invariant
                j <= dependencies@.len(),
                selection == selection_of(transforms@, included_ids@),
                keep == (|id: TransformId| !selection.included.contains(id)),
                needed == dependencies@.map_values(|d: TransformDependency| required_id(d)),
                missing@ == (front + needed.take(j as int)).filter(keep),
            decreases dependencies@.len() - j,
        {
            let TransformDependency::TransformRequired(dep_id) = dependencies[j];
            if !contains_id(included_ids, dep_id) {
                missing.push(dep_id);
            }
            proof {
                reveal(Seq::filter);
                let upto = front + needed.take(j + 1);
                assert(upto.drop_last() =~= front + needed.take(j as int));
                assert(upto.last() == dep_id);
            }
            j = j + 1;
        }
        proof {
            let upto = selection.transforms.take(i + 1);
            assert(upto.drop_last() =~= selection.transforms.take(i as int));
            assert(needed.take(j as int) =~= needed);
            assert(required_ids(upto) == front + needed);
        }
        i = i + 1;
    }
    assert(selection.transforms.take(i as int) =~= selection.transforms);
    missing
}

/// The names of transforms after one more.
pub proof fn lemma_push_id(transforms: Seq<TransformView>, t: TransformView)
    ensures
        forall|id: TransformId| #[trigger]
            has_id(transforms.push(t), id) <==> has_id(transforms, id) || id == t.id(),
{
    let more = transforms.push(t);
    assert forall|id: TransformId| #[trigger]
        has_id(more, id) <==> has_id(transforms, id) || id == t.id() by {
        if has_id(transforms, id) {
            let i = choose|i: int|
                0 <= i < transforms.len() && (#[trigger] transforms[i]).id() == id;
            assert(more[i].id() == id);
        }
        if id == t.id() {
            assert(more[transforms.len() as int].id() == id);
        }
        if has_id(more, id) && id != t.id() {
            let i = choose|i: int| 0 <= i < more.len() && (#[trigger] more[i]).id() == id;
            assert(transforms[i].id() == id);
        }
    }
}

/// Whether a schema contains a data type at any level.
pub fn schema_contains_type(schema: &StructType, target: &DataType) -> (r: bool)
    ensures
        r == struct_contains(*schema, *target),
    decreases schema,
{
    let mut i: usize = 0;
    while i < schema.fields.len()
        invariant
            i <= schema.fields@.len(),
            forall|j: int|
                0 <= j < i ==> !type_contains(#[trigger] schema.fields@[j].data_type, *target),
        decreases schema.fields@.len() - i,
    {
        if data_type_contains(&schema.fields[i].data_type, target) {
            return true;
        }
        i = i + 1;
    }
    false
}

/// Whether a data type is the target or contains it at any level.
fn data_type_contains(data_type: &DataType, target: &DataType) -> (r: bool)
    ensures
        r == type_contains(*data_type, *target),
    decreases data_type,
{
    if data_type.same(target) {
        return true;
    }
    match data_type {
        DataType::Primitive(_) => false,
        DataType::Array(array) => data_type_contains(&array.element_type, target),
        DataType::Struct(inner) => schema_contains_type(inner, target),
        DataType::Mapping(map) => {
            data_type_contains(&map.key_type, target) || data_type_contains(
                &map.value_type,
                target,
            )
        },
    }
}

/// Makes one of the transforms that table creation selects from.
#[derive(Debug, Clone, Copy, PartialEq, Eq, Structural)]
pub enum BuiltInFactory {
    DeltaPropertyValidation,
    ProtocolVersion,
    FeatureSignals,
    DomainMetadata,
}

impl TransformFactory for BuiltInFactory {
    open spec fn product(&self, properties: Entries) -> Option<TransformView> {
        match self {
            BuiltInFactory::DeltaPropertyValidation => Some(TransformView::DeltaPropertyValidation),
            BuiltInFactory::ProtocolVersion => Some(TransformView::ProtocolVersion),
            BuiltInFactory::FeatureSignals => Some(TransformView::FeatureSignals),
            BuiltInFactory::DomainMetadata => Some(TransformView::DomainMetadata),
        }
    }

    fn create(&self, context: &TransformContext<'_>) -> (r: Option<Transform>) {
        match self {
            BuiltInFactory::DeltaPropertyValidation => Some(
                Transform::DeltaPropertyValidation(DeltaPropertyValidationTransform),
            ),
            BuiltInFactory::ProtocolVersion => Some(
                Transform::ProtocolVersion(ProtocolVersionTransform),
            ),
            BuiltInFactory::FeatureSignals => Some(
                Transform::FeatureSignals(FeatureSignalTransform),
            ),
            BuiltInFactory::DomainMetadata => Some(
                Transform::DomainMetadata(DomainMetadataTransform),
            ),
        }
    }
}

/// The registrations of table creation.
pub open spec fn built_in_registrations() -> Seq<TransformRegistration<BuiltInFactory>> {
    seq![
        TransformRegistration {
            transform_id: TransformId::DeltaPropertyValidation,
            feature: None,
            trigger: TransformTrigger::Always,
            factory: BuiltInFactory::DeltaPropertyValidation,
        },
        TransformRegistration {
            transform_id: TransformId::ProtocolVersion,
            feature: None,
            trigger: TransformTrigger::Always,
            factory: BuiltInFactory::ProtocolVersion,
        },
        TransformRegistration {
            transform_id: TransformId::FeatureSignals,
            feature: None,
            trigger: TransformTrigger::FeatureSignalsPresent,
            factory: BuiltInFactory::FeatureSignals,
        },
        TransformRegistration {
            transform_id: TransformId::DomainMetadata,
            feature: Some(TableFeature::DomainMetadata),
            trigger: TransformTrigger::FeatureSignal(TableFeature::DomainMetadata),
            factory: BuiltInFactory::DomainMetadata,
        },
    ]
}

/// The registry of table creation.
pub fn transform_registry() -> (r: TransformRegistry<BuiltInFactory>)
    ensures
        r@ == built_in_registrations(),
{
    let mut registry = TransformRegistry::new();
    // Properties are checked before anything else looks at them.
    registry.register_builder_transform(
        TransformId::DeltaPropertyValidation,
        TransformTrigger::Always,
        BuiltInFactory::DeltaPropertyValidation,
    );
    registry.register_builder_transform(
        TransformId::ProtocolVersion,
        TransformTrigger::Always,
        BuiltInFactory::ProtocolVersion,
    );
    registry.register_builder_transform(
        TransformId::FeatureSignals,
        TransformTrigger::FeatureSignalsPresent,
        BuiltInFactory::FeatureSignals,
    );
    registry.register_feature_transform(
        TransformId::DomainMetadata,
        TableFeature::DomainMetadata,
        TransformTrigger::FeatureSignal(TableFeature::DomainMetadata),
        BuiltInFactory::DomainMetadata,
    );
    assert(registry@ =~= built_in_registrations());
    registry
}

/// Whether a signal asks for domain metadata.
pub open spec fn domain_metadata_asked(properties: Entries) -> bool {
    lookup(properties, signal_key(TableFeature::DomainMetadata@.name)) == Some(
        SET_TABLE_FEATURE_SUPPORTED_VALUE@,
    )
}

/// What table creation selects: the check of the properties and the protocol version always, the
/// signals if there are any, and domain metadata if a signal asks for it.
pub open spec fn built_in_selection(properties: Entries) -> Seq<TransformView> {
    seq![TransformView::DeltaPropertyValidation, TransformView::ProtocolVersion] + (if any_signal(
        properties,
    ) {
        seq![TransformView::FeatureSignals]
    } else {
        Seq::empty()
    }) + (if domain_metadata_asked(properties) {
        seq![TransformView::DomainMetadata]
    } else {
        Seq::empty()
    })
}

} // verus!
