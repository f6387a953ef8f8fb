//! Ordering and running transforms.

use crate::actions::{domain_views, DomainMetadata, DomainMetadataView};
use crate::error::{DeltaError, DeltaResult, ErrorView};
use crate::table_properties::PropertyMap;
use crate::table_protocol_metadata_config::{ConfigView, TableProtocolMetadataConfig};
use crate::table_transformation::registry::{
    built_in_selection, required_id, transform_registry, transform_views,
};
use crate::table_transformation::registry_laws::law_built_in_selection;
use crate::table_transformation::transforms::{Transform, TransformView};
use crate::table_transformation::{
    output_agrees, OutputView, ProtocolMetadataTransform, TransformDependency, TransformId,
    TransformOutput,
};
use vstd::prelude::*;

verus! {

/// Whether a transform depends on a name.
pub open spec fn depends_on(t: TransformView, id: TransformId) -> bool {
    exists|i: int| 0 <= i < t.needs().len() && required_id(#[trigger] t.needs()[i]) == id
}

/// Whether a transform depends on none of the transforms of a sequence.
pub open spec fn is_ready(t: TransformView, waiting: Seq<TransformView>) -> bool {
    forall|i: int| 0 <= i < waiting.len() ==> !depends_on(t, (#[trigger] waiting[i]).id())
}

/// Whether the transform at a position is the first one that is ready.
pub open spec fn is_first_ready(waiting: Seq<TransformView>, i: int) -> bool {
    &&& 0 <= i < waiting.len()
    &&& is_ready(waiting[i], waiting)
    &&& forall|j: int| 0 <= j < i ==> !is_ready(#[trigger] waiting[j], waiting)
}

/// The transforms ordered by their dependencies: again and again the first one that depends on
/// none of those that are left. `None` if the dependencies go in a circle.
pub open spec fn ordered(waiting: Seq<TransformView>) -> Option<Seq<TransformView>>
    decreases waiting.len(),
{
    if waiting.len() == 0 {
        Some(Seq::empty())
    } else if exists|i: int| is_first_ready(waiting, i) {
        let i = choose|i: int| is_first_ready(waiting, i);
        if 0 <= i < waiting.len() {
            match ordered(waiting.remove(i)) {
                Some(rest) => Some(seq![waiting[i]] + rest),
                None => None,
            }
        } else {
            None
        }
    } else {
        None
    }
}

/// The error of transforms that depend on each other in a circle.
pub open spec fn circular_dependencies() -> ErrorView {
    ErrorView::Generic("Transforms depend on each other in a circle"@)
}

/// Runs transforms one after the other on a configuration: each checks it and then changes it.
/// The first error ends the run. The domain metadata of all of them is collected.
pub open spec fn run_all(
    transforms: Seq<TransformView>,
    config: ConfigView,
    collected: Seq<DomainMetadataView>,
) -> Result<OutputView, ErrorView>
    decreases transforms.len(),
{
    if transforms.len() == 0 {
        Ok(OutputView { config, domain_metadata: collected })
    } else {
        match transforms[0].refusal(config) {
            Some(e) => Err(e),
            None => match transforms[0].outcome(config) {
                Err(e) => Err(e),
                Ok(out) => run_all(
                    transforms.drop_first(),
                    out.config,
                    collected + out.domain_metadata,
                ),
            },
        }
    }
}

/// Orders transforms by their dependencies and runs them.
pub open spec fn ordered_run(transforms: Seq<TransformView>, config: ConfigView) -> Result<
    OutputView,
    ErrorView,
> {
    match ordered(transforms) {
        None => Err(circular_dependencies()),
        Some(order) => run_all(order, config, Seq::empty()),
    }
}

fn needs_id(transform: &Transform, id: TransformId) -> (r: bool)
    ensures
        r == depends_on(transform@, id),
{
    let dependencies = transform.dependencies();
    let mut i: usize = 0;
    while i < dependencies.len()
        invariant
            i <= dependencies@.len(),
            dependencies@ == transform@.needs(),
            forall|j: int| 0 <= j < i ==> required_id(#[trigger] dependencies@[j]) != id,
        decreases dependencies@.len() - i,
    {
        let TransformDependency::TransformRequired(required) = dependencies[i];
        if required == id {
            assert(required_id(transform@.needs()[i as int]) == id);
            return true;
        }
        i = i + 1;
    }
    false
}

fn ready(transform: &Transform, waiting: &Vec<Transform>) -> (r: bool)
    ensures
        r == is_ready(transform@, transform_views(waiting@)),
{
    let mut i: usize = 0;
    while i < waiting.len()
        invariant
            i <= waiting@.len(),
            forall|j: int|
                0 <= j < i ==> !depends_on(
                    transform@,
                    (#[trigger] transform_views(waiting@)[j]).id(),
                ),
        decreases waiting@.len() - i,
    {
        let id = waiting[i].id();
        if needs_id(transform, id) {
            assert(transform_views(waiting@)[i as int].id() == id);
            return false;
        }
        i = i + 1;
    }
    true
}

/// Orders and runs transforms.
pub struct TransformationPipeline;

impl TransformationPipeline {
    /// Orders transforms by their dependencies; those that do not depend on each other keep their
    /// order.
    pub fn order_by_dependencies(transforms: Vec<Transform>) -> (r: DeltaResult<Vec<Transform>>)
        ensures
            match r {
                Ok(list) => ordered(transform_views(transforms@)) == Some(transform_views(list@)),
                Err(e) => ordered(transform_views(transforms@)) is None && e@
                    == circular_dependencies(),
            },
    {
        let ghost all = transform_views(transforms@);
        let mut waiting = transforms;
        let mut order: Vec<Transform> = Vec::new();
        assert(transform_views(order@) =~= Seq::empty());
        while waiting.len() > 0
            invariant
                all == transform_views(transforms@),
                match ordered(transform_views(waiting@)) {
                    Some(rest) => ordered(all) == Some(transform_views(order@) + rest),
                    None => ordered(all) is None,
                },
            decreases waiting@.len(),
        {
            let ghost views = transform_views(waiting@);
            let mut i: usize = 0;
            while i < waiting.len() && !ready(&waiting[i], &waiting)
                invariant
                    views == transform_views(waiting@),
                    i <= waiting@.len(),
                    forall|j: int| 0 <= j < i ==> !is_ready(#[trigger] views[j], views),
                decreases waiting@.len() - i,
            {
                i = i + 1;
            }
            if i == waiting.len() {
                return Err(DeltaError::generic("Transforms depend on each other in a circle"));
            }
            assert(is_first_ready(views, i as int));
            proof {
                let k = choose|k: int| is_first_ready(views, k);
                assert(k == i) by {
                    if k < i {
                        assert(!is_ready(views[k], views));
                    }
                    if i < k {
                        assert(!is_ready(views[i as int], views));
                    }
                }
            }
            let ghost placed = transform_views(order@);
            let next = waiting.remove(i);
            order.push(next);
            proof {
                assert(transform_views(waiting@) =~= views.remove(i as int));
                assert(transform_views(order@) =~= placed.push(views[i as int]));
                if let Some(rest) = ordered(views.remove(i as int)) {
                    assert(placed + (seq![views[i as int]] + rest) =~= transform_views(order@)
                        + rest);
                }
            }
        }
        proof {
            assert(transform_views(waiting@) =~= Seq::empty());
            assert(transform_views(order@) + Seq::empty() =~= transform_views(order@));
        }
        Ok(order)
    }

    /// Orders transforms by their dependencies and runs them on a configuration.
    pub fn run(transforms: Vec<Transform>, config: TableProtocolMetadataConfig) -> (r: DeltaResult<
        TransformOutput,
    >)
        ensures
            output_agrees(r, ordered_run(transform_views(transforms@), config@)),
    {
        let ghost expected = ordered_run(transform_views(transforms@), config@);
        let order = match Self::order_by_dependencies(transforms) {
            Ok(list) => list,
            Err(e) => return Err(e),
        };
        let ghost views = transform_views(order@);
        let mut current = config;
        let mut collected: Vec<DomainMetadata> = Vec::new();
        let mut i: usize = 0;
        proof {
            assert(views.skip(0) =~= views);
            assert(domain_views(collected@) =~= Seq::empty());
        }
        while i < order.len()
            invariant
                i <= order@.len(),
                views == transform_views(order@),
                expected == ordered_run(transform_views(transforms@), config@),
                run_all(views.skip(i as int), current@, domain_views(collected@)) == expected,
            decreases order@.len() - i,
        {
            let transform = &order[i];
            assert(views.skip(i as int).drop_first() =~= views.skip(i + 1));
            assert(views.skip(i as int)[0] == transform@);
            match transform.validate_preconditions(&current) {
                Ok(_) => {},
                Err(e) => return Err(e),
            }
            match transform.apply(current) {
                Ok(output) => {
                    let TransformOutput { config: changed, domain_metadata: mut more } = output;
                    let ghost before = collected@;
                    let ghost added = more@;
                    collected.append(&mut more);
                    assert(domain_views(collected@) =~= domain_views(before) + domain_views(added));
                    current = changed;
                },
                Err(e) => return Err(e),
            }
            i = i + 1;
        }
        Ok(TransformOutput::with_domain_metadata(current, collected))
    }

    /// Runs on a configuration the transforms that some properties call for.
    pub fn apply_transforms(config: TableProtocolMetadataConfig, properties: &PropertyMap) -> (r:
        DeltaResult<TransformOutput>)
        ensures
            output_agrees(r, ordered_run(built_in_selection(properties@), config@)),
    {
        proof {
            law_built_in_selection(properties@);
        }
        match transform_registry().select_transforms_to_trigger(properties) {
            Ok(transforms) => Self::run(transforms, config),
            Err(e) => Err(e),
        }
    }
}

} // verus!
