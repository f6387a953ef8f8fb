//! Transforms of a table's protocol and metadata.
//!
//! A transform checks a configuration and changes it. The [`registry`] selects the transforms
//! that a set of properties calls for, and the [`pipeline`] orders and runs them.

use crate::actions::{domain_views, DomainMetadata, DomainMetadataView};
use crate::error::{DeltaResult, ErrorView};
use crate::table_protocol_metadata_config::{ConfigView, TableProtocolMetadataConfig};
use vstd::prelude::*;

pub mod pipeline;
pub mod pipeline_laws;
pub mod registry;
pub mod registry_laws;
pub mod transform_answers_laws;
pub mod transform_laws;
pub mod transforms;

verus! {

/// Names a transform.
#[derive(Debug, Clone, Copy, PartialEq, Eq, Structural)]
pub enum TransformId {
    DeltaPropertyValidation,
    ProtocolVersion,
    FeatureSignals,
    DomainMetadata,
    Partitioning,
    Clustering,
}

/// What a transform asks of the others.
#[derive(Debug, Clone, Copy, PartialEq, Eq, Structural)]
pub enum TransformDependency {
    /// This transform must be selected too, and run before.
    TransformRequired(TransformId),
}

/// What a transform leaves behind.
#[derive(Debug)]
pub struct TransformOutput {
    /// The configuration after the transform.
    pub config: TableProtocolMetadataConfig,
    /// Domain metadata to commit with the table.
    pub domain_metadata: Vec<DomainMetadata>,
}

/// The mathematical value of a [`TransformOutput`].
pub struct OutputView {
    pub config: ConfigView,
    pub domain_metadata: Seq<DomainMetadataView>,
}

impl View for TransformOutput {
    type V = OutputView;

    open spec fn view(&self) -> OutputView {
        OutputView {
            config: self.config@,
            domain_metadata: domain_views(self.domain_metadata@),
        }
    }
}

/// An output without domain metadata.
pub open spec fn plain_output(config: ConfigView) -> OutputView {
    OutputView { config, domain_metadata: Seq::empty() }
}

impl TransformOutput {
    /// An output without domain metadata.
    pub fn new(config: TableProtocolMetadataConfig) -> (r: TransformOutput)
        ensures
            r@ == plain_output(config@),
    {
        let domain_metadata: Vec<DomainMetadata> = Vec::new();
        assert(domain_views(domain_metadata@) =~= Seq::empty());
        TransformOutput { config, domain_metadata }
    }

    /// An output with domain metadata.
    pub fn with_domain_metadata(
        config: TableProtocolMetadataConfig,
        domain_metadata: Vec<DomainMetadata>,
    ) -> (r: TransformOutput)
        ensures
            r@ == (OutputView { config: config@, domain_metadata: domain_views(domain_metadata@) }),
    {
        TransformOutput { config, domain_metadata }
    }
}

/// Whether a check has the outcome that its mathematical value says.
pub open spec fn check_agrees(r: DeltaResult<()>, refusal: Option<ErrorView>) -> bool {
    match r {
        Ok(_) => refusal is None,
        Err(e) => refusal == Some(e@),
    }
}

/// Whether an output is the one that its mathematical value says.
pub open spec fn output_agrees(
    r: DeltaResult<TransformOutput>,
    outcome: Result<OutputView, ErrorView>,
) -> bool {
    match r {
        Ok(out) => outcome == Ok::<OutputView, ErrorView>(out@),
        Err(e) => outcome == Err::<OutputView, ErrorView>(e@),
    }
}

/// A step that checks a configuration and changes it.
pub trait ProtocolMetadataTransform: Sized {
    /// The name of the transform.
    spec fn transform_id(&self) -> TransformId;

    /// What the transform does, in words.
    spec fn label(&self) -> Seq<char>;

    /// What the transform depends on.
    spec fn needs(&self) -> Seq<TransformDependency>;

    /// Why the transform does not accept a configuration, if it does not.
    spec fn refusal(&self, config: ConfigView) -> Option<ErrorView>;

    /// Whether the transform can be applied at all.
    spec fn applicable(&self) -> bool;

    /// What the transform makes of a configuration.
    spec fn outcome(&self, config: ConfigView) -> Result<OutputView, ErrorView>;

    /// Names the transform.
    fn id(&self) -> (r: TransformId)
        ensures
            r == self.transform_id(),
    ;

    /// Describes the transform for a reader.
    fn name(&self) -> (r: &'static str)
        ensures
            r@ == self.label(),
    ;

    /// Lists what the transform depends on.
    fn dependencies(&self) -> (r: Vec<TransformDependency>)
        ensures
            r@ == self.needs(),
    ;

    /// Checks a configuration before [`Self::apply`].
    fn validate_preconditions(&self, config: &TableProtocolMetadataConfig) -> (r: DeltaResult<()>)
        ensures
            check_agrees(r, self.refusal(config@)),
            r is Ok ==> self.applicable(),
    ;

    /// Changes a configuration.
    fn apply(&self, config: TableProtocolMetadataConfig) -> (r: DeltaResult<TransformOutput>)
        requires
            self.applicable(),
        ensures
            output_agrees(r, self.outcome(config@)),
    ;
}

} // verus!
