//! Opening, replaying and driving a durable capture of the three Coordinator
//! sources: which outside step comes next, and what each outcome decides.
//!
//! None of the steps acknowledges a message or moves the pipeline: a source is
//! captured only behind a replay that found it open, and its own adapter persists
//! before it acknowledges.

use vstd::prelude::*;

use crate::bytes;
use crate::bytes::{array_equal, push_bytes, text_bytes, ZERO_DIGEST};
use crate::coordinator_processor_durable_capture as durable_capture;
use crate::coordinator_processor_durable_capture::{
    source_at, CoordinatorProcessorDurableProjectionError, CoordinatorProcessorSourceKind,
    PendingQueueCaptureContext, SOURCE_COUNT,
};
use crate::hash;
use crate::hash::sha256_digest;
use crate::model::{AuthorityScope, NetworkId};

verus! {

#[derive(Clone, Debug, PartialEq, Eq)]
pub enum CoordinatorProcessorDurableCaptureError {
    IdentityMismatch,
    RuntimeCapabilityMismatch,
    Backend(String),
    /// The outcome belongs to another step than the one that was asked for.
    OutOfOrder,
}

/// What a capture request was sealed for.
#[derive(Clone, Copy, Debug, PartialEq, Eq)]
pub struct SealedCoordinatorProcessorDurableCaptureRequest {
    pub network: NetworkId,
    pub writer_activation_digest: [u8; 32],
    pub queue_readiness_digest: [u8; 32],
    pub owner_attempt_digest: [u8; 32],
}

/// What a capture factory was prepared for.
#[derive(Clone, Copy, Debug, PartialEq, Eq)]
pub struct CaptureFactory {
    pub network: NetworkId,
    pub writer_activation_digest: [u8; 32],
    pub queue_readiness_digest: [u8; 32],
}

/// The current pending pipeline. `activation` is whether the factory's activation
/// digest is a valid one, `context` the capture context that the pipeline makes.
#[derive(Debug, PartialEq, Eq)]
pub struct PipelineView {
    pub network: NetworkId,
    pub authority: AuthorityScope,
    pub activation_digest: [u8; 32],
    pub blocked: bool,
    pub sealing: bool,
    pub activation: Result<(), String>,
    pub context: Result<PendingQueueCaptureContext, String>,
}

/// Prepares a factory from the current pipeline of the Coordinator's own sidecar.
pub fn prepare_factory(
    network: NetworkId,
    sidecar_authority: AuthorityScope,
    queue_readiness_digest: [u8; 32],
    pipeline: Option<PipelineView>,
) -> (result: Result<CaptureFactory, CoordinatorProcessorDurableCaptureError>)
    ensures
        factory_prepared(network, sidecar_authority, queue_readiness_digest, pipeline, result),
{
    if sidecar_authority != AuthorityScope::Coordinator {
        return Err(CoordinatorProcessorDurableCaptureError::IdentityMismatch);
    }
    match pipeline {
        None => Err(CoordinatorProcessorDurableCaptureError::IdentityMismatch),
        Some(pipeline) => if pipeline.network != network || pipeline.authority
            != AuthorityScope::Coordinator || pipeline.blocked {
            Err(CoordinatorProcessorDurableCaptureError::IdentityMismatch)
        } else {
            Ok(
                CaptureFactory {
                    network,
                    writer_activation_digest: pipeline.activation_digest,
                    queue_readiness_digest,
                },
            )
        },
    }
}

pub open spec fn consumer_operation_preimage(
    attempt: [u8; 32],
    context: [u8; 32],
    consumer: [u8; 32],
) -> Seq<u8> {
    bytes::text("psy/rollback/coordinator-processor-capture-consumer-operation/v1"@) + attempt@
        + context@ + consumer@
}

/// The operation under which a missing consumer is provisioned.
pub fn consumer_operation(
    request: &SealedCoordinatorProcessorDurableCaptureRequest,
    context_digest: &[u8; 32],
    consumer_digest: &[u8; 32],
) -> (operation: [u8; 32])
    ensures
        operation == hash::sha256(
            consumer_operation_preimage(
                request.owner_attempt_digest,
                *context_digest,
                *consumer_digest,
            ),
        ),
{
    let mut preimage: Vec<u8> = text_bytes(
        "psy/rollback/coordinator-processor-capture-consumer-operation/v1",
    );
    push_bytes(&mut preimage, &request.owner_attempt_digest);
    push_bytes(&mut preimage, context_digest);
    push_bytes(&mut preimage, consumer_digest);
    sha256_digest(&preimage)
}

pub open spec fn owner_attempt_preimage(attempt: [u8; 32], identity: [u8; 32]) -> Seq<u8> {
    bytes::text("psy/rollback/coordinator-processor-capture-owner-attempt/v1"@) + attempt@
        + identity@
}

/// The attempt under which a request claims the artifact of a source.
pub fn owner_attempt(
    request: &SealedCoordinatorProcessorDurableCaptureRequest,
    identity_digest: &[u8; 32],
) -> (attempt: [u8; 32])
    ensures
        attempt == hash::sha256(
            owner_attempt_preimage(request.owner_attempt_digest, *identity_digest),
        ),
{
    let mut preimage: Vec<u8> = text_bytes(
        "psy/rollback/coordinator-processor-capture-owner-attempt/v1",
    );
    push_bytes(&mut preimage, &request.owner_attempt_digest);
    push_bytes(&mut preimage, identity_digest);
    sha256_digest(&preimage)
}

pub open spec fn owner_reason_preimage(
    activation: [u8; 32],
    readiness: [u8; 32],
    identity: [u8; 32],
) -> Seq<u8> {
    bytes::text("psy/rollback/coordinator-processor-capture-owner-reason/v1"@) + activation@
        + readiness@ + identity@
}

/// Why a source is claimed: the same for every attempt of one deployment.
pub fn owner_reason(
    request: &SealedCoordinatorProcessorDurableCaptureRequest,
    identity_digest: &[u8; 32],
) -> (reason: [u8; 32])
    ensures
        reason == hash::sha256(
            owner_reason_preimage(
                request.writer_activation_digest,
                request.queue_readiness_digest,
                *identity_digest,
            ),
        ),
{
    let mut preimage: Vec<u8> = text_bytes(
        "psy/rollback/coordinator-processor-capture-owner-reason/v1",
    );
    push_bytes(&mut preimage, &request.writer_activation_digest);
    push_bytes(&mut preimage, &request.queue_readiness_digest);
    push_bytes(&mut preimage, identity_digest);
    sha256_digest(&preimage)
}

/// The step that opening a capture waits for. `index` counts the sources in their
/// fixed order.
#[derive(Clone, Copy, Debug, PartialEq, Eq)]
pub enum CaptureOpenStage {
    ReadPipeline,
    ReadClose,
    ReadRoute,
    ResolveRoute,
    ObserveInstance,
    BootstrapGate,
    ResumeConsumer { index: usize },
    ProvisionConsumer { index: usize, operation: [u8; 32] },
    ClaimOwner { index: usize, attempt: [u8; 32], reason: [u8; 32] },
    TakeOverOwner { index: usize, attempt: [u8; 32], reason: [u8; 32] },
    RevalidateClose,
    RevalidatePublisher,
    Opened,
}

/// What came of a step.
#[derive(Debug, PartialEq, Eq)]
pub enum CaptureOpenEvent {
    Failed(String),
    Pipeline(Option<PipelineView>),
    Done,
    Instance { live: [u8; 32], published: [u8; 32] },
    /// A consumer is there; `identity` is the digest of its source's artifact.
    ConsumerReady { identity: [u8; 32] },
    ConsumerMissing { consumer_digest: [u8; 32] },
    OwnerAlreadyHeld,
}

/// A capture that is being opened.
#[derive(Clone, Copy, Debug, PartialEq, Eq)]
pub struct CaptureOpen {
    pub request: SealedCoordinatorProcessorDurableCaptureRequest,
    pub context_digest: [u8; 32],
    pub stage: CaptureOpenStage,
}

pub open spec fn at_stage(open: CaptureOpen, stage: CaptureOpenStage) -> Result<
    CaptureOpen,
    CoordinatorProcessorDurableCaptureError,
> {
    Ok(CaptureOpen { stage, ..open })
}

/// The step behind a source whose owner is claimed.
pub open spec fn behind_source(index: int) -> CaptureOpenStage {
    if index + 1 < SOURCE_COUNT {
        CaptureOpenStage::ResumeConsumer { index: (index + 1) as usize }
    } else {
        CaptureOpenStage::RevalidateClose
    }
}

/// The claim of a source's artifact under a request.
pub open spec fn claim_stage(
    request: SealedCoordinatorProcessorDurableCaptureRequest,
    index: usize,
    identity: [u8; 32],
) -> CaptureOpenStage {
    CaptureOpenStage::ClaimOwner {
        index,
        attempt: hash::sha256(owner_attempt_preimage(request.owner_attempt_digest, identity)),
        reason: hash::sha256(
            owner_reason_preimage(
                request.writer_activation_digest,
                request.queue_readiness_digest,
                identity,
            ),
        ),
    }
}

/// What the current pipeline lets a capture do: only the sealing generation of the
/// request's own activation can be captured.
pub open spec fn behind_pipeline(open: CaptureOpen, read: Option<PipelineView>) -> Result<
    CaptureOpen,
    CoordinatorProcessorDurableCaptureError,
> {
    match read {
        None => Err(CoordinatorProcessorDurableCaptureError::IdentityMismatch),
        Some(pipeline) => if pipeline.activation is Err {
            Err(CoordinatorProcessorDurableCaptureError::Backend(pipeline.activation->Err_0))
        } else if pipeline.network != open.request.network || pipeline.authority
            != AuthorityScope::Coordinator || pipeline.activation_digest
            != open.request.writer_activation_digest || pipeline.blocked || !pipeline.sealing {
            Err(CoordinatorProcessorDurableCaptureError::IdentityMismatch)
        } else {
            match pipeline.context {
                Err(refused) => Err(CoordinatorProcessorDurableCaptureError::Backend(refused)),
                Ok(context) => Ok(
                    CaptureOpen {
                        context_digest: context.digest,
                        stage: CaptureOpenStage::ReadClose,
                        ..open
                    },
                ),
            }
        },
    }
}

/// The most messages that a capture takes in one batch.
pub const CAPTURE_BATCH_LIMIT: usize = 1024;

/// What a consumer is resumed or provisioned for.
#[derive(Clone, Copy, Debug, PartialEq, Eq, Structural)]
pub struct CaptureSpec {
    pub kind: CoordinatorProcessorSourceKind,
    pub batch_limit: usize,
}

/// Where an outcome leads, or how it ends the opening.
pub open spec fn opened_further(open: CaptureOpen, event: CaptureOpenEvent) -> Result<
    CaptureOpen,
    CoordinatorProcessorDurableCaptureError,
> {
    match (open.stage, event) {
        (CaptureOpenStage::Opened, _) => Err(CoordinatorProcessorDurableCaptureError::OutOfOrder),
        (_, CaptureOpenEvent::Failed(reason)) => Err(
            CoordinatorProcessorDurableCaptureError::Backend(reason),
        ),
        (CaptureOpenStage::ReadPipeline, CaptureOpenEvent::Pipeline(read)) => behind_pipeline(
            open,
            read,
        ),
        (CaptureOpenStage::ReadClose, CaptureOpenEvent::Done) => at_stage(
            open,
            CaptureOpenStage::ReadRoute,
        ),
        (CaptureOpenStage::ReadRoute, CaptureOpenEvent::Done) => at_stage(
            open,
            CaptureOpenStage::ResolveRoute,
        ),
        (CaptureOpenStage::ResolveRoute, CaptureOpenEvent::Done) => at_stage(
            open,
            CaptureOpenStage::ObserveInstance,
        ),
        (CaptureOpenStage::ObserveInstance, CaptureOpenEvent::Instance { live, published }) => {
            if live != published {
                Err(CoordinatorProcessorDurableCaptureError::RuntimeCapabilityMismatch)
            } else {
                at_stage(open, CaptureOpenStage::BootstrapGate)
            }
        },
        (CaptureOpenStage::BootstrapGate, CaptureOpenEvent::Done) => at_stage(
            open,
            CaptureOpenStage::ResumeConsumer { index: 0 },
        ),
        (
            CaptureOpenStage::ResumeConsumer { index },
            CaptureOpenEvent::ConsumerReady { identity },
        ) => at_stage(open, claim_stage(open.request, index, identity)),
        (
            CaptureOpenStage::ResumeConsumer { index },
            CaptureOpenEvent::ConsumerMissing { consumer_digest },
        ) => at_stage(
            open,
            CaptureOpenStage::ProvisionConsumer {
                index,
                operation: hash::sha256(
                    consumer_operation_preimage(
                        open.request.owner_attempt_digest,
                        open.context_digest,
                        consumer_digest,
                    ),
                ),
            },
        ),
        (
            CaptureOpenStage::ProvisionConsumer { index, .. },
            CaptureOpenEvent::ConsumerReady { identity },
        ) => at_stage(open, claim_stage(open.request, index, identity)),
        (CaptureOpenStage::ClaimOwner { index, .. }, CaptureOpenEvent::Done) => at_stage(
            open,
            behind_source(index as int),
        ),
        (
            CaptureOpenStage::ClaimOwner { index, attempt, reason },
            CaptureOpenEvent::OwnerAlreadyHeld,
        ) => at_stage(open, CaptureOpenStage::TakeOverOwner { index, attempt, reason }),
        (CaptureOpenStage::TakeOverOwner { index, .. }, CaptureOpenEvent::Done) => at_stage(
            open,
            behind_source(index as int),
        ),
        (CaptureOpenStage::RevalidateClose, CaptureOpenEvent::Done) => at_stage(
            open,
            CaptureOpenStage::RevalidatePublisher,
        ),
        (CaptureOpenStage::RevalidatePublisher, CaptureOpenEvent::Done) => at_stage(
            open,
            CaptureOpenStage::Opened,
        ),
        _ => Err(CoordinatorProcessorDurableCaptureError::OutOfOrder),
    }
}

impl CaptureOpen {
    pub open spec fn wf(self) -> bool {
        match self.stage {
            CaptureOpenStage::ResumeConsumer { index }
            | CaptureOpenStage::ProvisionConsumer { index, .. }
            | CaptureOpenStage::ClaimOwner { index, .. }
            | CaptureOpenStage::TakeOverOwner { index, .. } => index < SOURCE_COUNT,
            _ => true,
        }
    }

    /// What the consumer of the step that is due captures: the source of that step, in
    /// batches of the one limit.
    pub fn consumer_spec(&self) -> (spec: Option<CaptureSpec>)
        requires
            self.wf(),
        ensures
            consumer_due(*self, spec),
    {
        match self.stage {
            CaptureOpenStage::ResumeConsumer { index }
            | CaptureOpenStage::ProvisionConsumer { index, .. } => Some(
                CaptureSpec { kind: source_at(index), batch_limit: CAPTURE_BATCH_LIMIT },
            ),
            _ => None,
        }
    }

    /// Starts to open a capture that was sealed for exactly this factory.
    pub fn begin(
        factory: &CaptureFactory,
        request: SealedCoordinatorProcessorDurableCaptureRequest,
    ) -> (result: Result<Self, CoordinatorProcessorDurableCaptureError>)
        ensures
            opening_begun(*factory, request, result),
    {
        if request.network != factory.network || !array_equal::<32>(
            &request.writer_activation_digest,
            &factory.writer_activation_digest,
        ) || !array_equal::<32>(&request.queue_readiness_digest, &factory.queue_readiness_digest) {
            return Err(CoordinatorProcessorDurableCaptureError::RuntimeCapabilityMismatch);
        }
        Ok(
            CaptureOpen {
                request,
                context_digest: ZERO_DIGEST,
                stage: CaptureOpenStage::ReadPipeline,
            },
        )
    }

    fn pipeline(self, read: Option<PipelineView>) -> (result: Result<
        Self,
        CoordinatorProcessorDurableCaptureError,
    >)
        ensures
            result == behind_pipeline(self, read),
    {
        match read {
            None => Err(CoordinatorProcessorDurableCaptureError::IdentityMismatch),
            Some(pipeline) => {
                match pipeline.activation {
                    Err(refused) => {
                        return Err(CoordinatorProcessorDurableCaptureError::Backend(refused));
                    },
                    Ok(_) => {},
                }
                if pipeline.network != self.request.network || pipeline.authority
                    != AuthorityScope::Coordinator || !array_equal::<32>(
                    &pipeline.activation_digest,
                    &self.request.writer_activation_digest,
                ) || pipeline.blocked || !pipeline.sealing {
                    return Err(CoordinatorProcessorDurableCaptureError::IdentityMismatch);
                }
                match pipeline.context {
                    Err(refused) => Err(CoordinatorProcessorDurableCaptureError::Backend(refused)),
                    Ok(context) => Ok(
                        CaptureOpen {
                            request: self.request,
                            context_digest: context.digest,
                            stage: CaptureOpenStage::ReadClose,
                        },
                    ),
                }
            },
        }
    }

    fn claim(&self, index: usize, identity: &[u8; 32]) -> (stage: CaptureOpenStage)
        ensures
            stage == claim_stage(self.request, index, *identity),
    {
        CaptureOpenStage::ClaimOwner {
            index,
            attempt: owner_attempt(&self.request, identity),
            reason: owner_reason(&self.request, identity),
        }
    }

    fn after_source(index: usize) -> (stage: CaptureOpenStage)
        requires
            index < SOURCE_COUNT,
        ensures
            stage == behind_source(index as int),
    {
        if index + 1 < SOURCE_COUNT {
            CaptureOpenStage::ResumeConsumer { index: index + 1 }
        } else {
            CaptureOpenStage::RevalidateClose
        }
    }

    /// Takes the outcome of the step that was asked for.
    pub fn advance(self, event: CaptureOpenEvent) -> (result: Result<
        Self,
        CoordinatorProcessorDurableCaptureError,
    >)
        requires
            self.wf(),
        ensures
            result == opened_further(self, event),
            result matches Ok(next) ==> next.wf(),
    {
        let stage: CaptureOpenStage = match (self.stage, event) {
            (CaptureOpenStage::Opened, _) => {
                return Err(CoordinatorProcessorDurableCaptureError::OutOfOrder);
            },
            (_, CaptureOpenEvent::Failed(reason)) => {
                return Err(CoordinatorProcessorDurableCaptureError::Backend(reason));
            },
            (CaptureOpenStage::ReadPipeline, CaptureOpenEvent::Pipeline(read)) => {
                return self.pipeline(read);
            },
            (CaptureOpenStage::ReadClose, CaptureOpenEvent::Done) => CaptureOpenStage::ReadRoute,
            (CaptureOpenStage::ReadRoute, CaptureOpenEvent::Done) => CaptureOpenStage::ResolveRoute,
            (CaptureOpenStage::ResolveRoute, CaptureOpenEvent::Done) => {
                CaptureOpenStage::ObserveInstance
            },
            (CaptureOpenStage::ObserveInstance, CaptureOpenEvent::Instance { live, published }) => {
                if !array_equal::<32>(&live, &published) {
                    return Err(CoordinatorProcessorDurableCaptureError::RuntimeCapabilityMismatch);
                }
                CaptureOpenStage::BootstrapGate
            },
            (CaptureOpenStage::BootstrapGate, CaptureOpenEvent::Done) => {
                CaptureOpenStage::ResumeConsumer { index: 0 }
            },
            (
                CaptureOpenStage::ResumeConsumer { index },
                CaptureOpenEvent::ConsumerReady { identity },
            ) => self.claim(index, &identity),
            (
                CaptureOpenStage::ResumeConsumer { index },
                CaptureOpenEvent::ConsumerMissing { consumer_digest },
            ) => CaptureOpenStage::ProvisionConsumer {
                index,
                operation: consumer_operation(
                    &self.request,
                    &self.context_digest,
                    &consumer_digest,
                ),
            },
            (
                CaptureOpenStage::ProvisionConsumer { index, .. },
                CaptureOpenEvent::ConsumerReady { identity },
            ) => self.claim(index, &identity),
            (CaptureOpenStage::ClaimOwner { index, .. }, CaptureOpenEvent::Done) => {
                Self::after_source(index)
            },
            (
                CaptureOpenStage::ClaimOwner { index, attempt, reason },
                CaptureOpenEvent::OwnerAlreadyHeld,
            ) => CaptureOpenStage::TakeOverOwner { index, attempt, reason },
            (CaptureOpenStage::TakeOverOwner { index, .. }, CaptureOpenEvent::Done) => {
                Self::after_source(index)
            },
            (CaptureOpenStage::RevalidateClose, CaptureOpenEvent::Done) => {
                CaptureOpenStage::RevalidatePublisher
            },
            (CaptureOpenStage::RevalidatePublisher, CaptureOpenEvent::Done) => {
                CaptureOpenStage::Opened
            },
            _ => return Err(CoordinatorProcessorDurableCaptureError::OutOfOrder),
        };
        Ok(CaptureOpen { request: self.request, context_digest: self.context_digest, stage })
    }
}

/// How far a replay of all sources has come.
#[derive(Clone, Copy, Debug, PartialEq, Eq, Structural)]
pub enum ReplayStage {
    RevalidateBefore,
    ReadSource { index: usize },
    Project,
    RevalidatePublisher,
    RevalidateClose,
    /// A source is still open: there is no generation yet.
    Incomplete,
    Complete,
}

/// What came of a replay step. `Read(false)` says that the source is still open.
#[derive(Debug, PartialEq, Eq)]
pub enum ReplayEvent {
    Failed(String),
    Done,
    Read(bool),
    Projected(Result<(), CoordinatorProcessorDurableCaptureError>),
}

pub open spec fn replayed_further(stage: ReplayStage, event: ReplayEvent) -> Result<
    ReplayStage,
    CoordinatorProcessorDurableCaptureError,
> {
    match (stage, event) {
        (ReplayStage::Incomplete, _) => Err(CoordinatorProcessorDurableCaptureError::OutOfOrder),
        (ReplayStage::Complete, _) => Err(CoordinatorProcessorDurableCaptureError::OutOfOrder),
        (_, ReplayEvent::Failed(reason)) => Err(
            CoordinatorProcessorDurableCaptureError::Backend(reason),
        ),
        (ReplayStage::RevalidateBefore, ReplayEvent::Done) => Ok(
            ReplayStage::ReadSource { index: 0 },
        ),
        (ReplayStage::ReadSource { index }, ReplayEvent::Read(closed)) => if !closed {
            Ok(ReplayStage::Incomplete)
        } else if index + 1 < SOURCE_COUNT {
            Ok(ReplayStage::ReadSource { index: (index + 1) as usize })
        } else {
            Ok(ReplayStage::Project)
        },
        (ReplayStage::Project, ReplayEvent::Projected(outcome)) => match outcome {
            Err(error) => Err(error),
            Ok(_) => Ok(ReplayStage::RevalidatePublisher),
        },
        (ReplayStage::RevalidatePublisher, ReplayEvent::Done) => Ok(ReplayStage::RevalidateClose),
        (ReplayStage::RevalidateClose, ReplayEvent::Done) => Ok(ReplayStage::Complete),
        _ => Err(CoordinatorProcessorDurableCaptureError::OutOfOrder),
    }
}

/// Takes the outcome of a replay step.
pub fn advance_replay(stage: ReplayStage, event: ReplayEvent) -> (result: Result<
    ReplayStage,
    CoordinatorProcessorDurableCaptureError,
>)
    requires
        stage matches ReplayStage::ReadSource { index } ==> index < SOURCE_COUNT,
    ensures
        result == replayed_further(stage, event),
        result matches Ok(ReplayStage::ReadSource { index }) ==> index < SOURCE_COUNT,
{
    match (stage, event) {
        (ReplayStage::Incomplete, _) => Err(CoordinatorProcessorDurableCaptureError::OutOfOrder),
        (ReplayStage::Complete, _) => Err(CoordinatorProcessorDurableCaptureError::OutOfOrder),
        (_, ReplayEvent::Failed(reason)) => Err(
            CoordinatorProcessorDurableCaptureError::Backend(reason),
        ),
        (ReplayStage::RevalidateBefore, ReplayEvent::Done) => Ok(
            ReplayStage::ReadSource { index: 0 },
        ),
        (ReplayStage::ReadSource { index }, ReplayEvent::Read(closed)) => if !closed {
            Ok(ReplayStage::Incomplete)
        } else if index + 1 < SOURCE_COUNT {
            Ok(ReplayStage::ReadSource { index: index + 1 })
        } else {
            Ok(ReplayStage::Project)
        },
        (ReplayStage::Project, ReplayEvent::Projected(outcome)) => match outcome {
            Err(error) => Err(error),
            Ok(_) => Ok(ReplayStage::RevalidatePublisher),
        },
        (ReplayStage::RevalidatePublisher, ReplayEvent::Done) => Ok(ReplayStage::RevalidateClose),
        (ReplayStage::RevalidateClose, ReplayEvent::Done) => Ok(ReplayStage::Complete),
        _ => Err(CoordinatorProcessorDurableCaptureError::OutOfOrder),
    }
}

/// How far a round that captures what is still open has come.
#[derive(Clone, Copy, Debug, PartialEq, Eq, Structural)]
pub enum CaptureRoundStage {
    ReplayAll,
    ReplaySource { index: usize },
    CaptureSource { index: usize },
    ReplayAgain,
    /// Whether the round ends with a complete generation.
    Finished { complete: bool },
}

#[derive(Debug, PartialEq, Eq)]
pub enum CaptureRoundEvent {
    Failed(String),
    /// A replay of all sources ended in an error, which the round hands on.
    Refused(CoordinatorProcessorDurableCaptureError),
    Replayed { complete: bool },
    Captured,
}

pub open spec fn next_source(index: int) -> CaptureRoundStage {
    if index + 1 < SOURCE_COUNT {
        CaptureRoundStage::ReplaySource { index: (index + 1) as usize }
    } else {
        CaptureRoundStage::ReplayAgain
    }
}

pub open spec fn captured_further(stage: CaptureRoundStage, event: CaptureRoundEvent) -> Result<
    CaptureRoundStage,
    CoordinatorProcessorDurableCaptureError,
> {
    match (stage, event) {
        (CaptureRoundStage::Finished { .. }, _) => Err(
            CoordinatorProcessorDurableCaptureError::OutOfOrder,
        ),
        (_, CaptureRoundEvent::Failed(reason)) => Err(
            CoordinatorProcessorDurableCaptureError::Backend(reason),
        ),
        (CaptureRoundStage::ReplayAll, CaptureRoundEvent::Refused(error)) => Err(error),
        (CaptureRoundStage::ReplayAgain, CaptureRoundEvent::Refused(error)) => Err(error),
        (CaptureRoundStage::ReplayAll, CaptureRoundEvent::Replayed { complete }) => if complete {
            Ok(CaptureRoundStage::Finished { complete: true })
        } else {
            Ok(CaptureRoundStage::ReplaySource { index: 0 })
        },
        (CaptureRoundStage::ReplaySource { index }, CaptureRoundEvent::Replayed { complete }) => {
            if complete {
                Ok(next_source(index as int))
            } else {
                Ok(CaptureRoundStage::CaptureSource { index })
            }
        },
        (CaptureRoundStage::CaptureSource { index }, CaptureRoundEvent::Captured) => Ok(
            next_source(index as int),
        ),
        (CaptureRoundStage::ReplayAgain, CaptureRoundEvent::Replayed { complete }) => Ok(
            CaptureRoundStage::Finished { complete },
        ),
        _ => Err(CoordinatorProcessorDurableCaptureError::OutOfOrder),
    }
}

pub open spec fn round_wf(stage: CaptureRoundStage) -> bool {
    match stage {
        CaptureRoundStage::ReplaySource { index } | CaptureRoundStage::CaptureSource { index } => {
            index < SOURCE_COUNT
        },
        _ => true,
    }
}

fn after_source_round(index: usize) -> (stage: CaptureRoundStage)
    requires
        index < SOURCE_COUNT,
    ensures
        stage == next_source(index as int),
{
    if index + 1 < SOURCE_COUNT {
        CaptureRoundStage::ReplaySource { index: index + 1 }
    } else {
        CaptureRoundStage::ReplayAgain
    }
}

/// Takes the outcome of a step of a capture round.
pub fn capture_or_replay(stage: CaptureRoundStage, event: CaptureRoundEvent) -> (result: Result<
    CaptureRoundStage,
    CoordinatorProcessorDurableCaptureError,
>)
    requires
        round_wf(stage),
    ensures
        result == captured_further(stage, event),
        result matches Ok(next) ==> round_wf(next),
{
    match (stage, event) {
        (CaptureRoundStage::Finished { .. }, _) => Err(
            CoordinatorProcessorDurableCaptureError::OutOfOrder,
        ),
        (_, CaptureRoundEvent::Failed(reason)) => Err(
            CoordinatorProcessorDurableCaptureError::Backend(reason),
        ),
        (CaptureRoundStage::ReplayAll, CaptureRoundEvent::Refused(error)) => Err(error),
        (CaptureRoundStage::ReplayAgain, CaptureRoundEvent::Refused(error)) => Err(error),
        (CaptureRoundStage::ReplayAll, CaptureRoundEvent::Replayed { complete }) => if complete {
            Ok(CaptureRoundStage::Finished { complete: true })
        } else {
            Ok(CaptureRoundStage::ReplaySource { index: 0 })
        },
        (CaptureRoundStage::ReplaySource { index }, CaptureRoundEvent::Replayed { complete }) => {
            if complete {
                Ok(after_source_round(index))
            } else {
                Ok(CaptureRoundStage::CaptureSource { index })
            }
        },
        (CaptureRoundStage::CaptureSource { index }, CaptureRoundEvent::Captured) => Ok(
            after_source_round(index),
        ),
        (CaptureRoundStage::ReplayAgain, CaptureRoundEvent::Replayed { complete }) => Ok(
            CaptureRoundStage::Finished { complete },
        ),
        _ => Err(CoordinatorProcessorDurableCaptureError::OutOfOrder),
    }
}

/// A refused projection as the capture reports it. `text` is the refusal in words.
pub fn projection(error: CoordinatorProcessorDurableProjectionError, text: String) -> (reported:
    CoordinatorProcessorDurableCaptureError)
    ensures
        reported == (if error == CoordinatorProcessorDurableProjectionError::IdentityMismatch {
            CoordinatorProcessorDurableCaptureError::IdentityMismatch
        } else {
            CoordinatorProcessorDurableCaptureError::Backend(text)
        }),
{
    match error {
        CoordinatorProcessorDurableProjectionError::IdentityMismatch => {
            CoordinatorProcessorDurableCaptureError::IdentityMismatch
        },
        _ => CoordinatorProcessorDurableCaptureError::Backend(text),
    }
}

/// Where a stage of the opening stands.
pub open spec fn open_rank(stage: CaptureOpenStage) -> int {
    match stage {
        CaptureOpenStage::ReadPipeline => 0,
        CaptureOpenStage::ReadClose => 1,
        CaptureOpenStage::ReadRoute => 2,
        CaptureOpenStage::ResolveRoute => 3,
        CaptureOpenStage::ObserveInstance => 4,
        CaptureOpenStage::BootstrapGate => 5,
        CaptureOpenStage::ResumeConsumer { index } => 6 + 4 * index,
        CaptureOpenStage::ProvisionConsumer { index, .. } => 7 + 4 * index,
        CaptureOpenStage::ClaimOwner { index, .. } => 8 + 4 * index,
        CaptureOpenStage::TakeOverOwner { index, .. } => 9 + 4 * index,
        CaptureOpenStage::RevalidateClose => 6 + 4 * SOURCE_COUNT,
        CaptureOpenStage::RevalidatePublisher => 7 + 4 * SOURCE_COUNT,
        CaptureOpenStage::Opened => 8 + 4 * SOURCE_COUNT,
    }
}

/// The stages that only some openings need: provisioning a consumer that is missing,
/// and taking over an owner that is held.
pub open spec fn optional_rank(rank: int) -> bool {
    6 <= rank < 6 + 4 * SOURCE_COUNT && rank % 2 == 1
}

/// Opening a capture only ever moves forward and skips nothing but what is optional:
/// an opened capture has read the pipeline, its close and its route, has checked the
/// live instance, has a consumer and an owner for each of the three sources in their
/// fixed order, and has revalidated the close and the publisher.
pub proof fn law_opening_skips_no_step(open: CaptureOpen, event: CaptureOpenEvent)
    requires
        open.wf(),
    ensures
        opened_further(open, event) matches Ok(next) ==> {
            &&& next.request == open.request
            &&& open_rank(open.stage) < open_rank(next.stage)
            &&& forall|rank: int|
                open_rank(open.stage) < rank < open_rank(next.stage) ==> #[trigger] optional_rank(
                    rank,
                )
        },
{
    if let Ok(next) = opened_further(open, event) {
        assert forall|rank: int|
            open_rank(open.stage) < rank < open_rank(next.stage) implies #[trigger] optional_rank(
            rank,
        ) by {}
    }
}

/// A source is captured only directly behind a replay that found that very source
/// open. A round whose first replay is complete captures nothing.
pub proof fn law_only_an_open_source_is_captured(stage: CaptureRoundStage, event: CaptureRoundEvent)
    ensures
        captured_further(stage, event) matches Ok(CaptureRoundStage::CaptureSource { index }) ==> {
            &&& stage == CaptureRoundStage::ReplaySource { index }
            &&& event == CaptureRoundEvent::Replayed { complete: false }
        },
        stage == CaptureRoundStage::ReplayAll && event == (CaptureRoundEvent::Replayed {
            complete: true,
        }) ==> captured_further(stage, event) == Ok::<
            CaptureRoundStage,
            CoordinatorProcessorDurableCaptureError,
        >(CaptureRoundStage::Finished { complete: true }),
{
}

/// An error that ends a replay of all sources ends the round unchanged.
pub proof fn law_replay_errors_pass_through(error: CoordinatorProcessorDurableCaptureError)
    ensures
        captured_further(CaptureRoundStage::ReplayAll, CaptureRoundEvent::Refused(error)) == Err::<
            CaptureRoundStage,
            CoordinatorProcessorDurableCaptureError,
        >(error),
        captured_further(CaptureRoundStage::ReplayAgain, CaptureRoundEvent::Refused(error)) == Err::<
            CaptureRoundStage,
            CoordinatorProcessorDurableCaptureError,
        >(error),
{
}

/// A replay gives a generation out only behind both revalidations, and is incomplete
/// as soon as one source is open.
pub proof fn law_replay_revalidates_before_it_completes(stage: ReplayStage, event: ReplayEvent)
    ensures
        replayed_further(stage, event) == Ok::<ReplayStage, CoordinatorProcessorDurableCaptureError>(
            ReplayStage::Complete,
        ) ==> stage == ReplayStage::RevalidateClose && event == ReplayEvent::Done,
        replayed_further(stage, event) == Ok::<ReplayStage, CoordinatorProcessorDurableCaptureError>(
            ReplayStage::RevalidateClose,
        ) ==> stage == ReplayStage::RevalidatePublisher && event == ReplayEvent::Done,
        replayed_further(stage, event) == Ok::<ReplayStage, CoordinatorProcessorDurableCaptureError>(
            ReplayStage::RevalidatePublisher,
        ) ==> stage == ReplayStage::Project,
        stage is ReadSource && event == ReplayEvent::Read(false) ==> replayed_further(stage, event)
            == Ok::<ReplayStage, CoordinatorProcessorDurableCaptureError>(ReplayStage::Incomplete),
{
}

/// The attempt of an owner commits to the process attempt and to the source: two that
/// are made from the same bytes agree in both.
pub proof fn law_owner_attempt_separates_attempts_and_sources(
    attempt: [u8; 32],
    identity: [u8; 32],
    other_attempt: [u8; 32],
    other_identity: [u8; 32],
)
    ensures
        owner_attempt_preimage(attempt, identity) == owner_attempt_preimage(
            other_attempt,
            other_identity,
        ) ==> attempt == other_attempt && identity == other_identity,
{
    let domain = bytes::text("psy/rollback/coordinator-processor-capture-owner-attempt/v1"@);
    let a = owner_attempt_preimage(attempt, identity);
    let b = owner_attempt_preimage(other_attempt, other_identity);
    if a == b {
        let n = domain.len() as int;
        assert(a.subrange(n, n + 32) =~= attempt@);
        assert(b.subrange(n, n + 32) =~= other_attempt@);
        assert(a.subrange(n + 32, n + 64) =~= identity@);
        assert(b.subrange(n + 32, n + 64) =~= other_identity@);
        bytes::lemma_array_eq::<32>(attempt, other_attempt);
        bytes::lemma_array_eq::<32>(identity, other_identity);
    }
}

/// Every process attempt of one deployment gives the same reason for a source.
pub proof fn law_owner_reason_ignores_the_attempt(
    request: SealedCoordinatorProcessorDurableCaptureRequest,
    other: SealedCoordinatorProcessorDurableCaptureRequest,
    index: usize,
    identity: [u8; 32],
)
    requires
        request.writer_activation_digest == other.writer_activation_digest,
        request.queue_readiness_digest == other.queue_readiness_digest,
    ensures
        claim_stage(request, index, identity)->ClaimOwner_reason == claim_stage(
            other,
            index,
            identity,
        )->ClaimOwner_reason,
{
}

/// A capture goes past the pipeline exactly if there is one, it is valid, unblocked and
/// sealing, and it is the Coordinator's own on the network and under the activation of
/// the request. The capture then goes by the digest of that pipeline's generation.
pub proof fn law_only_the_sealing_generation_is_opened(open: CaptureOpen, read: Option<PipelineView>)
    requires
        open.stage is ReadPipeline,
    ensures
        ({
            let opened = opened_further(open, CaptureOpenEvent::Pipeline(read));
            &&& opened is Ok <==> (read matches Some(pipeline) && {
                &&& pipeline.activation is Ok
                &&& pipeline.network == open.request.network
                &&& pipeline.authority is Coordinator
                &&& pipeline.activation_digest == open.request.writer_activation_digest
                &&& !pipeline.blocked
                &&& pipeline.sealing
                &&& pipeline.context is Ok
            })
            &&& opened matches Ok(next) ==> {
                &&& next.stage is ReadClose
                &&& next.context_digest == read->0.context->Ok_0.digest
                &&& next.request == open.request
            }
            &&& opened matches Err(error) ==> {
                ||| error is IdentityMismatch
                ||| read is Some && read->0.activation is Err && error
                    == CoordinatorProcessorDurableCaptureError::Backend(read->0.activation->Err_0)
                ||| read is Some && read->0.context is Err && error
                    == CoordinatorProcessorDurableCaptureError::Backend(read->0.context->Err_0)
            }
        }),
{
}

/// An instance that is not the published one has other capabilities, and nothing is
/// opened on it.
pub proof fn law_only_the_published_instance_is_opened(
    open: CaptureOpen,
    live: [u8; 32],
    published: [u8; 32],
)
    requires
        open.stage is ObserveInstance,
    ensures
        match opened_further(open, CaptureOpenEvent::Instance { live, published }) {
            Ok(next) => live == published && next.stage is BootstrapGate,
            Err(error) => live != published && error is RuntimeCapabilityMismatch,
        },
{
}

/// A consumer that is there is claimed and one that is missing is provisioned first, for
/// the same source. The claim is made under the digest of the request's attempt and the
/// artifact, for the reason of the activation, the readiness and the artifact; the
/// provisioning under the digest of the attempt, the generation and the consumer.
pub proof fn law_consumers_are_claimed_for_their_own_source(
    open: CaptureOpen,
    identity: [u8; 32],
    consumer_digest: [u8; 32],
)
    requires
        open.stage is ResumeConsumer || open.stage is ProvisionConsumer,
    ensures
        ({
            let index = if open.stage is ResumeConsumer {
                open.stage->ResumeConsumer_index
            } else {
                open.stage->ProvisionConsumer_index
            };
            let request = open.request;
            &&& opened_further(open, CaptureOpenEvent::ConsumerReady { identity }) matches Ok(next)
                && next.stage == (CaptureOpenStage::ClaimOwner {
                index,
                attempt: hash::sha256(
                    bytes::text("psy/rollback/coordinator-processor-capture-owner-attempt/v1"@)
                        + request.owner_attempt_digest@ + identity@,
                ),
                reason: hash::sha256(
                    bytes::text("psy/rollback/coordinator-processor-capture-owner-reason/v1"@)
                        + request.writer_activation_digest@ + request.queue_readiness_digest@
                        + identity@,
                ),
            })
            &&& open.stage is ResumeConsumer ==> (opened_further(
                open,
                CaptureOpenEvent::ConsumerMissing { consumer_digest },
            ) matches Ok(next) && next.stage == (CaptureOpenStage::ProvisionConsumer {
                index,
                operation: hash::sha256(
                    bytes::text("psy/rollback/coordinator-processor-capture-consumer-operation/v1"@)
                        + request.owner_attempt_digest@ + open.context_digest@ + consumer_digest@,
                ),
            }))
            &&& open.stage is ProvisionConsumer ==> opened_further(
                open,
                CaptureOpenEvent::ConsumerMissing { consumer_digest },
            ) is Err
        }),
{
}

/// A claim that is done leads to the next source, and behind the last one to the close.
/// A claim that another attempt holds is taken over, with the same attempt and reason,
/// before the next source.
pub proof fn law_sources_are_claimed_one_after_the_other(open: CaptureOpen)
    requires
        open.wf(),
        open.stage is ClaimOwner || open.stage is TakeOverOwner,
    ensures
        ({
            let index = if open.stage is ClaimOwner {
                open.stage->ClaimOwner_index
            } else {
                open.stage->TakeOverOwner_index
            };
            &&& opened_further(open, CaptureOpenEvent::Done) matches Ok(next) && if index < 2 {
                next.stage is ResumeConsumer && next.stage->ResumeConsumer_index == index + 1
            } else {
                next.stage is RevalidateClose
            }
            &&& match opened_further(open, CaptureOpenEvent::OwnerAlreadyHeld) {
                Ok(next) => open.stage is ClaimOwner && next.stage
                    == (CaptureOpenStage::TakeOverOwner {
                    index,
                    attempt: open.stage->ClaimOwner_attempt,
                    reason: open.stage->ClaimOwner_reason,
                }),
                Err(error) => open.stage is TakeOverOwner && error is OutOfOrder,
            }
        }),
{
}

/// The steps that only have to be done lead on to the next one, and an opening changes
/// neither its request nor, behind the pipeline, its generation.
pub proof fn law_opening_keeps_its_request(open: CaptureOpen, event: CaptureOpenEvent)
    ensures
        opened_further(open, event) matches Ok(next) ==> next.request == open.request && (
        next.context_digest == open.context_digest || open.stage is ReadPipeline),
        open.stage is ReadClose || open.stage is ReadRoute || open.stage is ResolveRoute
            || open.stage is BootstrapGate || open.stage is RevalidateClose || open.stage
            is RevalidatePublisher ==> opened_further(open, CaptureOpenEvent::Done) is Ok,
        open.stage is ReadPipeline || open.stage is ObserveInstance || open.stage is Opened
            || open.stage is ResumeConsumer || open.stage is ProvisionConsumer ==> opened_further(
            open,
            CaptureOpenEvent::Done,
        ) is Err,
        event is Failed ==> opened_further(open, event) == Err::<
            CaptureOpen,
            CoordinatorProcessorDurableCaptureError,
        >(
            if open.stage is Opened {
                CoordinatorProcessorDurableCaptureError::OutOfOrder
            } else {
                CoordinatorProcessorDurableCaptureError::Backend(event->Failed_0)
            },
        ),
{
}

/// A replay reads the three sources one after the other, stops as incomplete at the first
/// that is still open, and projects once all three are closed. A projection that is
/// refused ends it with its own error; one that is not is revalidated.
pub proof fn law_replay_reads_every_source(
    index: usize,
    closed: bool,
    outcome: Result<(), CoordinatorProcessorDurableCaptureError>,
)
    requires
        index < 3,
    ensures
        replayed_further(ReplayStage::RevalidateBefore, ReplayEvent::Done) == Ok::<
            _,
            CoordinatorProcessorDurableCaptureError,
        >(ReplayStage::ReadSource { index: 0 }),
        replayed_further(ReplayStage::ReadSource { index }, ReplayEvent::Read(closed)) matches Ok(
            next,
        ) && if !closed {
            next is Incomplete
        } else if index < 2 {
            next is ReadSource && next->ReadSource_index == index + 1
        } else {
            next is Project
        },
        match replayed_further(ReplayStage::Project, ReplayEvent::Projected(outcome)) {
            Ok(next) => outcome is Ok && next is RevalidatePublisher,
            Err(error) => outcome is Err && error == outcome->Err_0,
        },
        replayed_further(ReplayStage::RevalidatePublisher, ReplayEvent::Done) is Ok,
        replayed_further(ReplayStage::RevalidateClose, ReplayEvent::Done) is Ok,
{
}

/// A round replays all sources first. Unless they are complete it takes the three sources
/// one after the other, captures each that its replay finds open and passes over each that
/// is not, and ends with what a last replay of all of them finds.
pub proof fn law_round_captures_what_is_open(index: usize, complete: bool)
    requires
        index < 3,
    ensures
        captured_further(
            CaptureRoundStage::ReplayAll,
            CaptureRoundEvent::Replayed { complete },
        ) matches Ok(next) && if complete {
            next == (CaptureRoundStage::Finished { complete: true })
        } else {
            next == (CaptureRoundStage::ReplaySource { index: 0 })
        },
        captured_further(
            CaptureRoundStage::ReplaySource { index },
            CaptureRoundEvent::Replayed { complete },
        ) matches Ok(next) && if !complete {
            next == (CaptureRoundStage::CaptureSource { index })
        } else if index < 2 {
            next is ReplaySource && next->ReplaySource_index == index + 1
        } else {
            next is ReplayAgain
        },
        captured_further(
            CaptureRoundStage::CaptureSource { index },
            CaptureRoundEvent::Captured,
        ) matches Ok(next) && if index < 2 {
            next is ReplaySource && next->ReplaySource_index == index + 1
        } else {
            next is ReplayAgain
        },
        captured_further(
            CaptureRoundStage::ReplayAgain,
            CaptureRoundEvent::Replayed { complete },
        ) == Ok::<_, CoordinatorProcessorDurableCaptureError>(
            CaptureRoundStage::Finished { complete },
        ),
{
}

/// A failed step ends a replay or a round with its own reason.
pub proof fn law_failed_step_ends_the_capture(
    replay: ReplayStage,
    round: CaptureRoundStage,
    reason: String,
)
    ensures
        replayed_further(replay, ReplayEvent::Failed(reason)) matches Err(error) && if replay
            is Incomplete || replay is Complete {
            error is OutOfOrder
        } else {
            error == CoordinatorProcessorDurableCaptureError::Backend(reason)
        },
        captured_further(round, CaptureRoundEvent::Failed(reason)) matches Err(error) && if round
            is Finished {
            error is OutOfOrder
        } else {
            error == CoordinatorProcessorDurableCaptureError::Backend(reason)
        },
{
}

/// What a factory is prepared from.
pub open spec fn factory_prepared(
    network: NetworkId,
    sidecar_authority: AuthorityScope,
    queue_readiness_digest: [u8; 32],
    pipeline: Option<PipelineView>,
    result: Result<CaptureFactory, CoordinatorProcessorDurableCaptureError>,
) -> bool {
    result == (if sidecar_authority == AuthorityScope::Coordinator && pipeline is Some
        && pipeline->0.network == network && pipeline->0.authority
        == AuthorityScope::Coordinator && !pipeline->0.blocked {
        Ok::<CaptureFactory, CoordinatorProcessorDurableCaptureError>(
            CaptureFactory {
                network,
                writer_activation_digest: pipeline->0.activation_digest,
                queue_readiness_digest,
            },
        )
    } else {
        Err(CoordinatorProcessorDurableCaptureError::IdentityMismatch)
    })
}

/// What opening a capture begins with.
pub open spec fn opening_begun(
    factory: CaptureFactory,
    request: SealedCoordinatorProcessorDurableCaptureRequest,
    result: Result<CaptureOpen, CoordinatorProcessorDurableCaptureError>,
) -> bool {
    result == (if request.network == factory.network && request.writer_activation_digest
        == factory.writer_activation_digest && request.queue_readiness_digest
        == factory.queue_readiness_digest {
        Ok::<CaptureOpen, CoordinatorProcessorDurableCaptureError>(
            CaptureOpen {
                request,
                context_digest: ZERO_DIGEST,
                stage: CaptureOpenStage::ReadPipeline,
            },
        )
    } else {
        Err(CoordinatorProcessorDurableCaptureError::RuntimeCapabilityMismatch)
    })
}

/// What the consumer of a step captures.
pub open spec fn consumer_due(open: CaptureOpen, spec: Option<CaptureSpec>) -> bool {
    spec == match open.stage {
        CaptureOpenStage::ResumeConsumer { index }
        | CaptureOpenStage::ProvisionConsumer { index, .. } => Some(
            CaptureSpec {
                kind: durable_capture::spec_source_at(index as int),
                batch_limit: CAPTURE_BATCH_LIMIT,
            },
        ),
        _ => None,
    }
}

/// A factory is prepared exactly from an unblocked pipeline of the Coordinator on the
/// network, by the Coordinator's own sidecar, and is that pipeline's activation. A capture
/// is opened exactly if it was sealed for the factory's network, activation and readiness,
/// and then begins with the pipeline.
pub proof fn law_capture_is_opened_for_its_own_factory(
    network: NetworkId,
    sidecar_authority: AuthorityScope,
    queue_readiness_digest: [u8; 32],
    pipeline: Option<PipelineView>,
    prepared: Result<CaptureFactory, CoordinatorProcessorDurableCaptureError>,
    factory: CaptureFactory,
    request: SealedCoordinatorProcessorDurableCaptureRequest,
    begun: Result<CaptureOpen, CoordinatorProcessorDurableCaptureError>,
)
    requires
        factory_prepared(network, sidecar_authority, queue_readiness_digest, pipeline, prepared),
        opening_begun(factory, request, begun),
    ensures
        prepared is Ok <==> sidecar_authority is Coordinator && (pipeline matches Some(pipeline)
            && pipeline.network == network && pipeline.authority is Coordinator
            && !pipeline.blocked),
        prepared matches Ok(made) ==> made.network == network && made.writer_activation_digest
            == pipeline->0.activation_digest && made.queue_readiness_digest
            == queue_readiness_digest,
        begun is Ok <==> request.network == factory.network && request.writer_activation_digest
            == factory.writer_activation_digest && request.queue_readiness_digest
            == factory.queue_readiness_digest,
        begun matches Ok(open) ==> open.request == request && open.stage is ReadPipeline,
        begun matches Err(error) ==> error is RuntimeCapabilityMismatch,
{
}

/// The consumers are those of the registration, the deploy and the guta source, in this
/// order, each in batches of at most 1024 messages.
pub proof fn law_consumers_are_those_of_the_three_sources(open: CaptureOpen, spec: Option<CaptureSpec>)
    requires
        open.wf(),
        consumer_due(open, spec),
    ensures
        spec is Some <==> open.stage is ResumeConsumer || open.stage is ProvisionConsumer,
        spec matches Some(spec) ==> {
            let index = if open.stage is ResumeConsumer {
                open.stage->ResumeConsumer_index
            } else {
                open.stage->ProvisionConsumer_index
            };
            &&& spec.batch_limit == 1024
            &&& spec.kind is Registration <==> index == 0
            &&& spec.kind is Deploy <==> index == 1
            &&& spec.kind is Guta <==> index == 2
        },
{
}

} // verus!
