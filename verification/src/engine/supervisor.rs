//! Activation of engine generations, with a probation in which a failure brings the previous
//! generation back.

use std::sync::Arc;

use vstd::prelude::*;

use crate::engine::rules::EngineSpecError;
use crate::engine::spec::EngineSpec;
use crate::engine::spec::{digest_refused, identifies};
use crate::text::same_text;

verus! {

/// One fully built immutable backend and its content-addressed specification.
#[derive(Debug)]
pub struct EngineGeneration<E> {
    id: String,
    spec: EngineSpec,
    engine: E,
}

impl<E> EngineGeneration<E> {
    /// The generation's identifier.
    pub closed spec fn digest(self) -> Seq<char> {
        self.id@
    }

    /// What the generation was built from.
    pub closed spec fn specification(self) -> EngineSpec {
        self.spec
    }

    /// The backend.
    pub closed spec fn backend(self) -> E {
        self.engine
    }

    /// The generation with its identifier.
    pub open spec fn named(self) -> Named<EngineGeneration<E>> {
        Named { id: self.digest(), value: self }
    }

    /// A generation of a valid specification, whose serialized form gives it its identifier.
    pub fn new<F>(spec: EngineSpec, engine: E, serialize: &F) -> (r: Result<
        Self,
        EngineSpecError,
    >) where F: Fn(&EngineSpec) -> Result<Vec<u8>, String>
        requires
            call_requires(*serialize, (&spec,)),
        ensures
            match r {
                Ok(generation) => {
                    &&& spec.valid()
                    &&& identifies(*serialize, spec, generation.digest())
                    &&& generation.specification() == spec
                    &&& generation.backend() == engine
                },
                Err(e) => digest_refused(*serialize, spec, e),
            },
    {
        match spec.generation_digest(serialize) {
            Ok(id) => Ok(EngineGeneration { id, spec, engine }),
            Err(e) => Err(e),
        }
    }

    /// The generation that was asked for under `id`, once its backend is built.
    pub(crate) fn built(id: String, spec: EngineSpec, engine: E) -> (r: Self)
        ensures
            r.digest() == id@,
            r.specification() == spec,
            r.backend() == engine,
    {
        EngineGeneration { id, spec, engine }
    }

    /// The generation's identifier.
    pub fn id(&self) -> (r: &str)
        ensures
            r@ == self.digest(),
    {
        self.id.as_str()
    }

    /// What the generation was built from.
    pub fn spec(&self) -> (r: &EngineSpec)
        ensures
            *r == self.specification(),
    {
        &self.spec
    }

    /// The backend.
    pub fn engine(&self) -> (r: &E)
        ensures
            *r == self.backend(),
    {
        &self.engine
    }

    fn owned_id(&self) -> (r: String)
        ensures
            r@ == self.digest(),
    {
        self.id.clone()
    }
}

/// `Arc::clone`: another pointer to the same value.
#[verifier::external_body]
fn share<T>(shared: &Arc<T>) -> (r: Arc<T>)
    ensures
        r == *shared,
{
    Arc::clone(shared)
}

/// A single frame's immutable view of an engine generation. While it lives the generation is not
/// destroyed.
#[derive(Debug)]
pub struct EngineFrame<E> {
    generation: Arc<EngineGeneration<E>>,
}

impl<E> EngineFrame<E> {
    /// The generation that the frame runs on.
    pub closed spec fn lease(self) -> EngineGeneration<E> {
        *self.generation
    }

    /// The identifier of the frame's generation.
    pub fn id(&self) -> (r: &str)
        ensures
            r@ == self.lease().digest(),
    {
        self.generation.id()
    }

    /// What the frame's generation was built from.
    pub fn spec(&self) -> (r: &EngineSpec)
        ensures
            *r == self.lease().specification(),
    {
        self.generation.spec()
    }

    /// The backend of the frame's generation.
    pub fn engine(&self) -> (r: &E)
        ensures
            *r == self.lease().backend(),
    {
        self.generation.engine()
    }
}

/// How a frame ended.
#[derive(Debug, Clone, Copy, PartialEq, Eq, Structural)]
pub enum FrameOutcome {
    Success,
    Failure,
}

/// What became of an activation.
#[derive(Debug, Clone, Copy, PartialEq, Eq, Structural)]
pub enum ActivationOutcome {
    Activated,
    AlreadyActive,
}

/// Why an activation is refused.
#[derive(Debug, PartialEq, Eq)]
pub enum ActivationError {
    ProbationInProgress { candidate_generation: String },
}

/// What a recorded frame did to the probation.
#[derive(Debug, PartialEq, Eq)]
pub enum ProbationUpdate {
    Ignored,
    Pending { remaining_frames: u32 },
    Promoted { generation: String },
    RolledBack { rejected_generation: String, restored_generation: String },
}

/// Whether a generation is on probation.
#[derive(Debug, Clone, Copy, PartialEq, Eq, Structural)]
pub enum SupervisorPhase {
    Stable,
    Probation,
}

/// The supervisor's state for display.
#[derive(Debug, PartialEq, Eq)]
pub struct SupervisorSnapshot {
    pub phase: SupervisorPhase,
    pub active_generation: String,
    pub rollback_generation: Option<String>,
    pub probation_remaining_frames: Option<u32>,
}

#[derive(Debug)]
enum ControlPhase<E> {
    Stable,
    Probation {
        candidate_generation: String,
        rollback: Arc<EngineGeneration<E>>,
        remaining_frames: u32,
    },
}

/// A value with its identifier.
#[verifier::reject_recursive_types(G)]
pub struct Named<G> {
    pub id: Seq<char>,
    pub value: G,
}

/// The state of a supervisor: the active generation and, during a probation, the generation to
/// come back to with the number of frames still to pass.
#[verifier::reject_recursive_types(G)]
pub struct Supervision<G> {
    pub active: Named<G>,
    pub fallback: Option<(Named<G>, int)>,
    pub probation_frames: int,
}

impl<G> Supervision<G> {
    /// The state after `candidate` was put up for activation: nothing changes where it is active
    /// already or a probation runs.
    pub open spec fn activated(self, candidate: Named<G>) -> Supervision<G> {
        if self.active.id == candidate.id || self.fallback is Some {
            self
        } else {
            Supervision {
                active: candidate,
                fallback: if self.probation_frames == 0 {
                    None
                } else {
                    Some((self.active, self.probation_frames))
                },
                probation_frames: self.probation_frames,
            }
        }
    }

    /// The state after a frame that the generation `id` rendered.
    pub open spec fn recorded(self, id: Seq<char>, outcome: FrameOutcome) -> Supervision<G> {
        match self.fallback {
            Some((fallback, remaining)) => if self.active.id != id {
                self
            } else {
                match outcome {
                    FrameOutcome::Failure => Supervision {
                        active: fallback,
                        fallback: None,
                        probation_frames: self.probation_frames,
                    },
                    FrameOutcome::Success => Supervision {
                        active: self.active,
                        fallback: if remaining <= 1 {
                            None
                        } else {
                            Some((fallback, remaining - 1))
                        },
                        probation_frames: self.probation_frames,
                    },
                }
            },
            None => self,
        }
    }

    /// The state after `n` successful frames of the active generation.
    pub open spec fn after_successes(self, n: nat) -> Supervision<G>
        decreases n,
    {
        if n == 0 {
            self
        } else {
            self.after_successes((n - 1) as nat).recorded(self.active.id, FrameOutcome::Success)
        }
    }
}

/// A failing frame of a candidate on probation brings back the generation that was active before
/// it, and ends the probation.
pub proof fn failure_restores_the_previous_generation<G>(
    state: Supervision<G>,
    candidate: Named<G>,
    n: nat,
)
    requires
        state.fallback is None,
        state.probation_frames > n,
        state.active.id != candidate.id,
    ensures
        state.activated(candidate).after_successes(n).recorded(candidate.id, FrameOutcome::Failure)
            == state,
{
    successes_count_down(state.activated(candidate), n);
}

/// During a probation of `r` frames, fewer than `r` successful frames keep the generation to come
/// back to and count the rest down.
pub proof fn successes_count_down<G>(state: Supervision<G>, n: nat)
    requires
        state.fallback is Some,
        n < (state.fallback->0).1,
    ensures
        state.after_successes(n) == (Supervision {
            active: state.active,
            fallback: Some(((state.fallback->0).0, (state.fallback->0).1 - n)),
            probation_frames: state.probation_frames,
        }),
    decreases n,
{
    if n > 0 {
        successes_count_down(state, (n - 1) as nat);
    }
}

/// As many successful frames as the probation asks for promote the candidate: it stays active and
/// there is nothing to come back to.
pub proof fn enough_successes_promote<G>(state: Supervision<G>)
    requires
        state.fallback is Some,
        (state.fallback->0).1 >= 1,
    ensures
        state.after_successes((state.fallback->0).1 as nat) == (Supervision {
            active: state.active,
            fallback: None,
            probation_frames: state.probation_frames,
        }),
{
    successes_count_down(state, ((state.fallback->0).1 - 1) as nat);
}

/// Frames of other generations change nothing, and neither do frames outside a probation.
pub proof fn foreign_frames_change_nothing<G>(
    state: Supervision<G>,
    id: Seq<char>,
    outcome: FrameOutcome,
)
    requires
        state.fallback is None || id != state.active.id,
    ensures
        state.recorded(id, outcome) == state,
{
}

/// Owns the active generation and the bookkeeping of its probation.
#[derive(Debug)]
pub struct EngineSupervisor<E> {
    active: Arc<EngineGeneration<E>>,
    phase: ControlPhase<E>,
    probation_frames: u32,
}

impl<E> EngineSupervisor<E> {
    /// The supervisor's state.
    pub closed spec fn state(self) -> Supervision<EngineGeneration<E>> {
        Supervision {
            active: self.active.named(),
            fallback: match self.phase {
                ControlPhase::Stable => None,
                ControlPhase::Probation { candidate_generation, rollback, remaining_frames } => Some(
                    (rollback.named(), remaining_frames as int),
                ),
            },
            probation_frames: self.probation_frames as int,
        }
    }

    /// A generation on probation is the active one, and frames are left for it.
    pub closed spec fn wf(self) -> bool {
        match self.phase {
            ControlPhase::Stable => true,
            ControlPhase::Probation { candidate_generation, rollback, remaining_frames } => {
                &&& candidate_generation@ == self.active.digest()
                &&& rollback.digest() != self.active.digest()
                &&& 1 <= remaining_frames <= self.probation_frames
            },
        }
    }

    /// A supervisor of one generation. A later activation is on probation for
    /// `probation_frames` frames.
    pub fn new(initial: EngineGeneration<E>, probation_frames: u32) -> (r: Self)
        ensures
            r.wf(),
            r.state() == (Supervision {
                active: initial.named(),
                fallback: None,
                probation_frames: probation_frames as int,
            }),
    {
        EngineSupervisor {
            active: Arc::new(initial),
            phase: ControlPhase::Stable,
            probation_frames,
        }
    }

    /// Captures exactly one generation for an entire frame: the active one.
    pub fn begin_frame(&self) -> (r: EngineFrame<E>)
        ensures
            r.lease().named() == self.state().active,
    {
        EngineFrame { generation: share(&self.active) }
    }

    /// Makes a fully built candidate the generation of future frames.
    pub fn activate(&mut self, candidate: EngineGeneration<E>) -> (r: Result<
        ActivationOutcome,
        ActivationError,
    >)
        requires
            old(self).wf(),
        ensures
            final(self).wf(),
            final(self).state() == old(self).state().activated(candidate.named()),
            match r {
                Ok(ActivationOutcome::AlreadyActive) => old(self).state().active.id
                    == candidate.digest(),
                Err(ActivationError::ProbationInProgress { candidate_generation }) => {
                    &&& old(self).state().active.id != candidate.digest()
                    &&& old(self).state().fallback is Some
                    &&& candidate_generation@ == old(self).state().active.id
                },
                Ok(ActivationOutcome::Activated) => old(self).state().active.id
                    != candidate.digest() && old(self).state().fallback is None,
            },
    {
        if same_text(self.active.id(), candidate.id()) {
            return Ok(ActivationOutcome::AlreadyActive);
        }
        if let ControlPhase::Probation { candidate_generation, rollback: _, remaining_frames: _ } =
            &self.phase {
            return Err(
                ActivationError::ProbationInProgress {
                    candidate_generation: candidate_generation.clone(),
                },
            );
        }
        let candidate_generation: String = candidate.owned_id();
        let rollback: Arc<EngineGeneration<E>> = share(&self.active);
        self.active = Arc::new(candidate);
        if self.probation_frames > 0 {
            self.phase = ControlPhase::Probation {
                candidate_generation,
                rollback,
                remaining_frames: self.probation_frames,
            };
        }
        Ok(ActivationOutcome::Activated)
    }

    /// Advances the probation by a frame that the generation `generation` rendered.
    pub fn record_frame(&mut self, generation: &str, outcome: FrameOutcome) -> (r: ProbationUpdate)
        requires
            old(self).wf(),
        ensures
            final(self).wf(),
            final(self).state() == old(self).state().recorded(generation@, outcome),
            match r {
                ProbationUpdate::Ignored => old(self).state().fallback is None || generation@
                    != old(self).state().active.id,
                ProbationUpdate::Pending { remaining_frames } => {
                    &&& generation@ == old(self).state().active.id
                    &&& outcome == FrameOutcome::Success
                    &&& final(self).state().fallback is Some
                    &&& remaining_frames == (final(self).state().fallback->0).1
                },
                ProbationUpdate::Promoted { generation: promoted } => {
                    &&& old(self).state().fallback is Some
                    &&& generation@ == old(self).state().active.id
                    &&& outcome == FrameOutcome::Success
                    &&& final(self).state().fallback is None
                    &&& promoted@ == old(self).state().active.id
                },
                ProbationUpdate::RolledBack { rejected_generation, restored_generation } => {
                    &&& old(self).state().fallback is Some
                    &&& generation@ == old(self).state().active.id
                    &&& outcome == FrameOutcome::Failure
                    &&& rejected_generation@ == old(self).state().active.id
                    &&& restored_generation@ == (old(self).state().fallback->0).0.id
                },
            },
    {
        let mut phase: ControlPhase<E> = ControlPhase::Stable;
        std::mem::swap(&mut phase, &mut self.phase);
        match phase {
            ControlPhase::Stable => ProbationUpdate::Ignored,
            ControlPhase::Probation { candidate_generation, rollback, remaining_frames } => {
                if !same_text(candidate_generation.as_str(), generation) {
                    self.phase = ControlPhase::Probation {
                        candidate_generation,
                        rollback,
                        remaining_frames,
                    };
                    return ProbationUpdate::Ignored;
                }
                match outcome {
                    FrameOutcome::Failure => {
                        let restored_generation: String = rollback.owned_id();
                        self.active = rollback;
                        ProbationUpdate::RolledBack {
                            rejected_generation: candidate_generation,
                            restored_generation,
                        }
                    },
                    FrameOutcome::Success => {
                        if remaining_frames <= 1 {
                            ProbationUpdate::Promoted { generation: candidate_generation }
                        } else {
                            let remaining: u32 = remaining_frames - 1;
                            self.phase = ControlPhase::Probation {
                                candidate_generation,
                                rollback,
                                remaining_frames: remaining,
                            };
                            ProbationUpdate::Pending { remaining_frames: remaining }
                        }
                    },
                }
            },
        }
    }

    /// The state for display.
    pub fn snapshot(&self) -> (r: SupervisorSnapshot)
        ensures
            r.active_generation@ == self.state().active.id,
            match self.state().fallback {
                None => {
                    &&& r.phase == SupervisorPhase::Stable
                    &&& r.rollback_generation is None
                    &&& r.probation_remaining_frames is None
                },
                Some((fallback, remaining)) => {
                    &&& r.phase == SupervisorPhase::Probation
                    &&& r.rollback_generation is Some
                    &&& r.rollback_generation->0@ == fallback.id
                    &&& r.probation_remaining_frames is Some
                    &&& r.probation_remaining_frames->0 == remaining
                },
            },
    {
        let active_generation: String = self.active.owned_id();
        match &self.phase {
            ControlPhase::Stable => SupervisorSnapshot {
                phase: SupervisorPhase::Stable,
                active_generation,
                rollback_generation: None,
                probation_remaining_frames: None,
            },
            ControlPhase::Probation { candidate_generation: _, rollback, remaining_frames } => {
                SupervisorSnapshot {
                    phase: SupervisorPhase::Probation,
                    active_generation,
                    rollback_generation: Some(rollback.owned_id()),
                    probation_remaining_frames: Some(*remaining_frames),
                }
            },
        }
    }
}

} // verus!
