//! The queue of background builds: one build at a time, and the latest request wins.

use vstd::prelude::*;

use crate::engine::rules::EngineSpecError;
use crate::engine::spec::EngineSpec;
use crate::engine::spec::{digest_refused, identifies};
use crate::engine::supervisor::{EngineGeneration, Named};
use crate::text::same_text;

verus! {

/// Which builds were asked to stop: a flag for every build that was begun.
#[derive(Debug)]
pub struct BuildFlags {
    asked: Vec<bool>,
}

/// Cooperative cancellation observed between expensive model-build stages. It names a flag, which
/// all of its clones share.
#[derive(Debug, Clone, Copy, PartialEq, Eq, Structural)]
pub struct BuildCancellation {
    place: usize,
}

/// `after` are the flags `before`, of which that of `c` was raised, and no other.
pub open spec fn raised(before: BuildFlags, c: BuildCancellation, after: BuildFlags) -> bool {
    forall|other: BuildCancellation| #[trigger]
        other.cancelled_in(after) <==> other == c || other.cancelled_in(before)
}

/// `after` are the flags `before` with one more, that of `c`, which is not raised.
pub open spec fn added(before: BuildFlags, c: BuildCancellation, after: BuildFlags) -> bool {
    &&& c.number() == before.given()
    &&& after.given() == before.given() + 1
    &&& !c.cancelled_in(before)
    &&& forall|other: BuildCancellation| #[trigger]
        other.cancelled_in(after) <==> other.cancelled_in(before)
}

impl BuildFlags {
    /// How many flags there are.
    pub closed spec fn given(self) -> nat {
        self.asked@.len()
    }

    /// No flags.
    pub fn new() -> (r: Self)
        ensures
            r.given() == 0,
            forall|c: BuildCancellation| !(#[trigger] c.cancelled_in(r)),
    {
        BuildFlags { asked: Vec::new() }
    }

    /// One more flag, which is not raised.
    pub fn fresh(&mut self) -> (r: BuildCancellation)
        ensures
            added(*old(self), r, *final(self)),
    {
        let r = BuildCancellation { place: self.asked.len() };
        self.asked.push(false);
        r
    }
}

impl BuildCancellation {
    /// The place of the flag among those that were given.
    pub closed spec fn number(self) -> nat {
        self.place as nat
    }

    /// The build was asked to stop.
    pub closed spec fn cancelled_in(self, flags: BuildFlags) -> bool {
        self.place < flags.asked@.len() && flags.asked@[self.place as int]
    }

    /// Whether the build was asked to stop, through this or any clone of it.
    pub fn is_cancelled(&self, flags: &BuildFlags) -> (r: bool)
        ensures
            r == self.cancelled_in(*flags),
    {
        self.place < flags.asked.len() && flags.asked[self.place]
    }

    /// Asks the build to stop.
    pub fn cancel(&self, flags: &mut BuildFlags)
        ensures
            raised(*old(flags), *self, *final(flags)),
    {
        let ghost before = flags.asked@;
        while flags.asked.len() <= self.place
            invariant
                before.len() <= flags.asked@.len(),
                flags.asked@.len() <= before.len() || flags.asked@.len() <= self.place + 1,
                forall|i: int| 0 <= i < before.len() ==> #[trigger] flags.asked@[i] == before[i],
                forall|i: int|
                    before.len() <= i < flags.asked@.len() ==> !(#[trigger] flags.asked@[i]),
            decreases self.place + 1 - flags.asked@.len(),
        {
            flags.asked.push(false);
        }
        flags.asked.set(self.place, true);
        proof {
            assert forall|other: BuildCancellation| #[trigger]
                other.cancelled_in(*flags) <==> other == *self || other.cancelled_in(
                    *old(flags),
                ) by {
                assert(other.place == self.place ==> other == *self);
            }
        }
    }
}

/// What happens to flags.
pub enum FlagStep {
    /// A build is begun and gets a flag.
    Begin(BuildCancellation),
    /// A build is asked to stop.
    Cancel(BuildCancellation),
}

/// The flags before and after a step.
pub open spec fn flag_step(before: BuildFlags, step: FlagStep, after: BuildFlags) -> bool {
    match step {
        FlagStep::Begin(c) => added(before, c, after),
        FlagStep::Cancel(c) => raised(before, c, after),
    }
}

/// The flags through which a history of steps leads.
pub open spec fn flag_history(states: Seq<BuildFlags>, steps: Seq<FlagStep>) -> bool {
    &&& states.len() == steps.len() + 1
    &&& forall|i: int|
        0 <= i < steps.len() ==> flag_step(states[i], #[trigger] steps[i], states[i + 1])
}

/// A build is cancelled exactly where it was asked to stop, through its cancellation or any clone
/// of that. So all clones agree, one that is fresh is not cancelled, and one that is stays so.
pub proof fn cancelled_exactly_where_asked(
    states: Seq<BuildFlags>,
    steps: Seq<FlagStep>,
    c: BuildCancellation,
    clone: BuildCancellation,
)
    requires
        flag_history(states, steps),
        !c.cancelled_in(states[0]),
        clone == c,
    ensures
        c.cancelled_in(states.last()) <==> steps.contains(FlagStep::Cancel(c)),
        clone.cancelled_in(states.last()) <==> c.cancelled_in(states.last()),
    decreases steps.len(),
{
    if steps.len() > 0 {
        let n = steps.len() - 1;
        let front = steps.drop_last();
        let before = states.drop_last();
        assert forall|i: int| 0 <= i < front.len() implies flag_step(
            before[i],
            #[trigger] front[i],
            before[i + 1],
        ) by {
            assert(flag_step(states[i], steps[i], states[i + 1]));
        }
        cancelled_exactly_where_asked(before, front, c, clone);
        assert(flag_step(states[n], steps[n], states[n + 1]));
        assert(steps =~= front.push(steps[n]));
        if front.contains(FlagStep::Cancel(c)) {
            let i = front.index_of(FlagStep::Cancel(c));
            assert(steps[i] == FlagStep::Cancel(c));
        }
        if steps.contains(FlagStep::Cancel(c)) && steps[n] != FlagStep::Cancel(c) {
            let i = steps.index_of(FlagStep::Cancel(c));
            assert(front[i] == FlagStep::Cancel(c));
        }
    }
}

/// A build that was asked to stop stays so, whatever happens to the flags.
pub proof fn cancelled_build_stays_cancelled(
    before: BuildFlags,
    step: FlagStep,
    after: BuildFlags,
    c: BuildCancellation,
)
    requires
        flag_step(before, step, after),
        c.cancelled_in(before),
    ensures
        c.cancelled_in(after),
{
}

/// What became of a build request.
#[derive(Debug, PartialEq, Eq)]
pub enum BuildRequestOutcome {
    Queued { generation: String },
    Coalesced { generation: String },
}

/// Where the queue stands.
#[derive(Debug, Clone, Copy, PartialEq, Eq, Structural)]
pub enum BuildPhase {
    Idle,
    Queued,
    Building,
    Ready,
    Failed,
}

/// The queue's state for display.
#[derive(Debug, PartialEq, Eq)]
pub struct BuildSnapshot {
    pub phase: BuildPhase,
    pub queued_generation: Option<String>,
    pub building_generation: Option<String>,
    pub ready_generation: Option<String>,
    pub last_failure: Option<String>,
}

/// A build that was asked for and not begun.
#[derive(Debug, PartialEq, Eq)]
pub struct PendingBuild {
    generation: String,
    spec: EngineSpec,
}

impl PendingBuild {
    /// The identifier of the generation that was asked for.
    pub closed spec fn id(self) -> Seq<char> {
        self.generation@
    }

    /// What it is to be built from.
    pub closed spec fn specification(self) -> EngineSpec {
        self.spec
    }

    /// The identifier of the generation that was asked for.
    pub fn generation(&self) -> (r: &str)
        ensures
            r@ == self.id(),
    {
        self.generation.as_str()
    }

    /// What it is to be built from.
    pub fn spec(&self) -> (r: &EngineSpec)
        ensures
            *r == self.specification(),
    {
        &self.spec
    }
}

#[derive(Debug)]
struct ActiveBuild {
    generation: String,
    cancellation: BuildCancellation,
}

/// What the end of a build led to.
#[derive(Debug, Clone, Copy, PartialEq, Eq, Structural)]
pub enum BuildEnd {
    /// The queue is shut down, and its worker returns.
    Stopped,
    /// The build was cancelled or overtaken by a later request.
    Discarded,
    /// The result was taken over.
    Settled,
}

/// Single background builder with latest-request-wins coalescing.
#[derive(Debug)]
pub struct ShadowBuildQueue<E> {
    desired: Option<PendingBuild>,
    building: Option<ActiveBuild>,
    ready: Option<EngineGeneration<E>>,
    last_failure: Option<String>,
    shutdown: bool,
    flags: BuildFlags,
}

/// The generation waiting to be built, the one being built, the one built, and why the last build
/// failed.
#[verifier::reject_recursive_types(S)]
#[verifier::reject_recursive_types(G)]
pub struct Builds<S, G> {
    pub desired: Option<(Seq<char>, S)>,
    /// The generation being built, and whether the build was asked to stop.
    pub building: Option<(Seq<char>, bool)>,
    pub ready: Option<Named<G>>,
    pub failure: Option<Seq<char>>,
    pub shutdown: bool,
}

impl<S, G> Builds<S, G> {
    /// The generation is waiting, being built or built. A build that was asked to stop gives no
    /// generation.
    pub open spec fn holds(self, id: Seq<char>) -> bool {
        ||| self.desired is Some && (self.desired->0).0 == id
        ||| self.building is Some && !(self.building->0).1 && (self.building->0).0 == id
        ||| self.ready is Some && (self.ready->0).id == id
    }

    /// The build that runs, asked to stop.
    pub open spec fn stopped(self) -> Option<(Seq<char>, bool)> {
        match self.building {
            Some((id, _)) => Some((id, true)),
            None => None,
        }
    }

    /// The state after a request for the generation `id`.
    pub open spec fn requested(self, id: Seq<char>, spec: S) -> Builds<S, G> {
        if self.holds(id) {
            self
        } else {
            Builds {
                desired: Some((id, spec)),
                building: self.stopped(),
                ready: None,
                failure: None,
                shutdown: self.shutdown,
            }
        }
    }

    /// The state after all pending work was cancelled.
    pub open spec fn cancelled(self) -> Builds<S, G> {
        Builds {
            desired: None,
            building: self.stopped(),
            ready: None,
            failure: None,
            shutdown: self.shutdown,
        }
    }

    /// The state after the worker took the waiting request.
    pub open spec fn begun(self) -> Builds<S, G> {
        match self.desired {
            Some((id, _)) => if self.shutdown {
                self
            } else {
                Builds { desired: None, building: Some((id, false)), ..self }
            },
            None => self,
        }
    }

    /// The running build is that of the generation `id`.
    pub open spec fn builds(self, id: Seq<char>) -> bool {
        self.building is Some && (self.building->0).0 == id
    }

    /// The end of the running build gives nothing: it was asked to stop, or something else waits.
    pub open spec fn overtaken(self) -> bool {
        (self.building is Some && (self.building->0).1) || self.desired is Some
    }

    /// The state after the build of the generation `id` ended with `result`. What does not run
    /// cannot end.
    pub open spec fn finished(self, id: Seq<char>, result: Result<G, Seq<char>>) -> Builds<S, G> {
        if self.shutdown || !self.builds(id) {
            self
        } else if self.overtaken() {
            Builds { building: None, ..self }
        } else {
            match result {
                Ok(value) => Builds {
                    building: None,
                    ready: Some(Named { id, value }),
                    failure: None,
                    ..self
                },
                Err(reason) => Builds {
                    building: None,
                    ready: None,
                    failure: Some(reason),
                    ..self
                },
            }
        }
    }

    /// What every operation keeps: while a build runs that was not asked to stop, nothing waits
    /// and nothing is ready; and a built generation is the answer to the latest request.
    pub open spec fn orderly(self) -> bool {
        &&& self.building is Some && !(self.building->0).1 ==> self.desired is None && self.ready
            is None
        &&& self.ready is Some ==> self.desired is None && self.building is None
        &&& self.failure is Some ==> self.desired is None && self.ready is None
        &&& self.shutdown ==> self.desired is None
    }

    /// Where the queue stands.
    pub open spec fn phase(self) -> BuildPhase {
        if self.ready is Some {
            BuildPhase::Ready
        } else if self.building is Some {
            BuildPhase::Building
        } else if self.desired is Some {
            BuildPhase::Queued
        } else if self.failure is Some {
            BuildPhase::Failed
        } else {
            BuildPhase::Idle
        }
    }
}

/// Whatever was asked for before and whatever runs, what was asked for last is what waits, or what
/// is being built and was not asked to stop, or what is ready; nothing else can become ready.
pub proof fn latest_request_is_held<S, G>(state: Builds<S, G>, id: Seq<char>, spec: S)
    requires
        state.orderly(),
    ensures
        ({
            let asked = state.requested(id, spec);
            &&& asked.holds(id)
            &&& forall|other: Seq<char>| #[trigger] asked.holds(other) ==> other == id
        }),
{
}

/// A second request overtakes the first: what waits is the second generation, and the first, if
/// its build has begun, ends without a result.
pub proof fn latest_request_wins<S, G>(
    state: Builds<S, G>,
    first: Seq<char>,
    first_spec: S,
    second: Seq<char>,
    second_spec: S,
    result: Result<G, Seq<char>>,
)
    requires
        state.orderly(),
        !state.shutdown,
        !state.holds(first),
        first != second,
    ensures
        ({
            let overtaken = state.requested(first, first_spec).begun().requested(
                second,
                second_spec,
            );
            &&& overtaken.desired == Some((second, second_spec))
            &&& overtaken.finished(first, result).desired == Some((second, second_spec))
            &&& overtaken.finished(first, result).ready is None
            &&& overtaken.finished(first, result).begun().building == Some((second, false))
        }),
{
}

/// The last of the requests first, second, first is what waits while the stopped build of the
/// first still runs, and it is built next; what the stopped build gives is not taken.
pub proof fn renewed_request_wins<S, G>(
    state: Builds<S, G>,
    first: Seq<char>,
    first_spec: S,
    second: Seq<char>,
    second_spec: S,
    result: Result<G, Seq<char>>,
    value: G,
)
    requires
        state.orderly(),
        !state.shutdown,
        !state.holds(first),
        first != second,
    ensures
        ({
            let renewed = state.requested(first, first_spec).begun().requested(
                second,
                second_spec,
            ).requested(first, first_spec);
            let next = renewed.finished(first, result).begun();
            &&& renewed.desired == Some((first, first_spec))
            &&& renewed.building == Some((first, true))
            &&& renewed.finished(first, result).ready is None
            &&& next.building == Some((first, false))
            &&& next.desired is None
            &&& next.finished(first, Ok(value)).ready == Some(Named { id: first, value })
        }),
{
}

/// A request for a generation whose build was cancelled and still runs is not lost: it waits, and
/// is built next.
pub proof fn request_after_cancelling_is_built<S, G>(
    state: Builds<S, G>,
    id: Seq<char>,
    spec: S,
    result: Result<G, Seq<char>>,
)
    requires
        !state.shutdown,
        state.builds(id),
    ensures
        ({
            let asked = state.cancelled().requested(id, spec);
            &&& asked.desired == Some((id, spec))
            &&& asked.finished(id, result).begun().building == Some((id, false))
        }),
{
}

/// A build that was cancelled leaves neither a generation nor a failure.
pub proof fn cancelled_build_leaves_nothing<S, G>(
    state: Builds<S, G>,
    id: Seq<char>,
    result: Result<G, Seq<char>>,
)
    requires
        !state.shutdown,
        state.builds(id),
    ensures
        state.cancelled().finished(id, result).phase() == BuildPhase::Idle,
{
}

/// A build that nothing disturbs gives its result to the one who asked for it.
pub proof fn undisturbed_build_is_delivered<S, G>(
    state: Builds<S, G>,
    id: Seq<char>,
    spec: S,
    value: G,
)
    requires
        !state.shutdown,
        state.building is None,
        !state.holds(id),
    ensures
        state.requested(id, spec).begun().finished(id, Ok(value)).ready == Some(
            Named { id, value },
        ),
{
}

/// Asking again for a generation that waits, is being built or is built changes nothing.
pub proof fn repeated_request_is_coalesced<S, G>(state: Builds<S, G>, id: Seq<char>, spec: S)
    requires
        !state.holds(id),
    ensures
        state.requested(id, spec).requested(id, spec) == state.requested(id, spec),
{
}

/// The orderliness of the queue is kept by every step.
pub proof fn queue_stays_orderly<S, G>(
    state: Builds<S, G>,
    id: Seq<char>,
    spec: S,
    result: Result<G, Seq<char>>,
)
    requires
        state.orderly(),
    ensures
        !state.shutdown ==> state.requested(id, spec).orderly(),
        state.cancelled().orderly(),
        (Builds { ready: None, ..state }).orderly(),
        (Builds { desired: None, building: state.stopped(), shutdown: true, ..state }).orderly(),
        state.building is None ==> state.begun().orderly(),
        state.finished(id, result).orderly(),
{
}

impl<E> ShadowBuildQueue<E> {
    /// The queue's state.
    pub closed spec fn state(self) -> Builds<EngineSpec, EngineGeneration<E>> {
        Builds {
            desired: match self.desired {
                Some(request) => Some((request.generation@, request.spec)),
                None => None,
            },
            building: match self.building {
                Some(build) => Some(
                    (build.generation@, build.cancellation.cancelled_in(self.flags)),
                ),
                None => None,
            },
            ready: match self.ready {
                Some(generation) => Some(generation.named()),
                None => None,
            },
            failure: match self.last_failure {
                Some(reason) => Some(reason@),
                None => None,
            },
            shutdown: self.shutdown,
        }
    }

    /// The flags of the builds that were begun.
    pub closed spec fn asked(self) -> BuildFlags {
        self.flags
    }

    /// The cancellation of the build that runs.
    pub closed spec fn running(self) -> Option<BuildCancellation> {
        match self.building {
            Some(build) => Some(build.cancellation),
            None => None,
        }
    }

    /// The build that runs was asked to stop where its cancellation says so.
    pub proof fn running_build_has_its_flag(&self)
        ensures
            match self.state().building {
                Some((_, stopped)) => self.running() matches Some(c) && stopped == c.cancelled_in(
                    self.asked(),
                ),
                None => self.running() is None,
            },
    {
    }

    /// The queue `after` is one in which the build that runs in this one was asked to stop, and no
    /// other.
    pub open spec fn stops(self, after: Self) -> bool {
        &&& after.running() == self.running()
        &&& match self.running() {
            Some(c) => raised(self.asked(), c, after.asked()),
            None => after.asked() == self.asked(),
        }
    }

    /// An idle queue.
    pub fn new() -> (r: Self)
        ensures
            r.state() == (Builds::<EngineSpec, EngineGeneration<E>> {
                desired: None,
                building: None,
                ready: None,
                failure: None,
                shutdown: false,
            }),
            r.state().orderly(),
            r.asked().given() == 0,
    {
        ShadowBuildQueue {
            desired: None,
            building: None,
            ready: None,
            last_failure: None,
            shutdown: false,
            flags: BuildFlags::new(),
        }
    }

    /// The flags of the builds that were begun.
    pub fn flags(&self) -> (r: &BuildFlags)
        ensures
            *r == self.asked(),
    {
        &self.flags
    }

    fn holds(&self, id: &str) -> (r: bool)
        ensures
            r == self.state().holds(id@),
    {
        let waiting = match &self.desired {
            Some(request) => same_text(request.generation.as_str(), id),
            None => false,
        };
        let running = match &self.building {
            Some(build) => !build.cancellation.is_cancelled(&self.flags) && same_text(
                build.generation.as_str(),
                id,
            ),
            None => false,
        };
        let built = match &self.ready {
            Some(generation) => same_text(generation.id(), id),
            None => false,
        };
        waiting || running || built
    }

    fn stop_building(&mut self)
        ensures
            old(self).stops(*final(self)),
            final(self).state() == (Builds { building: old(self).state().stopped(), ..old(
                self,
            ).state() }),
    {
        if let Some(build) = &self.building {
            let cancellation = build.cancellation;
            cancellation.cancel(&mut self.flags);
        }
    }

    /// Asks for the generation of `spec`, whose serialized form gives it its identifier. A request
    /// for another generation stops the build that runs.
    pub fn request<F>(&mut self, spec: EngineSpec, serialize: &F) -> (r: Result<
        BuildRequestOutcome,
        EngineSpecError,
    >) where F: Fn(&EngineSpec) -> Result<Vec<u8>, String>
        requires
            call_requires(*serialize, (&spec,)),
        ensures
            match r {
                Ok(BuildRequestOutcome::Queued { generation }) => {
                    &&& spec.valid()
                    &&& identifies(*serialize, spec, generation@)
                    &&& !old(self).state().holds(generation@)
                    &&& final(self).state() == old(self).state().requested(generation@, spec)
                    &&& old(self).stops(*final(self))
                },
                Ok(BuildRequestOutcome::Coalesced { generation }) => {
                    &&& spec.valid()
                    &&& identifies(*serialize, spec, generation@)
                    &&& old(self).state().holds(generation@)
                    &&& *final(self) == *old(self)
                },
                Err(e) => {
                    &&& digest_refused(*serialize, spec, e)
                    &&& *final(self) == *old(self)
                },
            },
    {
        match spec.generation_digest(serialize) {
            Err(e) => Err(e),
            Ok(generation) => {
                if self.holds(generation.as_str()) {
                    return Ok(BuildRequestOutcome::Coalesced { generation });
                }
                self.stop_building();
                self.desired = Some(PendingBuild { generation: generation.clone(), spec });
                self.ready = None;
                self.last_failure = None;
                Ok(BuildRequestOutcome::Queued { generation })
            },
        }
    }

    /// Takes the built generation.
    pub fn take_ready(&mut self) -> (r: Option<EngineGeneration<E>>)
        ensures
            match r {
                Some(generation) => old(self).state().ready == Some(generation.named()),
                None => old(self).state().ready is None,
            },
            final(self).state() == (Builds { ready: None, ..old(self).state() }),
            final(self).asked() == old(self).asked(),
            final(self).running() == old(self).running(),
    {
        self.ready.take()
    }

    /// Cancels any shadow work when the desired state returns to the active specification.
    pub fn cancel_pending(&mut self)
        ensures
            final(self).state() == old(self).state().cancelled(),
            old(self).stops(*final(self)),
    {
        self.stop_building();
        self.desired = None;
        self.ready = None;
        self.last_failure = None;
    }

    /// Shuts the queue down: nothing waits any more and the build that runs is asked to stop.
    pub fn shut_down(&mut self)
        ensures
            final(self).state() == (Builds {
                desired: None,
                building: old(self).state().stopped(),
                shutdown: true,
                ..old(self).state()
            }),
            old(self).stops(*final(self)),
    {
        self.stop_building();
        self.desired = None;
        self.shutdown = true;
    }

    /// Whether the queue is shut down.
    pub fn is_shut_down(&self) -> (r: bool)
        ensures
            r == self.state().shutdown,
    {
        self.shutdown
    }

    /// Takes the waiting request for the worker, which builds it next, with its cancellation.
    pub fn begin_build(&mut self) -> (r: Option<(PendingBuild, BuildCancellation)>)
        ensures
            final(self).state() == old(self).state().begun(),
            match r {
                Some((request, cancellation)) => {
                    &&& !old(self).state().shutdown
                    &&& old(self).state().desired == Some((request.id(), request.specification()))
                    &&& final(self).state().builds(request.id())
                    &&& added(old(self).asked(), cancellation, final(self).asked())
                    &&& final(self).running() == Some(cancellation)
                },
                None => {
                    &&& old(self).state().shutdown || old(self).state().desired is None
                    &&& *final(self) == *old(self)
                },
            },
    {
        if self.shutdown {
            return None;
        }
        let request: Option<PendingBuild> = self.desired.take();
        match request {
            Some(request) => {
                let cancellation = self.flags.fresh();
                self.building = Some(
                    ActiveBuild { generation: request.generation.clone(), cancellation },
                );
                Some((request, cancellation))
            },
            None => None,
        }
    }

    /// Whether the build that runs was asked to stop.
    pub fn build_cancelled(&self) -> (r: bool)
        ensures
            r == (self.state().building is Some && (self.state().building->0).1),
    {
        match &self.building {
            Some(build) => build.cancellation.is_cancelled(&self.flags),
            None => false,
        }
    }

    /// Takes over the result of the build of `request`, unless it was cancelled or overtaken. The
    /// generation that becomes ready is the one whose build has run.
    pub fn finish_build(&mut self, request: PendingBuild, built: Result<E, String>) -> (r: BuildEnd)
        ensures
            match built {
                Ok(engine) => exists|generation: EngineGeneration<E>|
                    {
                        &&& #[trigger] answers(generation, request, engine)
                        &&& final(self).state() == old(self).state().finished(
                            request.id(),
                            Ok(generation),
                        )
                    },
                Err(reason) => final(self).state() == old(self).state().finished(
                    request.id(),
                    Err(reason@),
                ),
            },
            final(self).asked() == old(self).asked(),
            r == BuildEnd::Settled && final(self).state().ready is Some ==> old(self).state().builds(
                (final(self).state().ready->0).id,
            ),
            r == if old(self).state().shutdown {
                BuildEnd::Stopped
            } else if !old(self).state().builds(request.id()) || old(self).state().overtaken() {
                BuildEnd::Discarded
            } else {
                BuildEnd::Settled
            },
    {
        let PendingBuild { generation, spec } = request;
        let runs = match &self.building {
            Some(build) => same_text(build.generation.as_str(), generation.as_str()),
            None => false,
        };
        let result: Result<EngineGeneration<E>, String> = match built {
            Ok(engine) => Ok(EngineGeneration::built(generation, spec, engine)),
            Err(reason) => Err(reason),
        };
        proof {
            if result is Ok {
                assert(answers(result->Ok_0, request, built->Ok_0));
            }
        }
        if self.shutdown {
            return BuildEnd::Stopped;
        }
        if !runs {
            return BuildEnd::Discarded;
        }
        let cancelled = self.build_cancelled();
        self.building = None;
        if cancelled || self.desired.is_some() {
            return BuildEnd::Discarded;
        }
        match result {
            Ok(generation) => {
                self.ready = Some(generation);
                self.last_failure = None;
            },
            Err(reason) => {
                self.ready = None;
                self.last_failure = Some(reason);
            },
        }
        BuildEnd::Settled
    }

    /// The state for display.
    pub fn snapshot(&self) -> (r: BuildSnapshot)
        ensures
            r.phase == self.state().phase(),
            text_view(r.queued_generation) == match self.state().desired {
                Some((id, _)) => Some(id),
                None => None,
            },
            text_view(r.building_generation) == match self.state().building {
                Some((id, _)) => Some(id),
                None => None,
            },
            text_view(r.ready_generation) == match self.state().ready {
                Some(generation) => Some(generation.id),
                None => None,
            },
            text_view(r.last_failure) == self.state().failure,
    {
        let phase = if self.ready.is_some() {
            BuildPhase::Ready
        } else if self.building.is_some() {
            BuildPhase::Building
        } else if self.desired.is_some() {
            BuildPhase::Queued
        } else if self.last_failure.is_some() {
            BuildPhase::Failed
        } else {
            BuildPhase::Idle
        };
        BuildSnapshot {
            phase,
            queued_generation: match &self.desired {
                Some(request) => Some(request.generation.clone()),
                None => None,
            },
            building_generation: match &self.building {
                Some(build) => Some(build.generation.clone()),
                None => None,
            },
            ready_generation: match &self.ready {
                Some(generation) => Some(generation.id().to_owned()),
                None => None,
            },
            last_failure: match &self.last_failure {
                Some(reason) => Some(reason.clone()),
                None => None,
            },
        }
    }

    /// Whether the queue has a result, so that nobody has to wait for one.
    pub fn is_settled(&self) -> (r: bool)
        ensures
            r == (self.state().phase() == BuildPhase::Ready || self.state().phase()
                == BuildPhase::Failed),
    {
        self.ready.is_some() || (self.building.is_none() && self.desired.is_none()
            && self.last_failure.is_some())
    }
}

/// The generation is the one that was asked for, with the backend that was built.
pub open spec fn answers<E>(
    generation: EngineGeneration<E>,
    request: PendingBuild,
    engine: E,
) -> bool {
    &&& generation.digest() == request.id()
    &&& generation.specification() == request.specification()
    &&& generation.backend() == engine
}

/// The characters of an optional text.
pub open spec fn text_view(text: Option<String>) -> Option<Seq<char>> {
    match text {
        Some(s) => Some(s@),
        None => None,
    }
}

} // verus!
