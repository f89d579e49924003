//! Responses that are generated in the background, and their cancellation.
//!
//! A queued response is stored and returned at once. Its job then makes one
//! generation and stores exactly one final status; a response that was cancelled
//! never becomes completed.

use vstd::prelude::*;

use crate::json::{
    clone_values,
    entry_keys,
    field,
    no_fields,
    place_of,
    text_field,
    values_view,
    Json,
    JsonObject,
    JsonView,
};
use crate::llm::{GenerationFailure, GenerationFailureView, LLMError, LLMErrorView, TokenUsage};
use crate::responses_conversations::extend_items;
use crate::responses_create::{
    continued,
    conversation_id,
    generated_turn,
    head_of,
    lemma_response_fields,
    named_conversation,
    turn_of,
    turn_output,
    GenerationPlan,
    PlanView,
};
use crate::responses_events::{items_ids, output_items};
use crate::responses_http::{
    error_json,
    failure,
    no_response,
    not_found,
    ok_json,
    success,
    Reply,
};
use crate::responses_retrieve::{found_view, store_unreadable};
use crate::responses_shape::{
    build_response_object,
    calls_output,
    empty_array,
    message_output,
    no_items,
    response_object,
    usage_json,
    usage_object,
    IdSource,
};
use crate::responses_store::{
    ConversationRecord,
    ConversationView,
    StoredResponse,
    StoredResponseView,
};
use crate::responses_tools::{ModelTurn, ToolEcho};
use crate::text::same_text;

verus! {

/// The cancellation flags of the jobs. Every registration has a flag of its own,
/// which its handle shows also after the job is finished or registered anew.
#[derive(Debug)]
pub struct CancelRegistry {
    jobs: Vec<(String, usize)>,
    flags: Vec<bool>,
}

/// The meaning of a [`CancelRegistry`].
#[verifier::ext_equal]
pub struct RegistryView {
    /// The handles of the jobs that are registered and not finished.
    pub jobs: Map<Seq<char>, int>,
    /// The flags by their handles.
    pub flags: Seq<bool>,
}

/// The registry without jobs.
pub open spec fn no_jobs() -> RegistryView {
    RegistryView { jobs: Map::empty(), flags: Seq::empty() }
}

impl RegistryView {
    /// The registry after a registration: the job has a new handle, whose flag is
    /// not set.
    pub open spec fn registered(self, id: Seq<char>) -> RegistryView {
        RegistryView {
            jobs: self.jobs.insert(id, self.flags.len() as int),
            flags: self.flags.push(false),
        }
    }

    /// The registry after a cancellation: the flag of the job's handle is set.
    pub open spec fn cancelled(self, id: Seq<char>) -> RegistryView {
        if self.jobs.contains_key(id) {
            RegistryView { jobs: self.jobs, flags: self.flags.update(self.jobs[id], true) }
        } else {
            self
        }
    }

    /// The registry after the end of a job.
    pub open spec fn finished(self, id: Seq<char>) -> RegistryView {
        RegistryView { jobs: self.jobs.remove(id), flags: self.flags }
    }
}

impl CancelRegistry {
    /// The jobs and the flags.
    pub closed spec fn view(&self) -> RegistryView {
        let keys = entry_keys(self.jobs@);
        RegistryView {
            jobs: Map::new(
                |id: Seq<char>| keys.contains(id),
                |id: Seq<char>| self.jobs@[place_of(keys, id)].1 as int,
            ),
            flags: self.flags@,
        }
    }

    #[verifier::type_invariant]
    closed spec fn one_handle_each(&self) -> bool {
        &&& entry_keys(self.jobs@).no_duplicates()
        &&& forall|i: int|
            0 <= i < self.jobs@.len() ==> (#[trigger] self.jobs@[i]).1 < self.flags@.len()
    }

    /// The registry without jobs.
    pub fn new() -> (registry: CancelRegistry)
        ensures
            registry@ == no_jobs(),
    {
        let registry = CancelRegistry { jobs: Vec::new(), flags: Vec::new() };
        assert(registry@ =~= no_jobs());
        registry
    }

    /// The place of a job.
    fn place(&self, id: &str) -> (place: Option<usize>)
        ensures
            match place {
                Some(at) => at < self.jobs@.len() && self.jobs@[at as int].0@ == id@
                    && self@.jobs.contains_key(id@) && self@.jobs[id@] == self.jobs@[at as int].1,
                None => !self@.jobs.contains_key(id@),
            },
    {
        proof {
            use_type_invariant(self);
        }
        let ghost keys = entry_keys(self.jobs@);
        let size: usize = self.jobs.len();
        for i in 0..size
            invariant
                size == self.jobs@.len(),
                keys == entry_keys(self.jobs@),
                keys.no_duplicates(),
                forall|j: int| 0 <= j < i ==> keys[j] != id@,
        {
            if same_text(self.jobs[i].0.as_str(), id) {
                assert(keys[i as int] == id@);
                assert(keys.contains(id@));
                assert(keys[place_of(keys, id@)] == id@);
                return Some(i);
            }
        }
        None
    }

    /// Registers a job and gives the handle of its flag, which is not set.
    pub fn register(self, id: &str) -> (registered: (CancelRegistry, usize))
        ensures
            registered.0@ == self@.registered(id@),
            registered.1 == self@.flags.len(),
    {
        let ghost whole = self@;
        let rest = self.finish(id);
        proof {
            use_type_invariant(&rest);
        }
        let ghost before = rest;
        let ghost keys = entry_keys(rest.jobs@);
        let mut jobs = rest.jobs;
        let mut flags = rest.flags;
        let handle: usize = flags.len();
        flags.push(false);
        jobs.push((id.to_owned(), handle));
        let ghost after = entry_keys(jobs@);
        assert(after =~= keys.push(id@));
        assert(!keys.contains(id@)) by {
            assert(!before@.jobs.contains_key(id@));
        }
        assert(after.no_duplicates());
        let registry = CancelRegistry { jobs, flags };
        proof {
            let goal = before@.jobs.insert(id@, handle as int);
            assert forall|k: Seq<char>| registry@.jobs.contains_key(k) <==> goal.contains_key(
                k,
            ) by {
                if keys.contains(k) {
                    assert(after[keys.index_of(k)] == k);
                }
                if after.contains(k) && k != id@ {
                    assert(keys[after.index_of(k)] == k);
                }
                assert(after[keys.len() as int] == id@);
            }
            assert forall|k: Seq<char>| registry@.jobs.contains_key(k) implies registry@.jobs[k]
                == goal[k] by {
                let i = place_of(after, k);
                assert(after[after.index_of(k)] == k);
                assert(after[i] == k);
                if k != id@ {
                    assert(keys[i] == k);
                    assert(keys.contains(k));
                    assert(keys[place_of(keys, k)] == k);
                }
            }
            assert(registry@.jobs =~= goal);
            assert(registry@.jobs =~= whole.registered(id@).jobs);
        }
        (registry, handle)
    }

    /// Sets the flag of a job. False when no such job is registered.
    pub fn cancel(self, id: &str) -> (cancelled: (CancelRegistry, bool))
        ensures
            cancelled.1 == self@.jobs.contains_key(id@),
            cancelled.0@ == self@.cancelled(id@),
    {
        proof {
            use_type_invariant(&self);
        }
        let ghost before = self@;
        match self.place(id) {
            None => (self, false),
            Some(at) => {
                let handle: usize = self.jobs[at].1;
                let jobs = self.jobs;
                let mut flags = self.flags;
                flags[handle] = true;
                let registry = CancelRegistry { jobs, flags };
                assert(registry@ =~= before.cancelled(id@));
                (registry, true)
            },
        }
    }

    /// True when the flag of a handle is set.
    pub fn is_cancelled(&self, handle: usize) -> (cancelled: bool)
        ensures
            cancelled == (handle < self@.flags.len() && self@.flags[handle as int]),
    {
        handle < self.flags.len() && self.flags[handle]
    }

    /// Drops a finished job. Its flag stays as it is.
    pub fn finish(self, id: &str) -> (registry: CancelRegistry)
        ensures
            registry@ == self@.finished(id@),
    {
        let ghost before = self;
        proof {
            use_type_invariant(&self);
        }
        match self.place(id) {
            None => {
                assert(self@.jobs.remove(id@) =~= self@.jobs);
                self
            },
            Some(at) => {
                let ghost keys = entry_keys(self.jobs@);
                let mut jobs = self.jobs;
                let flags = self.flags;
                jobs.remove(at);
                let ghost after = entry_keys(jobs@);
                assert(after =~= keys.remove(at as int));
                assert forall|i: int, j: int|
                    0 <= i < after.len() && 0 <= j < after.len() && i != j implies after[i]
                    != after[j] by {
                    let a = if i >= at {
                        i + 1
                    } else {
                        i
                    };
                    let b = if j >= at {
                        j + 1
                    } else {
                        j
                    };
                    assert(keys[a] != keys[b]);
                }
                assert forall|i: int| 0 <= i < jobs@.len() implies (#[trigger] jobs@[i]).1
                    < flags@.len() by {
                    assert(jobs@[i] == before.jobs@[if i >= at { i + 1 } else { i }]);
                }
                let registry = CancelRegistry { jobs, flags };
                proof {
                    let goal = before@.jobs.remove(id@);
                    assert forall|k: Seq<char>| registry@.jobs.contains_key(k)
                        <==> goal.contains_key(k) by {
                        if after.contains(k) {
                            let i = after.index_of(k);
                            let from = if i >= at {
                                i + 1
                            } else {
                                i
                            };
                            assert(keys[from] == k);
                            assert(keys[at as int] == id@);
                            assert(from != at);
                        }
                        if keys.contains(k) && k != id@ {
                            let i = keys.index_of(k);
                            let to = if i >= at {
                                i - 1
                            } else {
                                i
                            };
                            assert(after[to] == k);
                        }
                    }
                    assert forall|k: Seq<char>| registry@.jobs.contains_key(
                        k,
                    ) implies registry@.jobs[k] == goal[k] by {
                        assert(after[after.index_of(k)] == k);
                        let i = place_of(after, k);
                        assert(after[i] == k);
                        let from = if i >= at {
                            i + 1
                        } else {
                            i
                        };
                        assert(keys[from] == k);
                        assert(keys.contains(k));
                        let old_place = place_of(keys, k);
                        assert(keys[old_place] == k);
                        assert(old_place == from);
                        assert(registry.jobs@[i] == before.jobs@[from]);
                        assert(keys[at as int] == id@ && from != at);
                    }
                    assert(registry@.jobs =~= goal);
                }
                registry
            },
        }
    }
}

/// A call on the registry.
pub enum RegistryCall {
    Register(Seq<char>),
    Cancel(Seq<char>),
    Finish(Seq<char>),
}

/// The registry after a call.
pub open spec fn after_call(registry: RegistryView, call: RegistryCall) -> RegistryView {
    match call {
        RegistryCall::Register(id) => registry.registered(id),
        RegistryCall::Cancel(id) => registry.cancelled(id),
        RegistryCall::Finish(id) => registry.finished(id),
    }
}

/// The registry after a history of calls on the one without jobs.
pub open spec fn after_calls(calls: Seq<RegistryCall>) -> RegistryView
    decreases calls.len(),
{
    if calls.len() == 0 {
        no_jobs()
    } else {
        after_call(after_calls(calls.drop_last()), calls.last())
    }
}

/// The handle that a registration at a place of a history gave: how many
/// registrations came before it.
pub open spec fn handle_of(calls: Seq<RegistryCall>, at: int) -> int {
    after_calls(calls.take(at)).flags.len() as int
}

/// The call at a place is the last registration of the identifier, and no end of
/// the job came after it.
pub open spec fn runs_since(calls: Seq<RegistryCall>, id: Seq<char>, at: int) -> bool {
    &&& 0 <= at < calls.len()
    &&& calls[at] == RegistryCall::Register(id)
    &&& forall|j: int|
        at < j < calls.len() ==> #[trigger] calls[j] != RegistryCall::Register(id) && calls[j]
            != RegistryCall::Finish(id)
}

/// A cancellation that reached the registration at a place: it came after it, and
/// no registration or end of the same job came between.
pub open spec fn reached(calls: Seq<RegistryCall>, id: Seq<char>, at: int) -> bool {
    exists|j: int|
        at < j < calls.len() && calls[j] == RegistryCall::Cancel(id) && runs_since(
            #[trigger] calls.take(j),
            id,
            at,
        )
}

/// Every job has a handle with a flag, and a call takes no flag away.
proof fn lemma_flags_grow(calls: Seq<RegistryCall>)
    ensures
        forall|id: Seq<char>| #[trigger]
            after_calls(calls).jobs.contains_key(id) ==> 0 <= after_calls(calls).jobs[id]
                < after_calls(calls).flags.len(),
        calls.len() > 0 ==> after_calls(calls.drop_last()).flags.len() <= after_calls(
            calls,
        ).flags.len(),
    decreases calls.len(),
{
    if calls.len() > 0 {
        let front = after_calls(calls.drop_last());
        lemma_flags_grow(calls.drop_last());
        assert forall|id: Seq<char>| #[trigger]
            after_calls(calls).jobs.contains_key(id) implies 0 <= after_calls(calls).jobs[id]
            < after_calls(calls).flags.len() by {
            if let RegistryCall::Cancel(other) = calls.last() {
                assert(front.jobs.contains_key(other) ==> 0 <= front.jobs[other]
                    < front.flags.len());
            }
            assert(calls.last() != RegistryCall::Register(id) ==> front.jobs.contains_key(id));
        }
        if let RegistryCall::Cancel(other) = calls.last() {
            assert(front.jobs.contains_key(other) ==> 0 <= front.jobs[other] < front.flags.len());
        }
    }
}

proof fn lemma_running(calls: Seq<RegistryCall>, id: Seq<char>)
    ensures
        after_calls(calls).jobs.contains_key(id) <==> exists|at: int| runs_since(calls, id, at),
        forall|at: int| #[trigger]
            runs_since(calls, id, at) ==> after_calls(calls).jobs[id] == handle_of(calls, at) && 0
                <= handle_of(calls, at) < after_calls(calls).flags.len(),
    decreases calls.len(),
{
    if calls.len() > 0 {
        let front = calls.drop_last();
        let last = calls.len() - 1;
        lemma_running(front, id);
        lemma_flags_grow(calls);
        assert forall|at: int| 0 <= at < last implies #[trigger] calls.take(at) == front.take(
            at,
        ) by {
            assert(calls.take(at) =~= front.take(at));
        }
        assert(calls.take(last) =~= front);
        if calls.last() == RegistryCall::Register(id) {
            assert(runs_since(calls, id, last));
            assert forall|at: int| #[trigger] runs_since(calls, id, at) implies at == last by {
                if at < last {
                    assert(calls[last] != RegistryCall::Register(id));
                }
            }
        } else if calls.last() == RegistryCall::Finish(id) {
            assert forall|at: int| !#[trigger] runs_since(calls, id, at) by {
                if runs_since(calls, id, at) && at < last {
                    assert(calls[last] != RegistryCall::Finish(id));
                }
            }
        } else {
            assert forall|at: int| #[trigger] runs_since(calls, id, at) implies runs_since(
                front,
                id,
                at,
            ) by {
                assert(front[at] == calls[at]);
                assert forall|j: int| at < j < front.len() implies #[trigger] front[j]
                    != RegistryCall::Register(id) && front[j] != RegistryCall::Finish(id) by {
                    assert(front[j] == calls[j]);
                }
            }
            assert forall|at: int| #[trigger] runs_since(front, id, at) implies runs_since(
                calls,
                id,
                at,
            ) by {
                assert forall|j: int| at < j < calls.len() implies #[trigger] calls[j]
                    != RegistryCall::Register(id) && calls[j] != RegistryCall::Finish(id) by {
                    if j < last {
                        assert(front[j] == calls[j]);
                    }
                }
            }
            assert(after_calls(calls).jobs.contains_key(id) == after_calls(front).jobs.contains_key(
                id,
            ));
        }
    }
}

/// Whatever was called before, a cancellation succeeds exactly when the identifier
/// was registered and not finished since. It then sets the flag of the last
/// registration of that identifier, and every other flag, of another identifier or
/// of an earlier registration, stays as it was.
pub proof fn law_cancel_reaches_the_last_registration(calls: Seq<RegistryCall>, id: Seq<char>)
    ensures
        ({
            let before = after_calls(calls);
            let after = after_calls(calls.push(RegistryCall::Cancel(id)));
            &&& before.jobs.contains_key(id) <==> exists|at: int| runs_since(calls, id, at)
            &&& !before.jobs.contains_key(id) ==> after == before
            &&& after.jobs == before.jobs
            &&& after.flags.len() == before.flags.len()
            &&& forall|at: int| #[trigger]
                runs_since(calls, id, at) ==> {
                    &&& 0 <= handle_of(calls, at) < after.flags.len()
                    &&& after.flags[handle_of(calls, at)]
                    &&& forall|other: int|
                        0 <= other < after.flags.len() && other != handle_of(calls, at)
                            ==> #[trigger] after.flags[other] == before.flags[other]
                }
        }),
{
    assert(calls.push(RegistryCall::Cancel(id)).drop_last() =~= calls);
    lemma_running(calls, id);
}

proof fn lemma_handles_grow(calls: Seq<RegistryCall>, at: int)
    requires
        0 <= at < calls.len(),
        calls[at] is Register,
    ensures
        0 <= handle_of(calls, at) < after_calls(calls).flags.len(),
    decreases calls.len(),
{
    let last = calls.len() - 1;
    let front = calls.drop_last();
    assert(calls.take(last) =~= front);
    lemma_flags_grow(calls);
    if at < last {
        assert(calls.take(at) =~= front.take(at));
        lemma_handles_grow(front, at);
    }
}

/// Two registrations have two handles.
proof fn lemma_handles_differ(calls: Seq<RegistryCall>, first: int, second: int)
    requires
        0 <= first < second < calls.len(),
        calls[first] is Register,
        calls[second] is Register,
    ensures
        handle_of(calls, first) < handle_of(calls, second),
{
    let before = calls.take(second);
    assert(before.take(first) =~= calls.take(first));
    lemma_handles_grow(before, first);
}

/// The handle of a registration shows, at any later time, whether a cancellation
/// reached it: one of its identifier, after it, and before that identifier was
/// registered again or finished.
pub proof fn law_handle_shows_its_cancellation(calls: Seq<RegistryCall>, id: Seq<char>, at: int)
    requires
        0 <= at < calls.len(),
        calls[at] == RegistryCall::Register(id),
    ensures
        0 <= handle_of(calls, at) < after_calls(calls).flags.len(),
        after_calls(calls).flags[handle_of(calls, at)] <==> reached(calls, id, at),
    decreases calls.len(),
{
    let last = calls.len() - 1;
    let front = calls.drop_last();
    assert(calls.take(last) =~= front);
    lemma_handles_grow(calls, at);
    if at == last {
        assert(!reached(calls, id, at));
    } else {
        assert(calls.take(at) =~= front.take(at));
        law_handle_shows_its_cancellation(front, id, at);
        assert forall|j: int| 0 <= j < last implies #[trigger] calls.take(j) == front.take(j) by {
            assert(calls.take(j) =~= front.take(j));
        }
        let handle = handle_of(calls, at);
        if reached(front, id, at) {
            let j = choose|j: int|
                at < j < front.len() && front[j] == RegistryCall::Cancel(id) && runs_since(
                    #[trigger] front.take(j),
                    id,
                    at,
                );
            assert(calls[j] == RegistryCall::Cancel(id) && runs_since(calls.take(j), id, at));
        }
        if reached(calls, id, at) {
            let j = choose|j: int|
                at < j < calls.len() && calls[j] == RegistryCall::Cancel(id) && runs_since(
                    #[trigger] calls.take(j),
                    id,
                    at,
                );
            if j < last {
                assert(front[j] == RegistryCall::Cancel(id) && runs_since(front.take(j), id, at));
            }
        }
        match calls.last() {
            RegistryCall::Cancel(other) => {
                lemma_running(front, other);
                if after_calls(front).jobs.contains_key(other) {
                    let place = choose|place: int| runs_since(front, other, place);
                    assert(runs_since(front, other, place));
                    if place != at {
                        if place < at {
                            lemma_handles_differ(front, place, at);
                        } else {
                            lemma_handles_differ(front, at, place);
                        }
                        assert(handle_of(front, place) != handle_of(front, at));
                        assert(other == id ==> !runs_since(front, id, at)) by {
                            if other == id && runs_since(front, id, at) {
                                lemma_running(front, id);
                            }
                        }
                    } else {
                        assert(other == id);
                        assert(runs_since(calls.take(last), id, at));
                    }
                } else if other == id {
                    assert(!runs_since(front, id, at));
                }
            },
            _ => {},
        }
    }
}

/// One generation in the background.
#[derive(Debug)]
pub struct BackgroundJob {
    pub id: String,
    pub created_at: u64,
    pub plan: GenerationPlan,
}

/// The meaning of a [`BackgroundJob`].
pub struct JobView {
    pub id: Seq<char>,
    pub created_at: u64,
    pub plan: PlanView,
}

impl View for BackgroundJob {
    type V = JobView;

    open spec fn view(&self) -> JobView {
        JobView { id: self.id@, created_at: self.created_at, plan: self.plan@ }
    }
}

/// The response object of a job that has no output.
pub open spec fn bare_object(job: JobView, status: Seq<char>) -> JsonView {
    response_object(head_of(job.plan, job.id, job.created_at), status, no_items(), JsonView::Null)
}

/// The response object of a job that is completed.
pub open spec fn completed_object(
    job: JobView,
    output: Seq<JsonView>,
    usage: TokenUsage,
) -> JsonView {
    response_object(
        head_of(job.plan, job.id, job.created_at),
        "completed"@,
        JsonView::Array(output),
        usage_object(usage),
    )
}

/// The record of a response object of a job.
pub open spec fn job_record(job: JobView, response: JsonView) -> StoredResponseView {
    StoredResponseView { response, input_items: job.plan.input_items }
}

fn object_for(job: &BackgroundJob, status: &str, output: Json, usage: Json) -> (object: Json)
    ensures
        object@ == response_object(
            head_of(job@.plan, job@.id, job@.created_at),
            status@,
            output@,
            usage@,
        ),
{
    let conversation_id = match &job.plan.conversation {
        Some((id, _)) => Some(id.as_str()),
        None => None,
    };
    build_response_object(
        job.id.as_str(),
        job.created_at,
        status,
        job.plan.model.as_str(),
        job.plan.metadata.as_ref(),
        conversation_id,
        &ToolEcho::from_request(&job.plan.tools),
        &job.plan.controls,
        output,
        usage,
    )
}

/// The job of a plan and the record of its queued response, which is to be stored
/// and returned before the job starts.
pub fn queue_response(ids: &mut IdSource, now: u64, plan: GenerationPlan) -> (queued: (
    BackgroundJob,
    StoredResponse,
))
    ensures
        queued.0@ == (JobView { id: old(ids).id("resp_"@, 0), created_at: now, plan: plan@ }),
        queued.1@ == job_record(queued.0@, bare_object(queued.0@, "queued"@)),
        *final(ids) == old(ids).after(1),
{
    let job = BackgroundJob { id: ids.new_id("resp_"), created_at: now, plan };
    let response = object_for(&job, "queued", empty_array(), Json::Null);
    let record = StoredResponse { response, input_items: clone_values(&job.plan.input_items) };
    (job, record)
}

/// What became of the generation of a job.
pub enum JobOutcome {
    /// The text and the token counts.
    Generated(String, TokenUsage),
    Failed(GenerationFailure),
}

/// The meaning of a [`JobOutcome`].
pub enum JobOutcomeView {
    Generated(Seq<char>, TokenUsage),
    Failed(GenerationFailureView),
}

impl View for JobOutcome {
    type V = JobOutcomeView;

    open spec fn view(&self) -> JobOutcomeView {
        match self {
            JobOutcome::Generated(text, usage) => JobOutcomeView::Generated(text@, *usage),
            JobOutcome::Failed(failure) => JobOutcomeView::Failed(failure@),
        }
    }
}

/// The final response object of a job.
pub open spec fn final_object(
    job: JobView,
    ids: IdSource,
    outcome: JobOutcomeView,
    cancelled: bool,
) -> JsonView {
    match outcome {
        JobOutcomeView::Generated(text, usage) => if cancelled {
            bare_object(job, "cancelled"@)
        } else {
            match turn_of(job.plan.tools, job.plan.json_required, text) {
                Ok(turn) => completed_object(job, output_items(ids, turn_output(turn)), usage),
                Err(_) => bare_object(job, "failed"@),
            }
        },
        JobOutcomeView::Failed(failure) => if failure.cause matches Some(LLMErrorView::Cancelled) {
            bare_object(job, "cancelled"@)
        } else {
            bare_object(job, "failed"@)
        },
    }
}

/// The source of the identifiers after the end of a job. Only a completed response
/// takes some.
pub open spec fn final_ids(
    job: JobView,
    ids: IdSource,
    outcome: JobOutcomeView,
    cancelled: bool,
) -> IdSource {
    match outcome {
        JobOutcomeView::Generated(text, _) => match turn_of(
            job.plan.tools,
            job.plan.json_required,
            text,
        ) {
            Ok(turn) => if cancelled {
                ids
            } else {
                ids.after(items_ids(turn_output(turn)))
            },
            Err(_) => ids,
        },
        JobOutcomeView::Failed(_) => ids,
    }
}

/// The conversation of a job with what its response put out. Only a completed
/// response adds to it.
pub open spec fn final_conversation(
    job: JobView,
    ids: IdSource,
    outcome: JobOutcomeView,
    cancelled: bool,
) -> Option<(Seq<char>, ConversationView)> {
    match outcome {
        JobOutcomeView::Generated(text, usage) => match (
            turn_of(job.plan.tools, job.plan.json_required, text),
            job.plan.conversation,
        ) {
            (Ok(turn), Some((id, conversation))) => if cancelled {
                None
            } else {
                Some(
                    (
                        id,
                        continued(
                            conversation,
                            job.plan.input_items,
                            output_items(ids, turn_output(turn)),
                        ),
                    ),
                )
            },
            _ => None,
        },
        JobOutcomeView::Failed(_) => None,
    }
}

/// What a finished job stores: its final record and, where it completed, its
/// conversation.
#[derive(Debug)]
pub struct FinishedJob {
    pub record: StoredResponse,
    pub conversation: Option<(String, ConversationRecord)>,
}

impl BackgroundJob {
    /// The record of the response while it is generated.
    pub fn in_progress(&self) -> (record: StoredResponse)
        ensures
            record@ == job_record(self@, bare_object(self@, "in_progress"@)),
    {
        StoredResponse {
            response: object_for(self, "in_progress", empty_array(), Json::Null),
            input_items: clone_values(&self.plan.input_items),
        }
    }

    /// Ends the job: what came of its one generation, and whether it was cancelled
    /// meanwhile, decide the final status.
    pub fn run(self, ids: &mut IdSource, outcome: JobOutcome, cancelled: bool) -> (finished:
        FinishedJob)
        requires
            outcome matches JobOutcome::Generated(_, usage) ==> usage.fits(),
        ensures
            finished.record@ == job_record(
                self@,
                final_object(self@, *old(ids), outcome@, cancelled),
            ),
            named_conversation(finished.conversation) == final_conversation(
                self@,
                *old(ids),
                outcome@,
                cancelled,
            ),
            *final(ids) == final_ids(self@, *old(ids), outcome@, cancelled),
    {
        let ghost start = *ids;
        let ghost job = self@;
        let (text, usage) = match outcome {
            JobOutcome::Failed(failure) => {
                let status = match failure.cause {
                    Some(LLMError::Cancelled) => "cancelled",
                    _ => "failed",
                };
                return FinishedJob {
                    record: StoredResponse {
                        response: object_for(&self, status, empty_array(), Json::Null),
                        input_items: self.plan.input_items,
                    },
                    conversation: None,
                };
            },
            JobOutcome::Generated(text, usage) => (text, usage),
        };
        if cancelled {
            return FinishedJob {
                record: StoredResponse {
                    response: object_for(&self, "cancelled", empty_array(), Json::Null),
                    input_items: self.plan.input_items,
                },
                conversation: None,
            };
        }
        let turn = match generated_turn(&self.plan.tools, self.plan.json_required, text.as_str()) {
            Ok(turn) => turn,
            Err(_) => {
                return FinishedJob {
                    record: StoredResponse {
                        response: object_for(&self, "failed", empty_array(), Json::Null),
                        input_items: self.plan.input_items,
                    },
                    conversation: None,
                };
            },
        };
        let output = match &turn {
            ModelTurn::Message(text) => message_output(ids, text.as_str()),
            ModelTurn::Calls(calls) => calls_output(ids, calls),
        };
        let ghost items = output_items(start, turn_output(turn@));
        assert(output@ == JsonView::Array(items));
        let response = object_for(&self, "completed", output, usage_json(&usage));
        proof {
            lemma_response_fields(
                head_of(job.plan, job.id, job.created_at),
                "completed"@,
                items,
                usage_object(usage),
            );
        }
        let conversation = match self.plan.conversation {
            Some((id, conversation)) => {
                let mut record = conversation;
                extend_items(&mut record.items, &self.plan.input_items);
                if let Some(Json::Array(output)) = response.get("output") {
                    proof {
                        let list = Json::Array(*output);
                        assert(list@->Array_0 =~= values_view(output@));
                    }
                    extend_items(&mut record.items, output);
                }
                Some((id, record))
            },
            None => None,
        };
        FinishedJob {
            record: StoredResponse { response, input_items: self.plan.input_items },
            conversation,
        }
    }
}

/// A status that does not change any more.
pub open spec fn is_final(status: Seq<char>) -> bool {
    status == "completed"@ || status == "failed"@ || status == "cancelled"@ || status
        == "incomplete"@
}

/// The status of a response object, or the empty text.
pub open spec fn status_of(response: JsonView) -> Seq<char> {
    match text_field(response, "status"@) {
        Some(status) => status,
        None => Seq::empty(),
    }
}

/// The fields of an object; `null` has none.
pub open spec fn fields_or_none(response: JsonView) -> Map<Seq<char>, JsonView> {
    match response {
        JsonView::Object(fields) => fields,
        _ => no_fields(),
    }
}

/// The response object after a cancellation.
pub open spec fn cancelled_object(response: JsonView) -> JsonView {
    JsonView::Object(
        fields_or_none(response).insert("status"@, JsonView::Str("cancelled"@)).insert(
            "output"@,
            no_items(),
        ).insert("usage"@, JsonView::Null),
    )
}

/// What a cancellation comes to.
#[derive(Debug)]
pub enum Cancellation {
    /// Nothing changes: the reply.
    Answer(Reply),
    /// The job's flag is to be set and the record to be stored; then the reply.
    Cancel(StoredResponse, Reply),
}

/// The record of a response that was cancelled.
pub open spec fn cancelled_record(record: StoredResponseView) -> StoredResponseView {
    StoredResponseView {
        response: cancelled_object(record.response),
        input_items: record.input_items,
    }
}

/// Cancels a response. A final one is returned as it is, so cancelling again
/// changes nothing.
pub fn cancel_response(id: &str, found: Result<Option<StoredResponse>, String>) -> (decided:
    Cancellation)
    requires
        found_view(found) matches Ok(Some(record)) ==> record.response is Object
            || record.response is Null,
    ensures
        match found_view(found) {
            Ok(Some(record)) => if is_final(status_of(record.response)) {
                &&& decided matches Cancellation::Answer(reply)
                &&& reply@ == success(record.response)
            } else {
                &&& decided matches Cancellation::Cancel(stored, reply)
                &&& stored@ == (StoredResponseView {
                    response: cancelled_object(record.response),
                    input_items: record.input_items,
                })
                &&& reply@ == success(cancelled_object(record.response))
            },
            Ok(None) => {
                &&& decided matches Cancellation::Answer(reply)
                &&& reply@ == failure(404, no_response(id@))
            },
            Err(error) => {
                &&& decided matches Cancellation::Answer(reply)
                &&& reply@ == failure(500, store_unreadable(error))
            },
        },
        decided matches Cancellation::Cancel(stored, reply) ==> stored@ == cancelled_record(
            found_view(found)->Ok_0->0,
        ) && reply@ == success(stored@.response),
{
    let record = match found {
        Ok(Some(record)) => record,
        Ok(None) => {
            return Cancellation::Answer(not_found(id));
        },
        Err(error) => {
            return Cancellation::Answer(
                error_json(
                    500,
                    "failed to read the response store: ".to_owned().concat(error.as_str()),
                ),
            );
        },
    };
    proof {
        reveal_strlit("completed");
        reveal_strlit("failed");
        reveal_strlit("cancelled");
        reveal_strlit("incomplete");
        assert("completed"@.len() == 9 && "failed"@.len() == 6 && "cancelled"@.len() == 9
            && "incomplete"@.len() == 10);
    }
    if let Some(status) = record.response.get_str("status") {
        if same_text(status, "completed") || same_text(status, "failed") || same_text(
            status,
            "cancelled",
        ) || same_text(status, "incomplete") {
            return Cancellation::Answer(ok_json(record.response));
        }
    }
    let fields = match record.response {
        Json::Object(fields) => fields,
        _ => JsonObject::new(),
    };
    let object = Json::Object(
        fields.with("status", Json::text("cancelled")).with("output", empty_array()).with(
            "usage",
            Json::Null,
        ),
    );
    let reply = ok_json(object.clone());
    Cancellation::Cancel(
        StoredResponse { response: object, input_items: record.input_items },
        reply,
    )
}

proof fn lemma_statuses()
    ensures
        "completed"@ != "cancelled"@,
        "completed"@ != "failed"@,
        "output"@ != "status"@,
        "usage"@ != "status"@,
{
    reveal_strlit("completed");
    reveal_strlit("cancelled");
    reveal_strlit("failed");
    reveal_strlit("output");
    reveal_strlit("status");
    reveal_strlit("usage");
    assert("completed"@[1] == 'o' && "cancelled"@[1] == 'a');
    assert("completed"@.len() == 9 && "failed"@.len() == 6);
    assert("output"@[0] == 'o' && "status"@[0] == 's');
    assert("usage"@.len() == 5 && "status"@.len() == 6);
}

/// A job always ends in one final status, and one that was cancelled never ends
/// as completed, nor adds to its conversation.
pub proof fn law_job_ends_in_one_final_status(
    job: JobView,
    ids: IdSource,
    outcome: JobOutcomeView,
    cancelled: bool,
)
    ensures
        is_final(status_of(final_object(job, ids, outcome, cancelled))),
        cancelled ==> status_of(final_object(job, ids, outcome, cancelled)) != "completed"@,
        cancelled ==> final_conversation(job, ids, outcome, cancelled) is None,
{
    lemma_statuses();
    let head = head_of(job.plan, job.id, job.created_at);
    lemma_response_fields(head, "cancelled"@, Seq::empty(), JsonView::Null);
    lemma_response_fields(head, "failed"@, Seq::empty(), JsonView::Null);
    if let JobOutcomeView::Generated(text, usage) = outcome {
        if let Ok(turn) = turn_of(job.plan.tools, job.plan.json_required, text) {
            lemma_response_fields(
                head,
                "completed"@,
                output_items(ids, turn_output(turn)),
                usage_object(usage),
            );
        }
    }
}

/// The final status of a job says what happened: it is completed exactly when the
/// generation gave a text that is a turn and nobody cancelled.
pub proof fn law_completed_means_generated(
    job: JobView,
    ids: IdSource,
    outcome: JobOutcomeView,
    cancelled: bool,
)
    ensures
        status_of(final_object(job, ids, outcome, cancelled)) == "completed"@ <==> (!cancelled
            && outcome is Generated && turn_of(
            job.plan.tools,
            job.plan.json_required,
            outcome->Generated_0,
        ) is Ok),
{
    lemma_statuses();
    let head = head_of(job.plan, job.id, job.created_at);
    lemma_response_fields(head, "cancelled"@, Seq::empty(), JsonView::Null);
    lemma_response_fields(head, "failed"@, Seq::empty(), JsonView::Null);
    if let JobOutcomeView::Generated(text, usage) = outcome {
        if let Ok(turn) = turn_of(job.plan.tools, job.plan.json_required, text) {
            lemma_response_fields(
                head,
                "completed"@,
                output_items(ids, turn_output(turn)),
                usage_object(usage),
            );
        }
    }
}

/// A cancelled response is final, so cancelling it again gives the same answer and
/// writes nothing.
pub proof fn law_cancelling_is_idempotent(response: JsonView)
    ensures
        is_final(status_of(cancelled_object(response))),
        status_of(cancelled_object(response)) == "cancelled"@,
{
    lemma_statuses();
}

/// The record of a cancelled response shows that it was cancelled, with nothing put
/// out, and keeps the items that the response answered.
pub proof fn law_cancelled_record_keeps_its_items(record: StoredResponseView)
    ensures
        cancelled_record(record).input_items == record.input_items,
        text_field(cancelled_record(record).response, "status"@) == Some("cancelled"@),
        field(cancelled_record(record).response, "output"@) == Some(JsonView::Array(Seq::empty())),
        is_final(status_of(cancelled_record(record).response)),
{
    reveal_strlit("status");
    reveal_strlit("output");
    reveal_strlit("usage");
    assert("status"@.len() == 6 && "output"@.len() == 6 && "usage"@.len() == 5);
    assert("status"@[0] == 's' && "output"@[0] == 'o');
}

} // verus!
