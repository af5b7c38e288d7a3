//! The course of one tool call, as a state machine.
//!
//! The machine decides; it does not act. Each step takes what the last
//! action brought and says what is to be done next: look into a cache, join
//! the calls in flight, wait for a leader, dispatch, store, publish, or
//! return. Whoever drives the machine performs the action and reports back.

use vstd::prelude::*;
use crate::abort::{aborted, aborted_response};
use crate::cache_key::{cache_key, tool_call_cache_key};
use crate::call::{ToolCall, ToolCallView};
use crate::error::{outcome_view, FunctionCallError, FunctionCallErrorView};
use crate::policy::{
    session_cacheable, tool_supports_session_cache, tool_supports_turn_cache, turn_cacheable,
};
use crate::settings::ToolCacheSettings;
use crate::response::{
    cache_eligible, remap_response_call_id, should_cache_tool_response, with_call_id,
    ResponseInputItem, ResponseInputItemView,
};

verus! {

/// What is settled about a call before it takes its first step.
pub struct CallPlan {
    /// The key under which the call's result is cached and shared.
    pub cache_key: String,
    /// Whether the tool may run beside other tools.
    pub parallel: bool,
    /// Whether the turn tier, and with it single flight, applies.
    pub turn_cache: bool,
    /// Whether the session tier applies: the tool qualifies and the tier is
    /// in use.
    pub session_cache: bool,
    pub settings: ToolCacheSettings,
}

pub struct CallPlanView {
    pub cache_key: Seq<char>,
    pub parallel: bool,
    pub turn_cache: bool,
    pub session_cache: bool,
    pub settings: ToolCacheSettings,
}

impl View for CallPlan {
    type V = CallPlanView;

    open spec fn view(&self) -> CallPlanView {
        CallPlanView {
            cache_key: self.cache_key@,
            parallel: self.parallel,
            turn_cache: self.turn_cache,
            session_cache: self.session_cache,
            settings: self.settings,
        }
    }
}

/// The plan for `call`, given what the router says of the tool.
pub open spec fn planned(
    call: ToolCallView,
    supports_parallel: bool,
    settings: ToolCacheSettings,
) -> CallPlanView {
    CallPlanView {
        cache_key: cache_key(call),
        parallel: supports_parallel,
        turn_cache: turn_cacheable(call.tool_name),
        session_cache: session_cacheable(call.tool_name) && settings.enabled,
        settings,
    }
}

pub fn plan_call(call: &ToolCall, supports_parallel: bool, settings: ToolCacheSettings) -> (plan:
    CallPlan)
    ensures
        plan@ == planned(call@, supports_parallel, settings),
{
    CallPlan {
        cache_key: tool_call_cache_key(call),
        parallel: supports_parallel,
        turn_cache: tool_supports_turn_cache(call.tool_name.as_str()),
        session_cache: tool_supports_session_cache(call.tool_name.as_str()) && settings.enabled,
        settings,
    }
}

/// Where a call stands.
pub enum CallState {
    /// Nothing has been done yet.
    Start,
    /// The turn tier is being asked.
    CheckTurnCache,
    /// The session tier is being asked.
    CheckSessionCache,
    /// A hit of the session tier is being copied into the turn tier.
    Promoting { hit: ResponseInputItem },
    /// The call is joining the calls in flight.
    JoinSingleFlight,
    /// The call waits for the leader of its key.
    Following,
    /// The call is with the router; `leader` says whether others may be
    /// waiting for it.
    Dispatching { leader: bool },
    /// The result is being stored in the tiers that apply.
    Classifying { leader: bool, result: ResponseInputItem },
    /// The followers are being told what came of the call.
    Publishing { outcome: Result<ResponseInputItem, FunctionCallError> },
    /// The call has returned.
    Done,
}

pub enum CallStateView {
    Start,
    CheckTurnCache,
    CheckSessionCache,
    Promoting { hit: ResponseInputItemView },
    JoinSingleFlight,
    Following,
    Dispatching { leader: bool },
    Classifying { leader: bool, result: ResponseInputItemView },
    Publishing { outcome: Result<ResponseInputItemView, FunctionCallErrorView> },
    Done,
}

impl View for CallState {
    type V = CallStateView;

    open spec fn view(&self) -> CallStateView {
        match self {
            CallState::Start => CallStateView::Start,
            CallState::CheckTurnCache => CallStateView::CheckTurnCache,
            CallState::CheckSessionCache => CallStateView::CheckSessionCache,
            CallState::Promoting { hit } => CallStateView::Promoting { hit: hit@ },
            CallState::JoinSingleFlight => CallStateView::JoinSingleFlight,
            CallState::Following => CallStateView::Following,
            CallState::Dispatching { leader } => CallStateView::Dispatching { leader: *leader },
            CallState::Classifying { leader, result } => CallStateView::Classifying {
                leader: *leader,
                result: result@,
            },
            CallState::Publishing { outcome } => CallStateView::Publishing {
                outcome: outcome_view(*outcome),
            },
            CallState::Done => CallStateView::Done,
        }
    }
}

/// What the last action brought.
pub enum CallEvent {
    /// The call is to start.
    Begin,
    /// What the turn tier holds under the call's key.
    TurnCacheLookup(Option<ResponseInputItem>),
    /// What the session tier holds under the call's key.
    SessionCacheLookup(Option<ResponseInputItem>),
    /// The result was stored.
    Stored,
    /// The call's role among the calls in flight.
    Joined { leader: bool },
    /// The leader is done: it published this result, or none.
    LeaderResolved(Option<ResponseInputItem>),
    /// The call was cancelled before what it waited for arrived. `elapsed`
    /// is the time since the call began, in seconds, as it is to be shown.
    Cancelled { elapsed: String },
    /// The router is done.
    Dispatched(Result<ResponseInputItem, FunctionCallError>),
    /// The followers were told.
    Published,
}

pub enum CallEventView {
    Begin,
    TurnCacheLookup(Option<ResponseInputItemView>),
    SessionCacheLookup(Option<ResponseInputItemView>),
    Stored,
    Joined { leader: bool },
    LeaderResolved(Option<ResponseInputItemView>),
    Cancelled { elapsed: Seq<char> },
    Dispatched(Result<ResponseInputItemView, FunctionCallErrorView>),
    Published,
}

/// The result that a lookup found, or that a leader published.
pub open spec fn found_view(found: Option<ResponseInputItem>) -> Option<ResponseInputItemView> {
    match found {
        Some(response) => Some(response@),
        None => None,
    }
}

impl View for CallEvent {
    type V = CallEventView;

    open spec fn view(&self) -> CallEventView {
        match self {
            CallEvent::Begin => CallEventView::Begin,
            CallEvent::TurnCacheLookup(found) => CallEventView::TurnCacheLookup(
                found_view(*found),
            ),
            CallEvent::SessionCacheLookup(found) => CallEventView::SessionCacheLookup(
                found_view(*found),
            ),
            CallEvent::Stored => CallEventView::Stored,
            CallEvent::Joined { leader } => CallEventView::Joined { leader: *leader },
            CallEvent::LeaderResolved(found) => CallEventView::LeaderResolved(found_view(*found)),
            CallEvent::Cancelled { elapsed } => CallEventView::Cancelled { elapsed: elapsed@ },
            CallEvent::Dispatched(outcome) => CallEventView::Dispatched(outcome_view(*outcome)),
            CallEvent::Published => CallEventView::Published,
        }
    }
}

/// What is to be done next. Every action but `Return` is answered by one
/// kind of event, or by `Cancelled` where the action waits.
pub enum CallAction {
    /// Look up the call's key in the turn tier. Answer: `TurnCacheLookup`.
    LookupTurnCache,
    /// Look up the call's key in the session tier, dropping what is older
    /// than `ttl_secs`. Answer: `SessionCacheLookup`.
    LookupSessionCache { ttl_secs: u64 },
    /// Store `result` under the call's key: in the turn tier if `turn`, and in
    /// the session tier, bounded by `max_entries`, if `session`. Answer:
    /// `Stored`.
    Store { result: ResponseInputItem, turn: bool, session: bool, max_entries: usize },
    /// Join the calls in flight under the call's key. Answer: `Joined`.
    JoinSingleFlight,
    /// Wait until the leader of the call's key is done, or the call is
    /// cancelled, whichever comes first. Answer: `LeaderResolved` or
    /// `Cancelled`.
    AwaitLeader,
    /// Take the execution gate, shared if `shared` and exclusive if not, and
    /// hand the call to the router; give up as soon as the call is cancelled.
    /// Answer: `Dispatched` or `Cancelled`.
    Dispatch { shared: bool },
    /// Tell the followers what came of the call, and take the call's key out
    /// of the calls in flight. Answer: `Published`.
    Publish(Option<ResponseInputItem>),
    /// The call is over: hand this to the caller.
    Return(Result<ResponseInputItem, FunctionCallError>),
}

pub enum CallActionView {
    LookupTurnCache,
    LookupSessionCache { ttl_secs: u64 },
    Store { result: ResponseInputItemView, turn: bool, session: bool, max_entries: usize },
    JoinSingleFlight,
    AwaitLeader,
    Dispatch { shared: bool },
    Publish(Option<ResponseInputItemView>),
    Return(Result<ResponseInputItemView, FunctionCallErrorView>),
}

impl View for CallAction {
    type V = CallActionView;

    open spec fn view(&self) -> CallActionView {
        match self {
            CallAction::LookupTurnCache => CallActionView::LookupTurnCache,
            CallAction::LookupSessionCache { ttl_secs } => CallActionView::LookupSessionCache {
                ttl_secs: *ttl_secs,
            },
            CallAction::Store { result, turn, session, max_entries } => CallActionView::Store {
                result: result@,
                turn: *turn,
                session: *session,
                max_entries: *max_entries,
            },
            CallAction::JoinSingleFlight => CallActionView::JoinSingleFlight,
            CallAction::AwaitLeader => CallActionView::AwaitLeader,
            CallAction::Dispatch { shared } => CallActionView::Dispatch { shared: *shared },
            CallAction::Publish(shared) => CallActionView::Publish(found_view(*shared)),
            CallAction::Return(outcome) => CallActionView::Return(outcome_view(*outcome)),
        }
    }
}

/// The action of a step, where the step accepts the event.
pub open spec fn action_view(action: Option<CallAction>) -> Option<CallActionView> {
    match action {
        Some(action) => Some(action@),
        None => None,
    }
}

/// What the caller is handed for an outcome: a result is addressed to the
/// call, a failure passes as it is.
pub open spec fn returned(
    call: ToolCallView,
    outcome: Result<ResponseInputItemView, FunctionCallErrorView>,
) -> Result<ResponseInputItemView, FunctionCallErrorView> {
    match outcome {
        Ok(response) => Ok(with_call_id(response, call.call_id)),
        Err(error) => Err(error),
    }
}

/// The call returns.
pub open spec fn finish(
    call: ToolCallView,
    outcome: Result<ResponseInputItemView, FunctionCallErrorView>,
) -> (CallStateView, Option<CallActionView>) {
    (CallStateView::Done, Some(CallActionView::Return(returned(call, outcome))))
}

/// The call goes to the router.
pub open spec fn dispatch(plan: CallPlanView, leader: bool) -> (
    CallStateView,
    Option<CallActionView>,
) {
    (
        CallStateView::Dispatching { leader },
        Some(CallActionView::Dispatch { shared: plan.parallel }),
    )
}

/// The call joins the calls in flight where single flight applies, and goes
/// to the router where it does not.
pub open spec fn join_or_dispatch(plan: CallPlanView) -> (CallStateView, Option<CallActionView>) {
    if plan.turn_cache {
        (CallStateView::JoinSingleFlight, Some(CallActionView::JoinSingleFlight))
    } else {
        dispatch(plan, false)
    }
}

/// The session tier is asked where it applies.
pub open spec fn session_or_join(plan: CallPlanView) -> (CallStateView, Option<CallActionView>) {
    if plan.session_cache {
        (
            CallStateView::CheckSessionCache,
            Some(CallActionView::LookupSessionCache { ttl_secs: plan.settings.ttl_secs }),
        )
    } else {
        join_or_dispatch(plan)
    }
}

/// The call's outcome is settled: a leader tells its followers first, and
/// shares `shared` with them; any other call returns.
pub open spec fn conclude(
    call: ToolCallView,
    leader: bool,
    outcome: Result<ResponseInputItemView, FunctionCallErrorView>,
    shared: Option<ResponseInputItemView>,
) -> (CallStateView, Option<CallActionView>) {
    if leader {
        (CallStateView::Publishing { outcome }, Some(CallActionView::Publish(shared)))
    } else {
        finish(call, outcome)
    }
}

/// The router is done with the call.
pub open spec fn classify(
    call: ToolCallView,
    plan: CallPlanView,
    leader: bool,
    outcome: Result<ResponseInputItemView, FunctionCallErrorView>,
) -> (CallStateView, Option<CallActionView>) {
    match outcome {
        Ok(result) => if !cache_eligible(result) {
            conclude(call, leader, outcome, None)
        } else if plan.turn_cache || plan.session_cache {
            (
                CallStateView::Classifying { leader, result },
                Some(
                    CallActionView::Store {
                        result,
                        turn: plan.turn_cache,
                        session: plan.session_cache,
                        max_entries: plan.settings.max_entries,
                    },
                ),
            )
        } else {
            conclude(call, leader, outcome, Some(result))
        },
        Err(_) => conclude(call, leader, outcome, None),
    }
}

/// One step of a call: the state it is in after `event`, and the action to
/// take. The action is `None`, and the state unchanged, where the state does
/// not await the event.
pub open spec fn transition(
    call: ToolCallView,
    plan: CallPlanView,
    state: CallStateView,
    event: CallEventView,
) -> (CallStateView, Option<CallActionView>) {
    match (state, event) {
        (CallStateView::Start, CallEventView::Begin) => if plan.turn_cache {
            (CallStateView::CheckTurnCache, Some(CallActionView::LookupTurnCache))
        } else {
            session_or_join(plan)
        },
        (CallStateView::CheckTurnCache, CallEventView::TurnCacheLookup(Some(hit))) => finish(
            call,
            Ok(hit),
        ),
        (CallStateView::CheckTurnCache, CallEventView::TurnCacheLookup(None)) => session_or_join(
            plan,
        ),
        (
            CallStateView::CheckSessionCache,
            CallEventView::SessionCacheLookup(Some(hit)),
        ) => if plan.turn_cache {
            (
                CallStateView::Promoting { hit },
                Some(
                    CallActionView::Store {
                        result: hit,
                        turn: true,
                        session: false,
                        max_entries: plan.settings.max_entries,
                    },
                ),
            )
        } else {
            finish(call, Ok(hit))
        },
        (
            CallStateView::CheckSessionCache,
            CallEventView::SessionCacheLookup(None),
        ) => join_or_dispatch(plan),
        (CallStateView::Promoting { hit }, CallEventView::Stored) => finish(call, Ok(hit)),
        (CallStateView::JoinSingleFlight, CallEventView::Joined { leader }) => if leader {
            dispatch(plan, true)
        } else {
            (CallStateView::Following, Some(CallActionView::AwaitLeader))
        },
        (CallStateView::Following, CallEventView::Cancelled { elapsed }) => finish(
            call,
            Ok(aborted(call, elapsed)),
        ),
        (CallStateView::Following, CallEventView::LeaderResolved(Some(result))) => finish(
            call,
            Ok(result),
        ),
        (CallStateView::Following, CallEventView::LeaderResolved(None)) => dispatch(plan, false),
        (CallStateView::Dispatching { leader }, CallEventView::Cancelled { elapsed }) => conclude(
            call,
            leader,
            Ok(aborted(call, elapsed)),
            None,
        ),
        (CallStateView::Dispatching { leader }, CallEventView::Dispatched(outcome)) => classify(
            call,
            plan,
            leader,
            outcome,
        ),
        (CallStateView::Classifying { leader, result }, CallEventView::Stored) => conclude(
            call,
            leader,
            Ok(result),
            Some(result),
        ),
        (CallStateView::Publishing { outcome }, CallEventView::Published) => finish(call, outcome),
        _ => (state, None),
    }
}

/// One tool call on its way.
pub struct CallMachine {
    call: ToolCall,
    plan: CallPlan,
    state: CallState,
}

pub struct CallMachineView {
    pub call: ToolCallView,
    pub plan: CallPlanView,
    pub state: CallStateView,
}

impl View for CallMachine {
    type V = CallMachineView;

    closed spec fn view(&self) -> CallMachineView {
        CallMachineView { call: self.call@, plan: self.plan@, state: self.state@ }
    }
}

impl CallMachine {
    /// A call that has not begun.
    pub fn new(call: ToolCall, plan: CallPlan) -> (machine: Self)
        ensures
            machine@ == (CallMachineView { call: call@, plan: plan@, state: CallStateView::Start }),
    {
        CallMachine { call, plan, state: CallState::Start }
    }

    pub fn call(&self) -> (call: &ToolCall)
        ensures
            call@ == self@.call,
    {
        &self.call
    }

    pub fn plan(&self) -> (plan: &CallPlan)
        ensures
            plan@ == self@.plan,
    {
        &self.plan
    }

    /// The key under which the call's result is cached and shared.
    pub fn cache_key(&self) -> (key: &str)
        ensures
            key@ == self@.plan.cache_key,
    {
        self.plan.cache_key.as_str()
    }

    /// Whether the call has returned.
    pub fn is_done(&self) -> (done: bool)
        ensures
            done == (self@.state is Done),
    {
        match &self.state {
            CallState::Done => true,
            _ => false,
        }
    }

    fn finish(&mut self, outcome: Result<ResponseInputItem, FunctionCallError>) -> (action: Option<
        CallAction,
    >)
        ensures
            final(self)@.call == old(self)@.call,
            final(self)@.plan == old(self)@.plan,
            (final(self)@.state, action_view(action)) == finish(
                old(self)@.call,
                outcome_view(outcome),
            ),
    {
        self.state = CallState::Done;
        Some(
            CallAction::Return(
                match outcome {
                    Ok(response) => Ok(
                        remap_response_call_id(response, self.call.call_id.as_str()),
                    ),
                    Err(error) => Err(error),
                },
            ),
        )
    }

    fn dispatch(&mut self, leader: bool) -> (action: Option<CallAction>)
        ensures
            final(self)@.call == old(self)@.call,
            final(self)@.plan == old(self)@.plan,
            (final(self)@.state, action_view(action)) == dispatch(old(self)@.plan, leader),
    {
        self.state = CallState::Dispatching { leader };
        Some(CallAction::Dispatch { shared: self.plan.parallel })
    }

    fn join_or_dispatch(&mut self) -> (action: Option<CallAction>)
        ensures
            final(self)@.call == old(self)@.call,
            final(self)@.plan == old(self)@.plan,
            (final(self)@.state, action_view(action)) == join_or_dispatch(old(self)@.plan),
    {
        if self.plan.turn_cache {
            self.state = CallState::JoinSingleFlight;
            Some(CallAction::JoinSingleFlight)
        } else {
            self.dispatch(false)
        }
    }

    fn session_or_join(&mut self) -> (action: Option<CallAction>)
        ensures
            final(self)@.call == old(self)@.call,
            final(self)@.plan == old(self)@.plan,
            (final(self)@.state, action_view(action)) == session_or_join(old(self)@.plan),
    {
        if self.plan.session_cache {
            self.state = CallState::CheckSessionCache;
            Some(CallAction::LookupSessionCache { ttl_secs: self.plan.settings.ttl_secs })
        } else {
            self.join_or_dispatch()
        }
    }

    fn conclude(
        &mut self,
        leader: bool,
        outcome: Result<ResponseInputItem, FunctionCallError>,
        shared: Option<ResponseInputItem>,
    ) -> (action: Option<CallAction>)
        ensures
            final(self)@.call == old(self)@.call,
            final(self)@.plan == old(self)@.plan,
            (final(self)@.state, action_view(action)) == conclude(
                old(self)@.call,
                leader,
                outcome_view(outcome),
                found_view(shared),
            ),
    {
        if leader {
            self.state = CallState::Publishing { outcome };
            Some(CallAction::Publish(shared))
        } else {
            self.finish(outcome)
        }
    }

    fn classify(&mut self, leader: bool, outcome: Result<ResponseInputItem, FunctionCallError>) -> (action:
        Option<CallAction>)
        ensures
            final(self)@.call == old(self)@.call,
            final(self)@.plan == old(self)@.plan,
            (final(self)@.state, action_view(action)) == classify(
                old(self)@.call,
                old(self)@.plan,
                leader,
                outcome_view(outcome),
            ),
    {
        match outcome {
            Ok(result) => {
                if !should_cache_tool_response(&result) {
                    self.conclude(leader, Ok(result), None)
                } else if self.plan.turn_cache || self.plan.session_cache {
                    let copy = result.clone();
                    self.state = CallState::Classifying { leader, result };
                    Some(
                        CallAction::Store {
                            result: copy,
                            turn: self.plan.turn_cache,
                            session: self.plan.session_cache,
                            max_entries: self.plan.settings.max_entries,
                        },
                    )
                } else {
                    let copy = result.clone();
                    self.conclude(leader, Ok(result), Some(copy))
                }
            },
            Err(error) => self.conclude(leader, Err(error), None),
        }
    }

    /// Takes one step: `event` is what the last action brought, the result
    /// is the next action. An event that the call does not await is refused:
    /// the result is `None` and the call stays where it is.
    pub fn step(&mut self, event: CallEvent) -> (action: Option<CallAction>)
        ensures
            final(self)@.call == old(self)@.call,
            final(self)@.plan == old(self)@.plan,
            (final(self)@.state, action_view(action)) == transition(
                old(self)@.call,
                old(self)@.plan,
                old(self)@.state,
                event@,
            ),
    {
        let mut state = CallState::Done;
        core::mem::swap(&mut self.state, &mut state);
        match (state, event) {
            (CallState::Start, CallEvent::Begin) => {
                if self.plan.turn_cache {
                    self.state = CallState::CheckTurnCache;
                    Some(CallAction::LookupTurnCache)
                } else {
                    self.session_or_join()
                }
            },
            (CallState::CheckTurnCache, CallEvent::TurnCacheLookup(Some(hit))) => self.finish(
                Ok(hit),
            ),
            (CallState::CheckTurnCache, CallEvent::TurnCacheLookup(None)) => self.session_or_join(),
            (CallState::CheckSessionCache, CallEvent::SessionCacheLookup(Some(hit))) => {
                if self.plan.turn_cache {
                    let copy = hit.clone();
                    self.state = CallState::Promoting { hit };
                    Some(
                        CallAction::Store {
                            result: copy,
                            turn: true,
                            session: false,
                            max_entries: self.plan.settings.max_entries,
                        },
                    )
                } else {
                    self.finish(Ok(hit))
                }
            },
            (
                CallState::CheckSessionCache,
                CallEvent::SessionCacheLookup(None),
            ) => self.join_or_dispatch(),
            (CallState::Promoting { hit }, CallEvent::Stored) => self.finish(Ok(hit)),
            (CallState::JoinSingleFlight, CallEvent::Joined { leader }) => {
                if leader {
                    self.dispatch(true)
                } else {
                    self.state = CallState::Following;
                    Some(CallAction::AwaitLeader)
                }
            },
            (CallState::Following, CallEvent::Cancelled { elapsed }) => {
                let response = aborted_response(&self.call, elapsed.as_str());
                self.finish(Ok(response))
            },
            (CallState::Following, CallEvent::LeaderResolved(Some(result))) => self.finish(
                Ok(result),
            ),
            (CallState::Following, CallEvent::LeaderResolved(None)) => self.dispatch(false),
            (CallState::Dispatching { leader }, CallEvent::Cancelled { elapsed }) => {
                let response = aborted_response(&self.call, elapsed.as_str());
                self.conclude(leader, Ok(response), None)
            },
            (CallState::Dispatching { leader }, CallEvent::Dispatched(outcome)) => self.classify(
                leader,
                outcome,
            ),
            (CallState::Classifying { leader, result }, CallEvent::Stored) => {
                let copy = result.clone();
                self.conclude(leader, Ok(result), Some(copy))
            },
            (CallState::Publishing { outcome }, CallEvent::Published) => self.finish(outcome),
            (state, _) => {
                self.state = state;
                None
            },
        }
    }
}

} // verus!
