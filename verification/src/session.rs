//! What a session keeps from one turn to the next.

use std::time::Instant;
use vstd::prelude::*;
use crate::rate_limits::{
    clone_optional_text, merge_rate_limit_fields, merged, optional_text, RateLimitSnapshot,
    RateLimitSnapshotView,
};
use crate::response::ResponseInputItem;
use crate::session_cache::{
    stored, with_stored, without_expired, CachedToolResultView, ToolResultCache,
};
use crate::text::texts;

verus! {

/// `std::time::Instant`: a point in time on the machine's monotonic clock.
#[verifier::external_type_specification]
#[verifier::external_body]
pub struct ExInstant(Instant);

/// `Instant::now`: the present. Nothing is claimed of it.
#[verifier::external_body]
fn clock_start() -> Instant {
    Instant::now()
}

/// `Instant::elapsed`, in nanoseconds: the time since `origin`. Nothing is
/// claimed of it.
#[verifier::external_body]
fn clock_reading(origin: &Instant) -> u128 {
    origin.elapsed().as_nanos()
}

/// `current`, followed by each of `names` that neither `current` nor an
/// earlier one of `names` holds.
pub open spec fn extended(current: Seq<Seq<char>>, names: Seq<Seq<char>>) -> Seq<Seq<char>>
    decreases names.len(),
{
    if names.len() == 0 {
        current
    } else {
        let earlier = extended(current, names.drop_last());
        if earlier.contains(names.last()) {
            earlier
        } else {
            earlier.push(names.last())
        }
    }
}

/// Whether `list` holds `name`.
pub fn holds(list: &Vec<String>, name: &str) -> (found: bool)
    ensures
        found == texts(list@).contains(name@),
{
    let mut index: usize = 0;
    while index < list.len()
        invariant
            index <= list.len(),
            forall|i: int| 0 <= i < index ==> texts(list@)[i] != name@,
        decreases list.len() - index,
    {
        if list[index].as_str().eq(name) {
            assert(texts(list@)[index as int] == name@);
            return true;
        }
        index = index + 1;
    }
    false
}

/// Appends to `list` each of `names` that it does not hold yet.
pub fn extend_distinct(list: &mut Vec<String>, names: Vec<String>)
    ensures
        texts(final(list)@) == extended(texts(old(list)@), texts(names@)),
{
    let mut index: usize = 0;
    assert(texts(names@).take(0) =~= Seq::empty());
    while index < names.len()
        invariant
            index <= names.len(),
            texts(list@) == extended(texts(old(list)@), texts(names@).take(index as int)),
        decreases names.len() - index,
    {
        proof {
            let next = texts(names@).take(index + 1);
            assert(next.drop_last() =~= texts(names@).take(index as int));
            assert(next.last() == names@[index as int]@);
        }
        if !holds(list, names[index].as_str()) {
            let ghost before = list@;
            list.push(names[index].clone());
            assert(texts(list@) =~= texts(before).push(names@[index as int]@));
        }
        index = index + 1;
    }
    assert(texts(names@).take(index as int) =~= texts(names@));
}

/// The pairs of an environment as texts.
pub open spec fn env_texts(env: Seq<(String, String)>) -> Seq<(Seq<char>, Seq<char>)> {
    env.map_values(|pair: (String, String)| (pair.0@, pair.1@))
}

/// The value that an environment gives to `name`: that of the last pair
/// with the name.
pub open spec fn env_value(env: Seq<(Seq<char>, Seq<char>)>, name: Seq<char>) -> Option<Seq<char>>
    decreases env.len(),
{
    if env.len() == 0 {
        None
    } else if env.last().0 == name {
        Some(env.last().1)
    } else {
        env_value(env.drop_last(), name)
    }
}

/// The state of a session.
pub struct SessionState {
    latest_rate_limits: Option<RateLimitSnapshot>,
    server_reasoning_included: bool,
    initial_context_seeded: bool,
    previous_model: Option<String>,
    active_mcp_tool_selection: Option<Vec<String>>,
    active_connector_selection: Vec<String>,
    mcp_dependency_prompted: Vec<String>,
    dependency_env: Vec<(String, String)>,
    tool_result_cache: ToolResultCache,
    clock_origin: Instant,
}

pub struct SessionStateView {
    /// What the service last said about the rate limits.
    pub latest_rate_limits: Option<RateLimitSnapshotView>,
    pub server_reasoning_included: bool,
    /// Whether the session's first context has been written into its history.
    pub initial_context_seeded: bool,
    /// The model that the session used last.
    pub previous_model: Option<Seq<char>>,
    /// The tools that the model may currently choose from, in the order in
    /// which they were selected; `None` while nothing was selected.
    pub active_mcp_tool_selection: Option<Seq<Seq<char>>>,
    /// The connectors that are selected, in the order of their selection.
    pub active_connector_selection: Seq<Seq<char>>,
    /// The names for which the user was already asked about a dependency.
    pub mcp_dependency_prompted: Seq<Seq<char>>,
    /// The environment for dependencies: names and values; of two pairs
    /// with one name the later one counts.
    pub dependency_env: Seq<(Seq<char>, Seq<char>)>,
    /// The entries of the result cache, oldest first.
    pub tool_results: Seq<(Seq<char>, CachedToolResultView)>,
}

/// The selection, where there is one.
pub open spec fn optional_texts(list: Option<Vec<String>>) -> Option<Seq<Seq<char>>> {
    match list {
        Some(list) => Some(texts(list@)),
        None => None,
    }
}

impl View for SessionState {
    type V = SessionStateView;

    closed spec fn view(&self) -> SessionStateView {
        SessionStateView {
            latest_rate_limits: match self.latest_rate_limits {
                Some(snapshot) => Some(snapshot@),
                None => None,
            },
            server_reasoning_included: self.server_reasoning_included,
            initial_context_seeded: self.initial_context_seeded,
            previous_model: optional_text(self.previous_model),
            active_mcp_tool_selection: optional_texts(self.active_mcp_tool_selection),
            active_connector_selection: texts(self.active_connector_selection@),
            mcp_dependency_prompted: texts(self.mcp_dependency_prompted@),
            dependency_env: env_texts(self.dependency_env@),
            tool_results: self.tool_result_cache@,
        }
    }
}

/// A copy of a list of strings.
fn clone_texts(list: &Vec<String>) -> (copy: Vec<String>)
    ensures
        texts(copy@) == texts(list@),
{
    let copy = list.clone();
    assert(texts(copy@) =~= texts(list@));
    copy
}

impl SessionState {
    /// A session at its beginning: nothing selected, nothing cached, its
    /// clock started.
    pub fn new() -> (state: Self)
        ensures
            state@ == (SessionStateView {
                latest_rate_limits: None,
                server_reasoning_included: false,
                initial_context_seeded: false,
                previous_model: None,
                active_mcp_tool_selection: None,
                active_connector_selection: Seq::empty(),
                mcp_dependency_prompted: Seq::empty(),
                dependency_env: Seq::empty(),
                tool_results: Seq::empty(),
            }),
    {
        let state = SessionState {
            latest_rate_limits: None,
            server_reasoning_included: false,
            initial_context_seeded: false,
            previous_model: None,
            active_mcp_tool_selection: None,
            active_connector_selection: Vec::new(),
            mcp_dependency_prompted: Vec::new(),
            dependency_env: Vec::new(),
            tool_result_cache: ToolResultCache::new(),
            clock_origin: clock_start(),
        };
        assert(state@.active_connector_selection =~= Seq::empty());
        assert(state@.mcp_dependency_prompted =~= Seq::empty());
        assert(state@.dependency_env =~= Seq::empty());
        state
    }

    pub fn previous_model(&self) -> (model: Option<String>)
        ensures
            optional_text(model) == self@.previous_model,
    {
        clone_optional_text(&self.previous_model)
    }

    pub fn set_previous_model(&mut self, previous_model: Option<String>)
        ensures
            final(self)@ == (SessionStateView {
                previous_model: optional_text(previous_model),
                ..old(self)@
            }),
    {
        self.previous_model = previous_model;
    }

    pub fn latest_rate_limits(&self) -> (snapshot: Option<RateLimitSnapshot>)
        ensures
            match snapshot {
                Some(snapshot) => self@.latest_rate_limits == Some(snapshot@),
                None => self@.latest_rate_limits is None,
            },
    {
        match &self.latest_rate_limits {
            Some(snapshot) => Some(snapshot.clone()),
            None => None,
        }
    }

    /// Keeps `snapshot`, completed from the snapshot that was kept before.
    pub fn set_rate_limits(&mut self, snapshot: RateLimitSnapshot)
        ensures
            final(self)@ == (SessionStateView {
                latest_rate_limits: Some(merged(old(self)@.latest_rate_limits, snapshot@)),
                ..old(self)@
            }),
    {
        let kept = merge_rate_limit_fields(self.latest_rate_limits.as_ref(), snapshot);
        self.latest_rate_limits = Some(kept);
    }

    pub fn set_server_reasoning_included(&mut self, included: bool)
        ensures
            final(self)@ == (SessionStateView { server_reasoning_included: included, ..old(self)@ }),
    {
        self.server_reasoning_included = included;
    }

    pub fn server_reasoning_included(&self) -> (included: bool)
        ensures
            included == self@.server_reasoning_included,
    {
        self.server_reasoning_included
    }

    pub fn set_initial_context_seeded(&mut self, seeded: bool)
        ensures
            final(self)@ == (SessionStateView { initial_context_seeded: seeded, ..old(self)@ }),
    {
        self.initial_context_seeded = seeded;
    }

    pub fn initial_context_seeded(&self) -> (seeded: bool)
        ensures
            seeded == self@.initial_context_seeded,
    {
        self.initial_context_seeded
    }

    /// Notes that the user was asked about each of `names`.
    pub fn record_mcp_dependency_prompted(&mut self, names: Vec<String>)
        ensures
            final(self)@ == (SessionStateView {
                mcp_dependency_prompted: extended(
                    old(self)@.mcp_dependency_prompted,
                    texts(names@),
                ),
                ..old(self)@
            }),
    {
        extend_distinct(&mut self.mcp_dependency_prompted, names);
    }

    pub fn mcp_dependency_prompted(&self) -> (names: Vec<String>)
        ensures
            texts(names@) == self@.mcp_dependency_prompted,
    {
        clone_texts(&self.mcp_dependency_prompted)
    }

    /// Gives each name of `values` its value, in place of the value that it
    /// had.
    pub fn set_dependency_env(&mut self, values: Vec<(String, String)>)
        ensures
            final(self)@ == (SessionStateView {
                dependency_env: old(self)@.dependency_env + env_texts(values@),
                ..old(self)@
            }),
            forall|name: Seq<char>|
                env_value(final(self)@.dependency_env, name) == match env_value(
                    env_texts(values@),
                    name,
                ) {
                    Some(value) => Some(value),
                    None => env_value(old(self)@.dependency_env, name),
                },
    {
        let mut values = values;
        proof {
            assert forall|name: Seq<char>|
                env_value(old(self)@.dependency_env + env_texts(values@), name) == match env_value(
                    env_texts(values@),
                    name,
                ) {
                    Some(value) => Some(value),
                    None => env_value(old(self)@.dependency_env, name),
                } by {
                lemma_env_value_of_both(old(self)@.dependency_env, env_texts(values@), name);
            }
            assert(env_texts(self.dependency_env@ + values@) =~= env_texts(self.dependency_env@)
                + env_texts(values@));
        }
        self.dependency_env.append(&mut values);
    }

    /// The environment for dependencies, pair by pair.
    pub fn dependency_env(&self) -> (env: Vec<(String, String)>)
        ensures
            env_texts(env@) == self@.dependency_env,
    {
        let mut env: Vec<(String, String)> = Vec::new();
        let mut index: usize = 0;
        while index < self.dependency_env.len()
            invariant
                index <= self.dependency_env.len(),
                env_texts(env@) == env_texts(self.dependency_env@).take(index as int),
            decreases self.dependency_env.len() - index,
        {
            let ghost before = env@;
            let name = self.dependency_env[index].0.clone();
            let value = self.dependency_env[index].1.clone();
            env.push((name, value));
            assert(env_texts(env@) =~= env_texts(before).push((name@, value@)));
            assert(env_texts(self.dependency_env@).take(index + 1) =~= env_texts(
                self.dependency_env@,
            ).take(index as int).push((name@, value@)));
            index = index + 1;
        }
        assert(env_texts(self.dependency_env@).take(index as int) =~= env_texts(
            self.dependency_env@,
        ));
        env
    }

    /// The merged selection: the current one, followed by each of
    /// `tool_names` that it does not hold yet. Without `tool_names` nothing is
    /// selected and nothing changes.
    pub fn merge_mcp_tool_selection(&mut self, tool_names: Vec<String>) -> (selection: Vec<String>)
        ensures
            texts(selection@) == extended(
                match old(self)@.active_mcp_tool_selection {
                    Some(current) => current,
                    None => Seq::empty(),
                },
                texts(tool_names@),
            ),
            final(self)@ == (SessionStateView {
                active_mcp_tool_selection: if tool_names@.len() == 0 {
                    old(self)@.active_mcp_tool_selection
                } else {
                    Some(texts(selection@))
                },
                ..old(self)@
            }),
    {
        if tool_names.len() == 0 {
            return match &self.active_mcp_tool_selection {
                Some(current) => clone_texts(current),
                None => {
                    let none: Vec<String> = Vec::new();
                    assert(texts(none@) =~= Seq::empty());
                    none
                },
            };
        }
        let mut current: Option<Vec<String>> = None;
        core::mem::swap(&mut self.active_mcp_tool_selection, &mut current);
        let mut merged = match current {
            Some(current) => current,
            None => {
                let none: Vec<String> = Vec::new();
                assert(texts(none@) =~= Seq::empty());
                none
            },
        };
        extend_distinct(&mut merged, tool_names);
        let selection = clone_texts(&merged);
        self.active_mcp_tool_selection = Some(merged);
        selection
    }

    pub fn get_mcp_tool_selection(&self) -> (selection: Option<Vec<String>>)
        ensures
            optional_texts(selection) == self@.active_mcp_tool_selection,
    {
        match &self.active_mcp_tool_selection {
            Some(current) => Some(clone_texts(current)),
            None => None,
        }
    }

    pub fn clear_mcp_tool_selection(&mut self)
        ensures
            final(self)@ == (SessionStateView { active_mcp_tool_selection: None, ..old(self)@ }),
    {
        self.active_mcp_tool_selection = None;
    }

    /// Selects each of `connector_ids` that is not selected yet, and gives
    /// the whole selection.
    pub fn merge_connector_selection(&mut self, connector_ids: Vec<String>) -> (selection: Vec<
        String,
    >)
        ensures
            texts(selection@) == extended(
                old(self)@.active_connector_selection,
                texts(connector_ids@),
            ),
            final(self)@ == (SessionStateView {
                active_connector_selection: texts(selection@),
                ..old(self)@
            }),
    {
        extend_distinct(&mut self.active_connector_selection, connector_ids);
        clone_texts(&self.active_connector_selection)
    }

    pub fn get_connector_selection(&self) -> (selection: Vec<String>)
        ensures
            texts(selection@) == self@.active_connector_selection,
    {
        clone_texts(&self.active_connector_selection)
    }

    pub fn clear_connector_selection(&mut self)
        ensures
            final(self)@ == (SessionStateView {
                active_connector_selection: Seq::empty(),
                ..old(self)@
            }),
    {
        self.active_connector_selection.clear();
        assert(texts(self.active_connector_selection@) =~= Seq::empty());
    }

    /// The result cached under `key`, seen at `now` on the session's clock:
    /// first every entry that is older than `max_age` goes, all of them where
    /// `max_age` is zero; then the entry of `key` is looked up. Times are in
    /// nanoseconds.
    pub fn get_cached_tool_result_at(&mut self, key: &str, max_age: u128, now: u128) -> (found:
        Option<ResponseInputItem>)
        ensures
            final(self)@ == (SessionStateView {
                tool_results: without_expired(old(self)@.tool_results, max_age, now),
                ..old(self)@
            }),
            match found {
                Some(response) => stored(final(self)@.tool_results, key@) == Some(response@),
                None => stored(final(self)@.tool_results, key@) is None,
            },
    {
        self.tool_result_cache.get(key, max_age, now)
    }

    /// Caches `response` under `key` as stored at `now` on the session's
    /// clock, in nanoseconds, and keeps the newest `max_entries` entries.
    pub fn put_cached_tool_result_at(
        &mut self,
        key: String,
        response: ResponseInputItem,
        max_entries: usize,
        now: u128,
    )
        ensures
            final(self)@ == (SessionStateView {
                tool_results: with_stored(
                    old(self)@.tool_results,
                    key@,
                    response@,
                    max_entries as nat,
                    now,
                ),
                ..old(self)@
            }),
    {
        self.tool_result_cache.put(key, response, max_entries, now);
    }

    /// Drops the cached results that are older than `max_age` at `now`.
    pub fn evict_expired_tool_results_at(&mut self, max_age: u128, now: u128)
        ensures
            final(self)@ == (SessionStateView {
                tool_results: without_expired(old(self)@.tool_results, max_age, now),
                ..old(self)@
            }),
    {
        self.tool_result_cache.evict_expired(max_age, now);
    }

    /// The result cached under `key`, seen now. What is found depends on the
    /// clock; whatever the clock shows, it is what `get_cached_tool_result_at`
    /// gives for that time. With `max_age` zero nothing is found and nothing
    /// stays cached.
    pub fn get_cached_tool_result(&mut self, key: &str, max_age: u128) -> (found: Option<
        ResponseInputItem,
    >)
        ensures
            exists|now: u128|
                final(self)@ == (SessionStateView {
                    tool_results: #[trigger] without_expired(
                        old(self)@.tool_results,
                        max_age,
                        now,
                    ),
                    ..old(self)@
                }),
            match found {
                Some(response) => stored(final(self)@.tool_results, key@) == Some(response@),
                None => stored(final(self)@.tool_results, key@) is None,
            },
            max_age == 0 ==> found is None && final(self)@.tool_results.len() == 0,
    {
        let now = clock_reading(&self.clock_origin);
        self.get_cached_tool_result_at(key, max_age, now)
    }

    /// Caches `response` under `key` as stored now. The time of storing
    /// depends on the clock; whatever the clock shows, the cache is what
    /// `put_cached_tool_result_at` makes of it for that time.
    pub fn put_cached_tool_result(
        &mut self,
        key: String,
        response: ResponseInputItem,
        max_entries: usize,
    )
        ensures
            exists|now: u128|
                final(self)@ == (SessionStateView {
                    tool_results: #[trigger] with_stored(
                        old(self)@.tool_results,
                        key@,
                        response@,
                        max_entries as nat,
                        now,
                    ),
                    ..old(self)@
                }),
    {
        let now = clock_reading(&self.clock_origin);
        self.put_cached_tool_result_at(key, response, max_entries, now);
    }
}

/// The value of a name in two environments, one after the other: that of
/// the later one where it has one.
proof fn lemma_env_value_of_both(
    earlier: Seq<(Seq<char>, Seq<char>)>,
    later: Seq<(Seq<char>, Seq<char>)>,
    name: Seq<char>,
)
    ensures
        env_value(earlier + later, name) == match env_value(later, name) {
            Some(value) => Some(value),
            None => env_value(earlier, name),
        },
    decreases later.len(),
{
    if later.len() == 0 {
        assert(earlier + later =~= earlier);
    } else {
        assert((earlier + later).drop_last() =~= earlier + later.drop_last());
        assert((earlier + later).last() == later.last());
        lemma_env_value_of_both(earlier, later.drop_last(), name);
    }
}

} // verus!
