//! The poll cycle: from the tick of the timer to the snapshot that is
//! handed out for the cache.

use vstd::prelude::*;
use crate::error::UpstreamError;
use crate::snapshot::is_ranking_of;
use crate::snapshot::Snapshot;
use crate::streams::StreamRecord;
use crate::streams::TwitchStream;

verus! {

/// Where the poller stands within a poll cycle.
#[derive(Debug)]
pub enum PollerState {
    /// Waiting for the next tick of the timer.
    Idle,
    /// A credential is being obtained and both retrievals are under way.
    Fetching,
    /// Both retrievals succeeded; their records wait to be merged.
    Merging { science: Vec<TwitchStream>, software: Vec<TwitchStream> },
    /// The merged snapshot has been handed out to be put in the cache.
    Publishing,
}

/// What the poller is told.
#[derive(Debug)]
pub enum PollerEvent {
    /// The timer fired.
    Tick,
    /// No valid credential could be obtained for this cycle.
    CredentialFailed(UpstreamError),
    /// Both retrievals have ended, each with its own outcome.
    Fetched {
        science: Result<Vec<TwitchStream>, UpstreamError>,
        software: Result<Vec<TwitchStream>, UpstreamError>,
    },
    /// The step that was asked for may be taken.
    Continue,
    /// The snapshot that was handed out is in the cache.
    Published,
}

/// What the poller asks its driver to do next.
#[derive(Debug)]
pub enum PollerAction {
    /// Wait for the timer.
    AwaitTick,
    /// Obtain a valid credential, run both retrievals and wait for both.
    Fetch,
    /// Call again with [`PollerEvent::Continue`] to have the records merged.
    Merge,
    /// Replace what the cache holds by this snapshot.
    Publish(Snapshot),
    /// The cycle is given up for this reason; the cache keeps what it
    /// holds. Log the reason and wait for the timer.
    Abandon(UpstreamError),
    /// The event does not belong to the present state and changed nothing.
    Ignore,
}

/// The states `a` and `b` stand at the same point and hold the same records.
pub open spec fn same_state(a: PollerState, b: PollerState) -> bool {
    match (a, b) {
        (PollerState::Idle, PollerState::Idle) => true,
        (PollerState::Fetching, PollerState::Fetching) => true,
        (
            PollerState::Merging { science: s1, software: w1 },
            PollerState::Merging { science: s2, software: w2 },
        ) => s1.deep_view() == s2.deep_view() && w1.deep_view() == w2.deep_view(),
        (PollerState::Publishing, PollerState::Publishing) => true,
        _ => false,
    }
}

/// The one step that the poller takes from `pre` on `event`: it arrives at
/// `post` and asks for `action`.
///
/// A cycle runs `Idle`, `Fetching`, `Merging`, `Publishing` and back to
/// `Idle`. A failure while fetching leads straight back to `Idle`, and
/// nothing is handed out for the cache. No state is final: from each one
/// some event leads on.
pub open spec fn poller_step(
    pre: PollerState,
    event: PollerEvent,
    post: PollerState,
    action: PollerAction,
) -> bool {
    match (pre, event) {
        (PollerState::Idle, PollerEvent::Tick) => {
            &&& post is Fetching
            &&& action is Fetch
        },
        (PollerState::Fetching, PollerEvent::CredentialFailed(reason)) => {
            &&& post is Idle
            &&& action == PollerAction::Abandon(reason)
        },
        (PollerState::Fetching, PollerEvent::Fetched { science: Ok(a), software: Ok(b) }) => {
            &&& post matches PollerState::Merging { science, software }
            &&& science.deep_view() == a.deep_view()
            &&& software.deep_view() == b.deep_view()
            &&& action is Merge
        },
        (PollerState::Fetching, PollerEvent::Fetched { science: Err(reason), software: _ }) => {
            &&& post is Idle
            &&& action == PollerAction::Abandon(reason)
        },
        (PollerState::Fetching, PollerEvent::Fetched { science: Ok(_), software: Err(reason) }) => {
            &&& post is Idle
            &&& action == PollerAction::Abandon(reason)
        },
        (PollerState::Merging { science, software }, PollerEvent::Continue) => {
            &&& post is Publishing
            &&& action matches PollerAction::Publish(snapshot)
            &&& is_ranking_of(snapshot@, science.deep_view() + software.deep_view())
        },
        (PollerState::Publishing, PollerEvent::Published) => {
            &&& post is Idle
            &&& action is AwaitTick
        },
        _ => {
            &&& same_state(post, pre)
            &&& action is Ignore
        },
    }
}

impl PollerState {
    /// The state in which a poller starts.
    pub fn new() -> (state: PollerState)
        ensures
            state is Idle,
    {
        PollerState::Idle
    }

    /// Takes the step that `event` calls for.
    pub fn step(self, event: PollerEvent) -> (next: (PollerState, PollerAction))
        ensures
            poller_step(self, event, next.0, next.1),
    {
        match (self, event) {
            (PollerState::Idle, PollerEvent::Tick) => (PollerState::Fetching, PollerAction::Fetch),
            (PollerState::Fetching, PollerEvent::CredentialFailed(reason)) => (
                PollerState::Idle,
                PollerAction::Abandon(reason),
            ),
            (PollerState::Fetching, PollerEvent::Fetched { science, software }) => {
                match science {
                    Err(reason) => (PollerState::Idle, PollerAction::Abandon(reason)),
                    Ok(science) => match software {
                        Err(reason) => (PollerState::Idle, PollerAction::Abandon(reason)),
                        Ok(software) => (
                            PollerState::Merging { science, software },
                            PollerAction::Merge,
                        ),
                    },
                }
            },
            (PollerState::Merging { science, software }, PollerEvent::Continue) => (
                PollerState::Publishing,
                PollerAction::Publish(Snapshot::merge(science, software)),
            ),
            (PollerState::Publishing, PollerEvent::Published) => (
                PollerState::Idle,
                PollerAction::AwaitTick,
            ),
            (state, _) => (state, PollerAction::Ignore),
        }
    }
}

/// The records that a cycle has to merge: those of both retrievals, where
/// both succeeded, the first category's first.
pub open spec fn fetched_records(event: PollerEvent) -> Option<Seq<StreamRecord>> {
    match event {
        PollerEvent::Fetched { science: Ok(a), software: Ok(b) } => Some(
            a.deep_view() + b.deep_view(),
        ),
        _ => None,
    }
}

/// `states`, `events` and `actions` record a poller that started idle and
/// took one step for each event.
pub open spec fn is_run(
    states: Seq<PollerState>,
    events: Seq<PollerEvent>,
    actions: Seq<PollerAction>,
) -> bool {
    &&& states.len() == events.len() + 1
    &&& actions.len() == events.len()
    &&& states[0] is Idle
    &&& forall|i: int|
        0 <= i < events.len() ==> poller_step(
            states[i],
            #[trigger] events[i],
            states[i + 1],
            actions[i],
        )
}

/// What a cache that held `initial` holds once the driver has carried out
/// `actions` in order: the snapshot of the last `Publish`, if there was one.
pub open spec fn cache_after(initial: Seq<StreamRecord>, actions: Seq<PollerAction>) -> Seq<
    StreamRecord,
>
    decreases actions.len(),
{
    if actions.len() == 0 {
        initial
    } else {
        match actions.last() {
            PollerAction::Publish(snapshot) => snapshot@,
            _ => cache_after(initial, actions.drop_last()),
        }
    }
}

/// `content` is the ranking of all records of one cycle of `events` in
/// which both retrievals succeeded.
pub open spec fn is_merge_of_cycle(events: Seq<PollerEvent>, content: Seq<StreamRecord>) -> bool {
    exists|j: int|
        0 <= j < events.len() && (#[trigger] fetched_records(events[j])) is Some
            && is_ranking_of(content, fetched_records(events[j])->0)
}

proof fn lemma_run_invariant(
    initial: Seq<StreamRecord>,
    states: Seq<PollerState>,
    events: Seq<PollerEvent>,
    actions: Seq<PollerAction>,
)
    requires
        is_run(states, events, actions),
    ensures
        cache_after(initial, actions) == initial || is_merge_of_cycle(
            events,
            cache_after(initial, actions),
        ),
        states.last() matches PollerState::Merging { science, software } ==> exists|j: int|
            0 <= j < events.len() && #[trigger] fetched_records(events[j]) == Some(
                science.deep_view() + software.deep_view(),
            ),
    decreases events.len(),
{
    if events.len() > 0 {
        let n = events.len() - 1;
        let earlier_states = states.drop_last();
        let earlier_events = events.drop_last();
        let earlier_actions = actions.drop_last();
        assert(is_run(earlier_states, earlier_events, earlier_actions)) by {
            assert forall|i: int| 0 <= i < earlier_events.len() implies poller_step(
                earlier_states[i],
                #[trigger] earlier_events[i],
                earlier_states[i + 1],
                earlier_actions[i],
            ) by {
                assert(events[i] == earlier_events[i]);
            }
        }
        lemma_run_invariant(initial, earlier_states, earlier_events, earlier_actions);
        assert(earlier_states.last() == states[n]);
        assert(poller_step(states[n], events[n], states[n + 1], actions[n]));
        let content = cache_after(initial, actions);
        let before = cache_after(initial, earlier_actions);
        if before != initial && content == before {
            let j = choose|j: int|
                0 <= j < earlier_events.len() && (#[trigger] fetched_records(
                    earlier_events[j],
                )) is Some && is_ranking_of(before, fetched_records(earlier_events[j])->0);
            assert(events[j] == earlier_events[j]);
            assert(fetched_records(events[j]) is Some);
        }
        if actions[n] is Publish {
            if let PollerState::Merging { science, software } = states[n] {
                let j = choose|j: int|
                    0 <= j < earlier_events.len() && #[trigger] fetched_records(
                        earlier_events[j],
                    ) == Some(science.deep_view() + software.deep_view());
                assert(events[j] == earlier_events[j]);
                assert(fetched_records(events[j]) is Some);
            }
        }
        if let PollerState::Merging { science, software } = states.last() {
            if states[n] is Fetching {
                assert(fetched_records(events[n]) == Some(
                    science.deep_view() + software.deep_view(),
                ));
            } else {
                assert(same_state(states.last(), states[n]));
                let j = choose|j: int|
                    0 <= j < earlier_events.len() && #[trigger] fetched_records(
                        earlier_events[j],
                    ) == Some(science.deep_view() + software.deep_view());
                assert(events[j] == earlier_events[j]);
            }
        }
    }
}

/// At every moment of every run, a reader finds in the cache either what it
/// held at the start or the complete, ranked records of one cycle in which
/// both retrievals succeeded: never a part of a cycle, and never records of
/// two cycles.
pub proof fn lemma_cache_holds_one_whole_cycle(
    initial: Seq<StreamRecord>,
    states: Seq<PollerState>,
    events: Seq<PollerEvent>,
    actions: Seq<PollerAction>,
)
    requires
        is_run(states, events, actions),
    ensures
        cache_after(initial, actions) == initial || is_merge_of_cycle(
            events,
            cache_after(initial, actions),
        ),
{
    lemma_run_invariant(initial, states, events, actions);
}

/// A cycle in which a retrieval fails, or no credential can be had, hands
/// out nothing for the cache and leaves the poller ready for the next tick.
pub proof fn lemma_failed_cycle_publishes_nothing(
    event: PollerEvent,
    post: PollerState,
    action: PollerAction,
)
    requires
        event is Fetched || event is CredentialFailed,
        fetched_records(event) is None,
        poller_step(PollerState::Fetching, event, post, action),
    ensures
        post is Idle,
        action is Abandon,
{
}

} // verus!
