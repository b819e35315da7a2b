use stream_collection::error::UpstreamError;
use stream_collection::poller::PollerAction;
use stream_collection::poller::PollerEvent;
use stream_collection::poller::PollerState;
use stream_collection::snapshot::Snapshot;
use stream_collection::snapshot::StreamsCache;
use stream_collection::streams::TwitchStream;

fn record(id: &str, viewer_count: u64) -> TwitchStream {
    TwitchStream {
        game_id: "509670".to_string(),
        game_name: "Science & Technology".to_string(),
        id: id.to_string(),
        language: "en".to_string(),
        started_at: String::new(),
        tag_ids: None,
        thumbnail_url: String::new(),
        title: format!("stream {}", id),
        user_id: String::new(),
        user_name: String::new(),
        user_login: String::new(),
        viewer_count,
        stream_type: "live".to_string(),
    }
}

fn cached_ids(cache: &StreamsCache) -> Vec<String> {
    cache.read().records().iter().map(|s| s.id.clone()).collect()
}

/// Runs one cycle as a driver would and applies what the poller asks for.
fn run_cycle(
    state: PollerState,
    cache: &mut StreamsCache,
    science: Result<Vec<TwitchStream>, UpstreamError>,
    software: Result<Vec<TwitchStream>, UpstreamError>,
) -> (PollerState, Option<UpstreamError>) {
    let (state, action) = state.step(PollerEvent::Tick);
    assert!(matches!(action, PollerAction::Fetch));
    let (mut state, mut action) = state.step(PollerEvent::Fetched { science, software });
    let mut abandoned = None;
    loop {
        match action {
            PollerAction::Merge => {
                let next = state.step(PollerEvent::Continue);
                state = next.0;
                action = next.1;
            }
            PollerAction::Publish(snapshot) => {
                cache.publish(snapshot);
                let next = state.step(PollerEvent::Published);
                state = next.0;
                action = next.1;
            }
            PollerAction::Abandon(reason) => {
                abandoned = Some(reason);
                break;
            }
            PollerAction::AwaitTick => break,
            PollerAction::Fetch | PollerAction::Ignore => panic!("unexpected action"),
        }
    }
    (state, abandoned)
}

#[test]
fn poller_starts_idle() {
    assert!(matches!(PollerState::new(), PollerState::Idle));
}

#[test]
fn tick_starts_fetching() {
    let (state, action) = PollerState::new().step(PollerEvent::Tick);
    assert!(matches!(state, PollerState::Fetching));
    assert!(matches!(action, PollerAction::Fetch));
}

#[test]
fn successful_cycle_walks_all_states_and_publishes_the_merge() {
    let (state, _) = PollerState::new().step(PollerEvent::Tick);
    let (state, action) = state.step(PollerEvent::Fetched {
        science: Ok(vec![record("a", 5), record("b", 50)]),
        software: Ok(vec![record("c", 20), record("d", 5)]),
    });
    assert!(matches!(state, PollerState::Merging { .. }));
    assert!(matches!(action, PollerAction::Merge));
    let (state, action) = state.step(PollerEvent::Continue);
    assert!(matches!(state, PollerState::Publishing));
    let snapshot = match action {
        PollerAction::Publish(snapshot) => snapshot,
        _ => panic!("expected a snapshot to publish"),
    };
    let ids: Vec<&str> = snapshot.records().iter().map(|s| s.id.as_str()).collect();
    assert_eq!(ids, vec!["b", "c", "a", "d"]);
    let (state, action) = state.step(PollerEvent::Published);
    assert!(matches!(state, PollerState::Idle));
    assert!(matches!(action, PollerAction::AwaitTick));
}

#[test]
fn failed_retrieval_leaves_cache_unchanged() {
    let mut cache = StreamsCache::new();
    cache.publish(Snapshot::merge(vec![record("old1", 7)], vec![record("old2", 9)]));
    let (state, abandoned) = run_cycle(
        PollerState::new(),
        &mut cache,
        Ok(vec![record("n1", 1), record("n2", 2), record("n3", 3)]),
        Err(UpstreamError::Transport),
    );
    assert!(matches!(state, PollerState::Idle));
    assert_eq!(abandoned, Some(UpstreamError::Transport));
    assert_eq!(cached_ids(&cache), vec!["old2", "old1"]);
}

#[test]
fn failed_first_retrieval_abandons_with_its_reason() {
    let mut cache = StreamsCache::new();
    let (state, abandoned) = run_cycle(
        PollerState::new(),
        &mut cache,
        Err(UpstreamError::Parse),
        Ok(vec![record("n1", 1)]),
    );
    assert!(matches!(state, PollerState::Idle));
    assert_eq!(abandoned, Some(UpstreamError::Parse));
    assert!(cached_ids(&cache).is_empty());
}

#[test]
fn both_retrievals_failing_reports_the_first() {
    let mut cache = StreamsCache::new();
    let (_, abandoned) = run_cycle(
        PollerState::new(),
        &mut cache,
        Err(UpstreamError::Auth),
        Err(UpstreamError::PageLimit),
    );
    assert_eq!(abandoned, Some(UpstreamError::Auth));
}

#[test]
fn credential_failure_abandons_the_cycle() {
    let (state, _) = PollerState::new().step(PollerEvent::Tick);
    let (state, action) = state.step(PollerEvent::CredentialFailed(UpstreamError::Auth));
    assert!(matches!(state, PollerState::Idle));
    assert!(matches!(action, PollerAction::Abandon(UpstreamError::Auth)));
}

#[test]
fn poller_goes_on_after_a_failed_cycle() {
    let mut cache = StreamsCache::new();
    let (state, abandoned) =
        run_cycle(PollerState::new(), &mut cache, Err(UpstreamError::Transport), Ok(Vec::new()));
    assert!(abandoned.is_some());
    let (state, abandoned) =
        run_cycle(state, &mut cache, Ok(vec![record("a", 1)]), Ok(vec![record("b", 2)]));
    assert!(abandoned.is_none());
    assert!(matches!(state, PollerState::Idle));
    assert_eq!(cached_ids(&cache), vec!["b", "a"]);
}

#[test]
fn cache_always_holds_one_whole_cycle() {
    let mut cache = StreamsCache::new();
    let mut state = PollerState::new();
    let mut expected: Vec<String> = Vec::new();
    for round in 0..6u64 {
        let science = vec![record(&format!("s{}", round), round), record(&format!("t{}", round), 3)];
        let software = if round % 2 == 0 {
            Ok(vec![record(&format!("w{}", round), 100)])
        } else {
            Err(UpstreamError::Transport)
        };
        let complete = software.is_ok();
        let next = run_cycle(state, &mut cache, Ok(science), software);
        state = next.0;
        if complete {
            expected = if round > 3 {
                vec![format!("w{}", round), format!("s{}", round), format!("t{}", round)]
            } else {
                vec![format!("w{}", round), format!("t{}", round), format!("s{}", round)]
            };
        }
        assert_eq!(cached_ids(&cache), expected);
    }
}

#[test]
fn events_out_of_place_change_nothing() {
    let (state, action) = PollerState::new().step(PollerEvent::Published);
    assert!(matches!(state, PollerState::Idle));
    assert!(matches!(action, PollerAction::Ignore));
    let (state, action) = state.step(PollerEvent::Continue);
    assert!(matches!(state, PollerState::Idle));
    assert!(matches!(action, PollerAction::Ignore));
    let (state, _) = state.step(PollerEvent::Tick);
    let (state, action) = state.step(PollerEvent::Tick);
    assert!(matches!(state, PollerState::Fetching));
    assert!(matches!(action, PollerAction::Ignore));
    let (state, _) = state.step(PollerEvent::Fetched {
        science: Ok(vec![record("a", 1)]),
        software: Ok(vec![record("b", 2)]),
    });
    let (state, action) = state.step(PollerEvent::Tick);
    assert!(matches!(action, PollerAction::Ignore));
    match state {
        PollerState::Merging { science, software } => {
            assert_eq!(science.len(), 1);
            assert_eq!(science[0].id, "a");
            assert_eq!(software.len(), 1);
            assert_eq!(software[0].id, "b");
        }
        _ => panic!("expected the records to be kept"),
    }
}
