use stream_collection::error::UpstreamError;
use stream_collection::fetch::Page;
use stream_collection::fetch::Retrieval;
use stream_collection::streams::TwitchPagination;
use stream_collection::streams::TwitchStream;
use stream_collection::streams::TwitchStreamsResponse;

fn page(data: Vec<u32>, cursor: Option<&str>) -> Result<Page<u32>, UpstreamError> {
    Ok(Page { data, cursor: cursor.map(|c| c.to_string()) })
}

#[test]
fn retrieval_first_asks_with_the_empty_cursor() {
    let retrieval: Retrieval<u32> = Retrieval::begin(10);
    assert_eq!(retrieval.wanted(), Some(&String::new()));
    assert!(retrieval.outcome().is_none());
}

#[test]
fn retrieval_concatenates_pages_in_order() {
    let retrieval: Retrieval<u32> = Retrieval::begin(10);
    let retrieval = retrieval.advance(page(vec![1, 2], Some("c1")));
    assert_eq!(retrieval.wanted(), Some(&"c1".to_string()));
    let retrieval = retrieval.advance(page(vec![], Some("c2")));
    assert_eq!(retrieval.wanted(), Some(&"c2".to_string()));
    let retrieval = retrieval.advance(page(vec![3], None));
    assert_eq!(retrieval.wanted(), None);
    assert_eq!(retrieval.outcome(), Some(Ok(vec![1, 2, 3])));
}

#[test]
fn retrieval_of_a_single_page() {
    let retrieval: Retrieval<u32> = Retrieval::begin(10);
    let retrieval = retrieval.advance(page(vec![4, 5, 6], None));
    assert_eq!(retrieval.outcome(), Some(Ok(vec![4, 5, 6])));
}

#[test]
fn retrieval_of_a_single_empty_page() {
    let retrieval: Retrieval<u32> = Retrieval::begin(10);
    let retrieval = retrieval.advance(page(vec![], None));
    assert_eq!(retrieval.outcome(), Some(Ok(vec![])));
}

#[test]
fn failed_page_discards_what_was_collected() {
    for reason in [UpstreamError::Transport, UpstreamError::Parse, UpstreamError::Auth] {
        let retrieval: Retrieval<u32> = Retrieval::begin(10);
        let retrieval = retrieval.advance(page(vec![1, 2], Some("c1")));
        let retrieval = retrieval.advance(Err(reason));
        assert_eq!(retrieval.wanted(), None);
        assert_eq!(retrieval.outcome(), Some(Err(reason)));
    }
}

#[test]
fn retrieval_stops_at_its_page_limit() {
    let mut retrieval: Retrieval<u32> = Retrieval::begin(3);
    let mut asked = 0;
    while retrieval.wanted().is_some() {
        asked += 1;
        assert!(asked <= 3);
        retrieval = retrieval.advance(page(vec![asked], Some("again")));
    }
    assert_eq!(asked, 3);
    assert_eq!(retrieval.outcome(), Some(Err(UpstreamError::PageLimit)));
}

#[test]
fn last_page_at_the_limit_still_completes() {
    let retrieval: Retrieval<u32> = Retrieval::begin(2);
    let retrieval = retrieval.advance(page(vec![1], Some("c")));
    let retrieval = retrieval.advance(page(vec![2], None));
    assert_eq!(retrieval.outcome(), Some(Ok(vec![1, 2])));
}

#[test]
fn limit_of_zero_still_takes_one_page() {
    let retrieval: Retrieval<u32> = Retrieval::begin(0);
    assert!(retrieval.wanted().is_some());
    let done = retrieval.advance(page(vec![9], None));
    assert_eq!(done.outcome(), Some(Ok(vec![9])));
    let retrieval: Retrieval<u32> = Retrieval::begin(0);
    let aborted = retrieval.advance(page(vec![9], Some("more")));
    assert_eq!(aborted.outcome(), Some(Err(UpstreamError::PageLimit)));
}

#[test]
fn finished_retrieval_ignores_further_pages() {
    let retrieval: Retrieval<u32> = Retrieval::begin(10);
    let retrieval = retrieval.advance(page(vec![1], None));
    let retrieval = retrieval.advance(page(vec![2], Some("c")));
    let retrieval = retrieval.advance(Err(UpstreamError::Transport));
    assert_eq!(retrieval.outcome(), Some(Ok(vec![1])));
    let retrieval: Retrieval<u32> = Retrieval::begin(10);
    let retrieval = retrieval.advance(Err(UpstreamError::Parse));
    let retrieval = retrieval.advance(page(vec![2], None));
    assert_eq!(retrieval.outcome(), Some(Err(UpstreamError::Parse)));
}

#[test]
fn streams_response_becomes_a_page() {
    let response = TwitchStreamsResponse {
        data: vec![TwitchStream {
            game_id: "g".to_string(),
            game_name: "n".to_string(),
            id: "42".to_string(),
            language: "en".to_string(),
            started_at: "t".to_string(),
            tag_ids: None,
            thumbnail_url: "u".to_string(),
            title: "title".to_string(),
            user_id: "1".to_string(),
            user_name: "N".to_string(),
            user_login: "n".to_string(),
            viewer_count: 3,
            stream_type: "live".to_string(),
        }],
        pagination: TwitchPagination { cursor: Some("next".to_string()) },
    };
    let page = response.into_page();
    assert_eq!(page.data.len(), 1);
    assert_eq!(page.data[0].id, "42");
    assert_eq!(page.cursor, Some("next".to_string()));
}
