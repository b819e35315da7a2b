use stream_collection::auth::bearer_token;
use stream_collection::auth::first_word;
use stream_collection::auth::is_token_valid;
use stream_collection::auth::judge_token_headers;
use stream_collection::auth::AccessTokenError;
use stream_collection::auth::TokenDecision;
use stream_collection::category::default_category;
use stream_collection::category::get_twitch_tag_ids;
use stream_collection::category::Category;
use stream_collection::category::CategoryTags;
use stream_collection::category::TwitchCategory;
use stream_collection::error::UpstreamError;
use stream_collection::requests::bearer_header;
use stream_collection::requests::follows_url;
use stream_collection::requests::oauth_header;
use stream_collection::requests::streams_url;
use stream_collection::requests::tags_url;
use stream_collection::requests::token_url;
use stream_collection::requests::user_stream_url;
use stream_collection::requests::user_url;
use stream_collection::tag_catalog::abbreviate_development;
use stream_collection::tag_catalog::tag_display_name;
use stream_collection::tag_catalog::Localization;
use stream_collection::tag_catalog::TagDictionary;
use stream_collection::tag_catalog::TagResponse;
use stream_collection::tag_catalog::TwitchTag;
use stream_collection::streams::TwitchPagination;
use stream_collection::tags::get_twitch_tag_names;
use stream_collection::text::chars_of;
use stream_collection::text::contains_chars;
use stream_collection::text::contains_text;
use stream_collection::text::matches_at;
use stream_collection::text::replace_text;

#[test]
fn chars_are_read_one_by_one() {
    assert_eq!(chars_of("héllo"), vec!['h', 'é', 'l', 'l', 'o']);
    assert_eq!(chars_of(""), Vec::<char>::new());
}

#[test]
fn part_is_found_anywhere() {
    assert!(contains_text("hello world", "hello"));
    assert!(contains_text("hello world", "o w"));
    assert!(contains_text("hello world", "world"));
    assert!(contains_text("hello world", ""));
    assert!(contains_text("", ""));
    assert!(contains_text("aab", "ab"));
    assert!(!contains_text("hello world", "worlds"));
    assert!(!contains_text("", "a"));
    assert!(!contains_text("abc", "abcd"));
    assert!(!contains_text("abc", "ac"));
}

#[test]
fn part_is_matched_at_a_position() {
    let text = chars_of("abcabc");
    let part = chars_of("bc");
    assert!(!matches_at(&text, &part, 0));
    assert!(matches_at(&text, &part, 1));
    assert!(matches_at(&text, &part, 4));
    assert!(!matches_at(&text, &part, 5));
    assert!(!matches_at(&text, &part, 6));
    assert!(!matches_at(&text, &part, 7));
    assert!(matches_at(&text, &Vec::new(), 6));
    assert!(!matches_at(&text, &Vec::new(), 7));
    assert!(contains_chars(&text, &part));
}

#[test]
fn replace_takes_occurrences_from_the_left() {
    assert_eq!(replace_text("web development", "development", "dev"), "web dev");
    assert_eq!(replace_text("development development", "development", "dev"), "dev dev");
    assert_eq!(replace_text("developmentdevelopment", "development", "dev"), "devdev");
    assert_eq!(replace_text("aaa", "aa", "b"), "ba");
    assert_eq!(replace_text("aaaa", "aa", "b"), "bb");
    assert_eq!(replace_text("abc", "x", "y"), "abc");
    assert_eq!(replace_text("", "x", "y"), "");
    assert_eq!(replace_text("abc", "abc", ""), "");
    assert_eq!(replace_text("ab", "abc", "z"), "ab");
    assert_eq!(replace_text("grüße development", "development", "dev"), "grüße dev");
}

#[test]
fn replace_of_empty_pattern_changes_nothing() {
    assert_eq!(replace_text("abc", "", "-"), "abc");
}

#[test]
fn shown_tag_name_is_the_lower_case_name() {
    assert_eq!(tag_display_name("Game Development"), "game development");
    assert_eq!(tag_display_name("Web Development"), "web development");
    assert_eq!(tag_display_name("DEVELOPMENT"), "development");
    assert_eq!(tag_display_name("Rust"), "rust");
    assert_eq!(tag_display_name("already lower"), "already lower");
    assert_eq!(tag_display_name("ÄÖÜ Straße"), "äöü straße");
    assert_eq!(tag_display_name(""), "");
}

#[test]
fn development_is_shortened_where_asked() {
    assert_eq!(abbreviate_development("Development"), "Development");
    assert_eq!(abbreviate_development("software development"), "software dev");
    assert_eq!(abbreviate_development("development"), "dev");
    assert_eq!(abbreviate_development("rust"), "rust");
}

fn tag(id: &str, name: &str) -> TwitchTag {
    TwitchTag { tag_id: id.to_string(), localization_names: Localization { en_us: name.to_string() } }
}

#[test]
fn dictionary_of_a_catalog_prefers_later_tags() {
    let dictionary = TagDictionary::from_tags(vec![
        tag("1", "Game Development"),
        tag("2", "Rust"),
        tag("1", "Mobile Development"),
    ]);
    assert_eq!(dictionary.get("1"), Some(&"mobile development".to_string()));
    assert_eq!(dictionary.get("2"), Some(&"rust".to_string()));
    assert_eq!(dictionary.get("3"), None);
}

#[test]
fn dictionary_records_and_replaces() {
    let mut dictionary = TagDictionary::new();
    assert_eq!(dictionary.get("a"), None);
    dictionary.insert("a".to_string(), "first".to_string());
    dictionary.insert("a".to_string(), "second".to_string());
    dictionary.record(tag("b", "Web Development"));
    assert_eq!(dictionary.get("a"), Some(&"second".to_string()));
    assert_eq!(dictionary.get("b"), Some(&"web development".to_string()));
    assert_eq!(TagDictionary::from_tags(Vec::new()).get("a"), None);
}

#[test]
fn tag_response_becomes_a_page() {
    let page = TagResponse { data: vec![tag("1", "One")], pagination: TwitchPagination { cursor: None } }
        .into_page();
    assert_eq!(page.data.len(), 1);
    assert_eq!(page.data[0].tag_id, "1");
    assert_eq!(page.cursor, None);
}

#[test]
fn tag_ids_of_the_topics() {
    let tags = get_twitch_tag_ids();
    assert_eq!(tags.programming, "a59f1e4e-257b-4bd0-90c7-189c3efbf917");
    assert_eq!(tags.web_development, "c23ce252-cf78-4b98-8c11-8769801aaf3a");
    assert_eq!(tags.game_development, "f588bd74-e496-4d11-9169-3597f38a5d25");
    assert_eq!(tags.mobile_development, "6e23d976-33ec-47e8-b22b-3727acd41862");
    assert_eq!(tags.get(Category::Programming), "a59f1e4e-257b-4bd0-90c7-189c3efbf917");
    assert_eq!(tags.get(Category::WebDevelopment), "c23ce252-cf78-4b98-8c11-8769801aaf3a");
    assert_eq!(tags.get(Category::GameDevelopment), "f588bd74-e496-4d11-9169-3597f38a5d25");
    assert_eq!(tags.get(Category::MobileDevelopment), "6e23d976-33ec-47e8-b22b-3727acd41862");
}

#[test]
fn topic_of_a_tag_id() {
    let tags = get_twitch_tag_ids();
    assert_eq!(
        tags.category_of(&"f588bd74-e496-4d11-9169-3597f38a5d25".to_string()),
        Some(Category::GameDevelopment)
    );
    assert_eq!(tags.category_of(&"unknown".to_string()), None);
    let shared = CategoryTags {
        programming: "same".to_string(),
        web_development: "same".to_string(),
        game_development: "g".to_string(),
        mobile_development: "g".to_string(),
    };
    assert_eq!(shared.category_of(&"same".to_string()), Some(Category::Programming));
    assert_eq!(shared.category_of(&"g".to_string()), Some(Category::GameDevelopment));
}

#[test]
fn topic_names_for_tag_ids() {
    let tags = get_twitch_tag_ids();
    let names = get_twitch_tag_names(
        vec![
            "6e23d976-33ec-47e8-b22b-3727acd41862".to_string(),
            "not a topic".to_string(),
            "a59f1e4e-257b-4bd0-90c7-189c3efbf917".to_string(),
            "c23ce252-cf78-4b98-8c11-8769801aaf3a".to_string(),
            "f588bd74-e496-4d11-9169-3597f38a5d25".to_string(),
            "a59f1e4e-257b-4bd0-90c7-189c3efbf917".to_string(),
        ],
        &tags,
    );
    assert_eq!(names, vec!["mobile dev", "programming", "web dev", "game dev", "programming"]);
    assert!(get_twitch_tag_names(Vec::new(), &tags).is_empty());
    assert!(get_twitch_tag_names(vec!["x".to_string()], &tags).is_empty());
}

#[test]
fn content_categories_and_names() {
    assert_eq!(TwitchCategory::ScienceAndTechnology.game_id(), "509670");
    assert_eq!(TwitchCategory::SoftwareAndGameDevelopment.game_id(), "1469308723");
    assert_eq!(default_category(), TwitchCategory::SoftwareAndGameDevelopment);
    for topic in [
        Category::Programming,
        Category::WebDevelopment,
        Category::GameDevelopment,
        Category::MobileDevelopment,
    ] {
        assert_eq!(topic.content_category(), TwitchCategory::SoftwareAndGameDevelopment);
    }
    assert_eq!(Category::Programming.display_name(), "programming");
    assert_eq!(Category::WebDevelopment.display_name(), "web dev");
    assert_eq!(Category::GameDevelopment.display_name(), "game dev");
    assert_eq!(Category::MobileDevelopment.display_name(), "mobile dev");
}

#[test]
fn addresses_of_the_upstream_calls() {
    assert_eq!(
        streams_url(TwitchCategory::ScienceAndTechnology, ""),
        "https://api.twitch.tv/helix/streams?game_id=509670&first=100"
    );
    assert_eq!(
        streams_url(TwitchCategory::SoftwareAndGameDevelopment, "abc"),
        "https://api.twitch.tv/helix/streams?game_id=1469308723&first=100&after=abc"
    );
    assert_eq!(tags_url(""), "https://api.twitch.tv/helix/tags/streams?first=100");
    assert_eq!(tags_url("c9"), "https://api.twitch.tv/helix/tags/streams?first=100&after=c9");
    assert_eq!(
        follows_url("77", ""),
        "https://api.twitch.tv/helix/users/follows?from_id=77&first=100"
    );
    assert_eq!(
        follows_url("77", "xyz"),
        "https://api.twitch.tv/helix/users/follows?from_id=77&first=100&after=xyz"
    );
    assert_eq!(user_url("somebody"), "https://api.twitch.tv/helix/users?login=somebody");
    assert_eq!(user_stream_url("somebody"), "https://api.twitch.tv/helix/streams?user_login=somebody");
    assert_eq!(
        token_url("me", "hush"),
        "https://id.twitch.tv/oauth2/token?client_id=me&client_secret=hush&grant_type=client_credentials"
    );
    assert_eq!(bearer_header("tok"), "Bearer tok");
    assert_eq!(oauth_header("tok"), "OAuth tok");
}

#[test]
fn token_header_names_bearer() {
    assert!(is_token_valid("Bearer abc"));
    assert!(is_token_valid("Bearer"));
    assert!(is_token_valid("Bearer "));
    assert!(is_token_valid("Bearer abc def"));
    assert!(!is_token_valid("bearer abc"));
    assert!(!is_token_valid("Bearerabc"));
    assert!(!is_token_valid(" Bearer abc"));
    assert!(!is_token_valid("OAuth abc"));
    assert!(!is_token_valid(""));
}

#[test]
fn first_word_ends_at_the_first_space() {
    assert_eq!(first_word("abc def"), "abc");
    assert_eq!(first_word("abc"), "abc");
    assert_eq!(first_word(" abc"), "");
    assert_eq!(first_word(""), "");
    assert_eq!(first_word("tökén rest"), "tökén");
}

#[test]
fn bearer_value_stands_behind_the_scheme() {
    assert_eq!(bearer_token("Bearer abc"), Some("abc".to_string()));
    assert_eq!(bearer_token("Bearer abc def"), Some("abc".to_string()));
    assert_eq!(bearer_token("Bearer "), Some(String::new()));
    assert_eq!(bearer_token("Bearer  abc"), Some(String::new()));
    assert_eq!(bearer_token("Bearer"), None);
    assert_eq!(bearer_token("Basic abc"), None);
    assert_eq!(bearer_token(""), None);
}

#[test]
fn token_headers_are_judged() {
    assert!(matches!(
        judge_token_headers(&Vec::new()),
        TokenDecision::Reject(AccessTokenError::Missing)
    ));
    match judge_token_headers(&vec!["Bearer abc".to_string()]) {
        TokenDecision::Authenticate(value) => assert_eq!(value, "abc"),
        other => panic!("expected a token to validate, got {:?}", other),
    }
    for headers in [
        vec!["Bearer".to_string()],
        vec!["Basic abc".to_string()],
        vec!["Bearer abc".to_string(), "Bearer def".to_string()],
        vec![String::new()],
    ] {
        assert!(matches!(
            judge_token_headers(&headers),
            TokenDecision::Reject(AccessTokenError::Invalid)
        ));
    }
}

#[test]
fn only_a_failed_lookup_reaches_the_client() {
    assert!(UpstreamError::NotFound.reaches_client());
    assert!(!UpstreamError::Transport.reaches_client());
    assert!(!UpstreamError::Auth.reaches_client());
    assert!(!UpstreamError::Parse.reaches_client());
    assert!(!UpstreamError::PageLimit.reaches_client());
}

#[test]
fn status_200_is_no_failure() {
    for refused in [
        UpstreamError::Transport,
        UpstreamError::Auth,
        UpstreamError::NotFound,
        UpstreamError::Parse,
        UpstreamError::PageLimit,
    ] {
        assert_eq!(UpstreamError::of_status(200, refused), None);
    }
}

#[test]
fn refused_lookup_is_not_found_on_every_status() {
    for status in [0, 199, 201, 204, 301, 400, 401, 403, 404, 429, 500, 503, u16::MAX] {
        assert_eq!(
            UpstreamError::of_status(status, UpstreamError::NotFound),
            Some(UpstreamError::NotFound)
        );
    }
}

#[test]
fn rejected_credential_is_told_apart_from_other_refusals() {
    assert_eq!(
        UpstreamError::of_status(401, UpstreamError::Transport),
        Some(UpstreamError::Auth)
    );
    assert_eq!(
        UpstreamError::of_status(403, UpstreamError::Transport),
        Some(UpstreamError::Auth)
    );
    assert_eq!(
        UpstreamError::of_status(401, UpstreamError::Parse),
        Some(UpstreamError::Auth)
    );
    for status in [0, 201, 400, 402, 404, 500, 503] {
        assert_eq!(
            UpstreamError::of_status(status, UpstreamError::Transport),
            Some(UpstreamError::Transport)
        );
        assert_eq!(
            UpstreamError::of_status(status, UpstreamError::Auth),
            Some(UpstreamError::Auth)
        );
    }
}

#[test]
fn failures_have_names() {
    assert_eq!(UpstreamError::Transport.describe(), "transport error");
    assert_eq!(UpstreamError::Auth.describe(), "credential rejected");
    assert_eq!(UpstreamError::NotFound.describe(), "not found");
    assert_eq!(UpstreamError::Parse.describe(), "malformed payload");
    assert_eq!(UpstreamError::PageLimit.describe(), "page limit reached");
}
