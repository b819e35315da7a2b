//! The addresses and headers of the calls to the upstream platform.

use vstd::prelude::*;
use vstd::string::StringExecFns;
use crate::category::TwitchCategory;

verus! {

/// The query part that continues a retrieval at `after`: nothing for the
/// first page, which has the empty cursor.
pub open spec fn after_query(after: Seq<char>) -> Seq<char> {
    if after.len() == 0 {
        after
    } else {
        "&after="@ + after
    }
}

/// The address of one page of the streams of a content category.
pub open spec fn streams_address(source: TwitchCategory, after: Seq<char>) -> Seq<char> {
    "https://api.twitch.tv/helix/streams?game_id="@ + source.spec_game_id() + "&first=100"@
        + after_query(after)
}

/// The address of one page of the tag catalog.
pub open spec fn tags_address(after: Seq<char>) -> Seq<char> {
    "https://api.twitch.tv/helix/tags/streams?first=100"@ + after_query(after)
}

/// The address of one page of the users that `user_id` follows.
pub open spec fn follows_address(user_id: Seq<char>, after: Seq<char>) -> Seq<char> {
    "https://api.twitch.tv/helix/users/follows?from_id="@ + user_id + "&first=100"@
        + after_query(after)
}

/// The address at which a user is looked up by login.
pub open spec fn user_address(username: Seq<char>) -> Seq<char> {
    "https://api.twitch.tv/helix/users?login="@ + username
}

/// The address at which the stream of a user is looked up by login.
pub open spec fn user_stream_address(username: Seq<char>) -> Seq<char> {
    "https://api.twitch.tv/helix/streams?user_login="@ + username
}

/// The address at which a credential is issued to the client.
pub open spec fn token_address(client_id: Seq<char>, client_secret: Seq<char>) -> Seq<char> {
    "https://id.twitch.tv/oauth2/token?client_id="@ + client_id + "&client_secret="@
        + client_secret + "&grant_type=client_credentials"@
}

/// Appends the query part that continues a retrieval at `after`.
fn push_after_query(url: &mut String, after: &str)
    ensures
        final(url)@ == old(url)@ + after_query(after@),
{
    if after.is_empty() {
        assert(url@ + after@ =~= url@);
    } else {
        url.append("&after=");
        url.append(after);
        assert(url@ =~= old(url)@ + ("&after="@ + after@));
    }
}

/// The address of one page of the streams of a content category.
pub fn streams_url(source: TwitchCategory, after: &str) -> (url: String)
    ensures
        url@ == streams_address(source, after@),
{
    let mut url = String::from_str("https://api.twitch.tv/helix/streams?game_id=");
    url.append(source.game_id());
    url.append("&first=100");
    push_after_query(&mut url, after);
    url
}

/// The address of one page of the tag catalog.
pub fn tags_url(after: &str) -> (url: String)
    ensures
        url@ == tags_address(after@),
{
    let mut url = String::from_str("https://api.twitch.tv/helix/tags/streams?first=100");
    push_after_query(&mut url, after);
    url
}

/// The address of one page of the users that `user_id` follows.
pub fn follows_url(user_id: &str, after: &str) -> (url: String)
    ensures
        url@ == follows_address(user_id@, after@),
{
    let mut url = String::from_str("https://api.twitch.tv/helix/users/follows?from_id=");
    url.append(user_id);
    url.append("&first=100");
    push_after_query(&mut url, after);
    url
}

/// The address at which a user is looked up by login.
pub fn user_url(username: &str) -> (url: String)
    ensures
        url@ == user_address(username@),
{
    String::from_str("https://api.twitch.tv/helix/users?login=").concat(username)
}

/// The address at which the stream of a user is looked up by login.
pub fn user_stream_url(username: &str) -> (url: String)
    ensures
        url@ == user_stream_address(username@),
{
    String::from_str("https://api.twitch.tv/helix/streams?user_login=").concat(username)
}

/// The address at which a credential is issued to the client.
pub fn token_url(client_id: &str, client_secret: &str) -> (url: String)
    ensures
        url@ == token_address(client_id@, client_secret@),
{
    let mut url = String::from_str("https://id.twitch.tv/oauth2/token?client_id=");
    url.append(client_id);
    url.append("&client_secret=");
    url.append(client_secret);
    url.append("&grant_type=client_credentials");
    url
}

/// The authorization header under which the service calls the platform.
pub fn bearer_header(access_token: &str) -> (header: String)
    ensures
        header@ == "Bearer "@ + access_token@,
{
    String::from_str("Bearer ").concat(access_token)
}

/// The authorization header under which a user token is validated.
pub fn oauth_header(access_token: &str) -> (header: String)
    ensures
        header@ == "OAuth "@ + access_token@,
{
    String::from_str("OAuth ").concat(access_token)
}

} // verus!
