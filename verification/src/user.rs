//! Users, their follows and their streams.

use vstd::prelude::*;
use crate::error::UpstreamError;
use crate::fetch::Page;
use crate::streams::StreamRecord;
use crate::streams::TwitchPagination;
use crate::streams::TwitchStream;
use crate::streams::TwitchStreamsResponse;

verus! {

/// A user of the upstream platform.
#[derive(Debug)]
pub struct TwitchUser {
    pub id: String,
    pub login: String,
    pub display_name: String,
    pub user_type: String,
    pub broadcaster_type: String,
    pub description: String,
    pub profile_image_url: String,
    pub offline_image_url: String,
    pub view_count: u32,
}

/// The answer to a lookup of users by login.
#[derive(Debug)]
pub struct TwitchUserResponse {
    pub data: Vec<TwitchUser>,
}

/// One user following another.
#[derive(Debug)]
pub struct TwitchUserFollow {
    pub from_id: String,
    pub from_login: String,
    pub from_name: String,
    pub to_id: String,
    pub to_name: String,
    pub followed_at: String,
}

/// One page of the users that a user follows.
#[derive(Debug)]
pub struct TwitchUserFollows {
    pub data: Vec<TwitchUserFollow>,
    pub pagination: TwitchPagination,
}

impl TwitchUserFollows {
    /// The page as a retrieval takes it in.
    pub fn into_page(self) -> (page: Page<TwitchUserFollow>)
        ensures
            page.data == self.data,
            page.cursor == self.pagination.cursor,
    {
        Page { data: self.data, cursor: self.pagination.cursor }
    }
}

/// What is known of one user: the user, and the stream if the user is live.
#[derive(Debug)]
pub struct StreamDetail {
    pub stream_info: Option<TwitchStream>,
    pub user_info: Option<TwitchUser>,
}

/// The one item of a list of one, and nothing of any other list.
pub open spec fn only<T>(items: Seq<T>) -> Option<T> {
    if items.len() == 1 {
        Some(items[0])
    } else {
        None
    }
}

/// The one item of a list of one, and nothing of any other list.
pub fn take_only<T>(items: Vec<T>) -> (item: Option<T>)
    ensures
        item == only(items@),
{
    let mut items = items;
    if items.len() == 1 {
        items.pop()
    } else {
        None
    }
}

/// What the two lookups for one login amount to. The user lookup must
/// have found exactly one user, else the user counts as not found. The
/// stream lookup tells the stream where it found exactly one, and no
/// stream otherwise. A lookup that failed fails the whole with its reason,
/// the user lookup first.
pub open spec fn detail_of(
    users: Result<TwitchUserResponse, UpstreamError>,
    streams: Result<TwitchStreamsResponse, UpstreamError>,
) -> Result<StreamDetail, UpstreamError> {
    match users {
        Err(reason) => Err(reason),
        Ok(found) => match only(found.data@) {
            None => Err(UpstreamError::NotFound),
            Some(user) => match streams {
                Err(reason) => Err(reason),
                Ok(live) => Ok(
                    StreamDetail { stream_info: only(live.data@), user_info: Some(user) },
                ),
            },
        },
    }
}

/// Puts the answers of the two lookups for one login together.
pub fn stream_detail(
    users: Result<TwitchUserResponse, UpstreamError>,
    streams: Result<TwitchStreamsResponse, UpstreamError>,
) -> (detail: Result<StreamDetail, UpstreamError>)
    ensures
        detail == detail_of(users, streams),
{
    let found = match users {
        Err(reason) => {
            return Err(reason);
        },
        Ok(found) => found,
    };
    let user = match take_only(found.data) {
        None => {
            return Err(UpstreamError::NotFound);
        },
        Some(user) => user,
    };
    match streams {
        Err(reason) => Err(reason),
        Ok(live) => Ok(StreamDetail { stream_info: take_only(live.data), user_info: Some(user) }),
    }
}

/// One of `streams` is broadcast by the user `user_id`.
pub open spec fn is_live(streams: Seq<StreamRecord>, user_id: Seq<char>) -> bool {
    exists|i: int| 0 <= i < streams.len() && (#[trigger] streams[i]).user_id == user_id
}

/// Whether one of `streams` is broadcast by the user `user_id`.
pub fn broadcasts(streams: &Vec<TwitchStream>, user_id: &String) -> (live: bool)
    ensures
        live == is_live(streams.deep_view(), user_id@),
{
    let mut i: usize = 0;
    while i < streams.len()
        invariant
            i <= streams.len(),
            forall|k: int| 0 <= k < i ==> streams[k].user_id@ != user_id@,
        decreases streams.len() - i,
    {
        if streams[i].user_id == *user_id {
            assert(streams.deep_view()[i as int].user_id == user_id@);
            return true;
        }
        i += 1;
    }
    assert forall|k: int| 0 <= k < streams.deep_view().len() implies (
    #[trigger] streams.deep_view()[k]).user_id != user_id@ by {
        assert(streams[k].user_id@ != user_id@);
    }
    false
}

/// The follows whose followed user broadcasts one of `streams`, in the
/// order of `follows`.
pub open spec fn live_among(follows: Seq<TwitchUserFollow>, streams: Seq<StreamRecord>) -> Seq<
    TwitchUserFollow,
> {
    follows.filter(|follow: TwitchUserFollow| is_live(streams, follow.to_id@))
}

/// Keeps the follows whose followed user is broadcasting.
pub fn live_follows(follows: Vec<TwitchUserFollow>, streams: &Vec<TwitchStream>) -> (live: Vec<
    TwitchUserFollow,
>)
    ensures
        live@ == live_among(follows@, streams.deep_view()),
{
    let mut live: Vec<TwitchUserFollow> = Vec::new();
    proof {
        reveal(Seq::filter);
        assert(follows@.take(0) =~= Seq::<TwitchUserFollow>::empty());
    }
    for follow in it: follows
        invariant
            it.seq() == follows@,
            live@ == live_among(follows@.take(it.index() as int), streams.deep_view()),
    {
        proof {
            reveal(Seq::filter);
            let n = it.index() as int;
            assert(follows@.take(n + 1).drop_last() =~= follows@.take(n));
            assert(follows@.take(n + 1).last() == follow);
        }
        if broadcasts(streams, &follow.to_id) {
            live.push(follow);
        }
    }
    proof {
        assert(follows@.take(follows@.len() as int) =~= follows@);
    }
    live
}

} // verus!
