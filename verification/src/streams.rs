//! Stream records and the pages in which they arrive.

use vstd::prelude::*;
use crate::fetch::Page;

verus! {

/// One live stream as the upstream platform reports it.
///
/// A record is never edited once fetched: a later retrieval replaces it
/// with a fresh record that carries the same `id`.
#[derive(Debug)]
pub struct TwitchStream {
    pub game_id: String,
    pub game_name: String,
    pub id: String,
    pub language: String,
    pub started_at: String,
    pub tag_ids: Option<Vec<String>>,
    pub thumbnail_url: String,
    pub title: String,
    pub user_id: String,
    pub user_name: String,
    pub user_login: String,
    pub viewer_count: u64,
    pub stream_type: String,
}

/// The mathematical content of a [`TwitchStream`].
pub ghost struct StreamRecord {
    pub game_id: Seq<char>,
    pub game_name: Seq<char>,
    pub id: Seq<char>,
    pub language: Seq<char>,
    pub started_at: Seq<char>,
    pub tag_ids: Option<Seq<Seq<char>>>,
    pub thumbnail_url: Seq<char>,
    pub title: Seq<char>,
    pub user_id: Seq<char>,
    pub user_name: Seq<char>,
    pub user_login: Seq<char>,
    pub viewer_count: u64,
    pub stream_type: Seq<char>,
}

impl DeepView for TwitchStream {
    type V = StreamRecord;

    open spec fn deep_view(&self) -> StreamRecord {
        StreamRecord {
            game_id: self.game_id@,
            game_name: self.game_name@,
            id: self.id@,
            language: self.language@,
            started_at: self.started_at@,
            tag_ids: self.tag_ids.deep_view(),
            thumbnail_url: self.thumbnail_url@,
            title: self.title@,
            user_id: self.user_id@,
            user_name: self.user_name@,
            user_login: self.user_login@,
            viewer_count: self.viewer_count,
            stream_type: self.stream_type@,
        }
    }
}

impl View for TwitchStream {
    type V = StreamRecord;

    open spec fn view(&self) -> StreamRecord {
        self.deep_view()
    }
}

/// Copies a list of strings, character for character.
pub fn clone_strings(items: &Vec<String>) -> (copy: Vec<String>)
    ensures
        copy.deep_view() == items.deep_view(),
{
    let mut copy: Vec<String> = Vec::new();
    let mut i: usize = 0;
    while i < items.len()
        invariant
            i <= items.len(),
            copy.len() == i,
            forall|k: int| 0 <= k < i ==> copy[k]@ == items[k]@,
        decreases items.len() - i,
    {
        copy.push(items[i].clone());
        i += 1;
    }
    assert(copy.deep_view() =~= items.deep_view());
    copy
}

/// Where a retrieval goes on: with the cursor, or nowhere if there is none.
#[derive(Debug)]
pub struct TwitchPagination {
    pub cursor: Option<String>,
}

/// One page of stream records. A page without a cursor is the last of its
/// retrieval.
#[derive(Debug)]
pub struct TwitchStreamsResponse {
    pub data: Vec<TwitchStream>,
    pub pagination: TwitchPagination,
}

impl TwitchStreamsResponse {
    /// The page as a retrieval takes it in.
    pub fn into_page(self) -> (page: Page<TwitchStream>)
        ensures
            page.data == self.data,
            page.cursor == self.pagination.cursor,
    {
        Page { data: self.data, cursor: self.pagination.cursor }
    }
}

impl Clone for TwitchStream {
    fn clone(&self) -> (copy: Self)
        ensures
            copy@ == self@,
    {
        let tag_ids = match &self.tag_ids {
            Some(ids) => Some(clone_strings(ids)),
            None => None,
        };
        TwitchStream {
            game_id: self.game_id.clone(),
            game_name: self.game_name.clone(),
            id: self.id.clone(),
            language: self.language.clone(),
            started_at: self.started_at.clone(),
            tag_ids,
            thumbnail_url: self.thumbnail_url.clone(),
            title: self.title.clone(),
            user_id: self.user_id.clone(),
            user_name: self.user_name.clone(),
            user_login: self.user_login.clone(),
            viewer_count: self.viewer_count,
            stream_type: self.stream_type.clone(),
        }
    }
}

} // verus!
