//! What the service holds for as long as it runs.

use vstd::prelude::*;
use crate::category::Category;
use crate::category::CategoryTags;
use crate::filter::filter_streams;
use crate::filter::shown_to_viewer;
use crate::snapshot::Snapshot;
use crate::streams::TwitchStream;
use crate::tag_catalog::TagDictionary;
use crate::token::CredentialAction;
use crate::token::CredentialCache;
use crate::token::CredentialEvent;

verus! {

/// What the service holds unchanged for as long as it runs: who it is to
/// the upstream platform, and the tables by which streams are selected and
/// described.
///
/// Nothing in it changes once it is made, so that readers share it without
/// a lock. The credential, which does change, is kept beside it.
pub struct GlobalConfig {
    pub client_id: String,
    pub client_secret: String,
    pub tags: CategoryTags,
    pub all_tags: TagDictionary,
}

impl GlobalConfig {
    /// Takes `event` to the service's credential cache and says what to
    /// do next.
    pub fn fetch_access_token(&self, credential: &mut CredentialCache, event: CredentialEvent) -> (action:
        CredentialAction)
        ensures
            final(credential)@ == old(credential)@.after(event),
            old(credential)@.answers(event, action),
    {
        credential.step(event)
    }

    /// What a viewer who selected `category`, or none, is shown of a
    /// snapshot read from the cache.
    pub fn get_streams(&self, snapshot: Snapshot, category: Option<Category>) -> (shown: Vec<
        TwitchStream,
    >)
        ensures
            shown.deep_view() == shown_to_viewer(snapshot@, category, self.tags, self.all_tags@),
    {
        filter_streams(snapshot.into_records(), category, &self.tags, &self.all_tags)
    }
}

} // verus!
