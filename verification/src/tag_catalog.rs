//! The upstream tag catalog and the dictionary made of it.

use vstd::prelude::*;
use vstd::hash_map::StringHashMap;
use crate::fetch::Page;
use crate::streams::TwitchPagination;
use crate::text::lowercase;
use crate::text::replace_text;
use crate::text::replaced;
use crate::text::to_lowercase;

verus! {

/// The names of a tag by locale; only the US English one is read.
#[derive(Debug)]
pub struct Localization {
    pub en_us: String,
}

/// One tag of the upstream catalog.
#[derive(Debug)]
pub struct TwitchTag {
    pub tag_id: String,
    pub localization_names: Localization,
}

/// One page of the upstream tag catalog.
#[derive(Debug)]
pub struct TagResponse {
    pub data: Vec<TwitchTag>,
    pub pagination: TwitchPagination,
}

impl TagResponse {
    /// The page as a retrieval takes it in.
    pub fn into_page(self) -> (page: Page<TwitchTag>)
        ensures
            page.data == self.data,
            page.cursor == self.pagination.cursor,
    {
        Page { data: self.data, cursor: self.pagination.cursor }
    }
}

/// The mathematical content of a [`TwitchTag`].
pub ghost struct TagEntry {
    pub tag_id: Seq<char>,
    pub en_us: Seq<char>,
}

impl DeepView for TwitchTag {
    type V = TagEntry;

    open spec fn deep_view(&self) -> TagEntry {
        TagEntry { tag_id: self.tag_id@, en_us: self.localization_names.en_us@ }
    }
}

/// The name under which a tag is shown: its catalog name in lower case.
pub open spec fn shown_name(en_us: Seq<char>) -> Seq<char> {
    lowercase(en_us)
}

/// The name under which the tag with catalog name `en_us` is shown.
pub fn tag_display_name(en_us: &str) -> (name: String)
    ensures
        name@ == shown_name(en_us@),
{
    to_lowercase(en_us)
}

/// A shorter form of a name, for a display that is pressed for room: each
/// "development" in it becomes "dev". The dictionary keeps the full names.
pub fn abbreviate_development(name: &str) -> (short: String)
    ensures
        short@ == replaced(name@, "development"@, "dev"@),
{
    replace_text(name, "development", "dev")
}

/// The dictionary that a list of catalog tags amounts to: each tag id with
/// its shown name, a later tag replacing an earlier one of the same id.
pub open spec fn catalog(tags: Seq<TagEntry>) -> Map<Seq<char>, Seq<char>>
    decreases tags.len(),
{
    if tags.len() == 0 {
        Map::empty()
    } else {
        catalog(tags.drop_last()).insert(tags.last().tag_id, shown_name(tags.last().en_us))
    }
}

/// From tag id to the name under which the tag is shown.
pub struct TagDictionary {
    names: StringHashMap<String>,
}

impl View for TagDictionary {
    type V = Map<Seq<char>, Seq<char>>;

    closed spec fn view(&self) -> Map<Seq<char>, Seq<char>> {
        self.names@.map_values(|name: String| name@)
    }
}

impl TagDictionary {
    /// The dictionary without entries.
    pub fn new() -> (dictionary: TagDictionary)
        ensures
            dictionary@ == Map::<Seq<char>, Seq<char>>::empty(),
    {
        let names: StringHashMap<String> = StringHashMap::new();
        assert(names@.map_values(|name: String| name@) =~= Map::<Seq<char>, Seq<char>>::empty());
        TagDictionary { names }
    }

    /// Enters `name` for `tag_id`, in place of what stood there.
    pub fn insert(&mut self, tag_id: String, name: String)
        ensures
            final(self)@ == old(self)@.insert(tag_id@, name@),
    {
        self.names.insert(tag_id, name);
        assert(self.names@.map_values(|name: String| name@) =~= old(self).names@.map_values(
            |name: String| name@,
        ).insert(tag_id@, name@));
    }

    /// The name entered for `tag_id`, if there is one.
    pub fn get(&self, tag_id: &str) -> (name: Option<&String>)
        ensures
            name is Some <==> self@.contains_key(tag_id@),
            name matches Some(n) ==> n@ == self@[tag_id@],
    {
        self.names.get(tag_id)
    }

    /// Enters a catalog tag under the name by which it is shown.
    pub fn record(&mut self, tag: TwitchTag)
        ensures
            final(self)@ == old(self)@.insert(tag.tag_id@, shown_name(tag.localization_names.en_us@)),
    {
        let name = tag_display_name(tag.localization_names.en_us.as_str());
        self.insert(tag.tag_id, name);
    }

    /// The dictionary of a whole catalog, its tags taken in the order in
    /// which the pages brought them.
    pub fn from_tags(tags: Vec<TwitchTag>) -> (dictionary: TagDictionary)
        ensures
            dictionary@ == catalog(tags.deep_view()),
    {
        let mut dictionary = TagDictionary::new();
        let ghost all = tags.deep_view();
        for tag in it: tags
            invariant
                it.seq() == tags@,
                all == tags.deep_view(),
                dictionary@ == catalog(all.take(it.index() as int)),
        {
            proof {
                let n = it.index() as int;
                assert(all.take(n + 1).drop_last() =~= all.take(n));
                assert(all.take(n + 1).last() == tag.deep_view());
            }
            dictionary.record(tag);
        }
        proof {
            assert(all.take(all.len() as int) =~= all);
        }
        dictionary
    }
}

} // verus!
