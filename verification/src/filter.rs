//! The selection of what a viewer is shown of a snapshot: the content
//! policy, the match by topic, and the names of the tags.

use vstd::prelude::*;
use vstd::string::StringExecFns;
use crate::category::default_category;
use crate::category::spec_default_category;
use crate::category::Category;
use crate::category::CategoryTags;
use crate::streams::StreamRecord;
use crate::streams::TwitchStream;
use crate::tag_catalog::TagDictionary;
use crate::text::chars_of;
use crate::text::contains_chars;
use crate::text::has_part;
use crate::text::lowercase;
use crate::text::to_lowercase;

verus! {

/// A lower-case title holds one of the terms that keep a stream from
/// being shown.
pub open spec fn has_blacklisted_term(lowered: Seq<char>) -> bool {
    ||| has_part(lowered, "minecraft"@)
    ||| has_part(lowered, "fortnite"@)
    ||| has_part(lowered, "pokemon"@)
}

/// The content policy: a title is refused if, letter case apart, it holds
/// one of the blacklisted terms.
pub open spec fn is_blacklisted(title: Seq<char>) -> bool {
    has_blacklisted_term(lowercase(title))
}

/// Whether a lower-case title holds a blacklisted term.
pub fn mentions_blacklisted_term(lowered: &str) -> (found: bool)
    ensures
        found == has_blacklisted_term(lowered@),
{
    let text = chars_of(lowered);
    let minecraft = chars_of("minecraft");
    let fortnite = chars_of("fortnite");
    let pokemon = chars_of("pokemon");
    contains_chars(&text, &minecraft) || contains_chars(&text, &fortnite) || contains_chars(
        &text,
        &pokemon,
    )
}

/// Whether the content policy refuses a stream with this title.
pub fn title_is_blacklisted(title: &str) -> (refused: bool)
    ensures
        refused == is_blacklisted(title@),
{
    let lowered = to_lowercase(title);
    mentions_blacklisted_term(lowered.as_str())
}

/// The record lists `tag_id` among its tags.
pub open spec fn carries_tag(record: StreamRecord, tag_id: Seq<char>) -> bool {
    record.tag_ids matches Some(ids) && ids.contains(tag_id)
}

/// The record passes the content policy and belongs to what was asked for:
/// it is of the content category `game_id`, or it carries the tag `tag`
/// where one is given. Either of the two suffices.
pub open spec fn admitted(record: StreamRecord, tag: Option<Seq<char>>, game_id: Seq<char>) -> bool {
    &&& !is_blacklisted(record.title)
    &&& (record.game_id == game_id || (tag matches Some(tag_id) && carries_tag(record, tag_id)))
}

/// The names to show for a record's tags: "programming" where the record
/// has no tag list, else the dictionary's name for each tag id that the
/// dictionary knows, in the order of the list. A tag id that the dictionary
/// does not know is left out.
pub open spec fn shown_tags(tag_ids: Option<Seq<Seq<char>>>, names: Map<Seq<char>, Seq<char>>) -> Seq<
    Seq<char>,
> {
    match tag_ids {
        None => seq!["programming"@],
        Some(ids) => ids.filter(|id: Seq<char>| names.contains_key(id)).map_values(
            |id: Seq<char>| names[id],
        ),
    }
}

/// The record with its tag ids replaced by the names to show.
pub open spec fn with_shown_tags(record: StreamRecord, names: Map<Seq<char>, Seq<char>>) -> StreamRecord {
    StreamRecord { tag_ids: Some(shown_tags(record.tag_ids, names)), ..record }
}

/// What is shown of a snapshot: its admitted records, in the snapshot's
/// order, each with the names of its tags.
pub open spec fn selection(
    snapshot: Seq<StreamRecord>,
    tag: Option<Seq<char>>,
    game_id: Seq<char>,
    names: Map<Seq<char>, Seq<char>>,
) -> Seq<StreamRecord> {
    snapshot.filter(|record: StreamRecord| admitted(record, tag, game_id)).map_values(
        |record: StreamRecord| with_shown_tags(record, names),
    )
}

/// What a viewer sees who selected `category`, or none.
pub open spec fn shown_to_viewer(
    snapshot: Seq<StreamRecord>,
    category: Option<Category>,
    tags: CategoryTags,
    names: Map<Seq<char>, Seq<char>>,
) -> Seq<StreamRecord> {
    match category {
        Some(topic) => selection(
            snapshot,
            Some(tags.spec_get(topic)),
            topic.spec_content_category().spec_game_id(),
            names,
        ),
        None => selection(snapshot, None, spec_default_category().spec_game_id(), names),
    }
}

/// What is shown depends on nothing but the snapshot, the selection and
/// the content of the two tables: two runs of the filter on the same show
/// the same.
pub proof fn lemma_filter_is_repeatable(
    snapshot: Seq<StreamRecord>,
    category: Option<Category>,
    tags: CategoryTags,
    again: CategoryTags,
    names: Map<Seq<char>, Seq<char>>,
)
    requires
        forall|topic: Category| tags.spec_get(topic) == again.spec_get(topic),
    ensures
        shown_to_viewer(snapshot, category, tags, names) == shown_to_viewer(
            snapshot,
            category,
            again,
            names,
        ),
{
    if let Some(topic) = category {
        assert(tags.spec_get(topic) == again.spec_get(topic));
    }
}

/// A record that is admitted without a tag is admitted with any tag: to
/// select a topic never hides a stream of the topic's content category.
pub proof fn lemma_tag_only_broadens(record: StreamRecord, tag: Seq<char>, game_id: Seq<char>)
    requires
        admitted(record, None, game_id),
    ensures
        admitted(record, Some(tag), game_id),
{
}

/// Every record that is shown passes the content policy and carries tag
/// names, and no more records are shown than the snapshot holds.
pub proof fn lemma_shown_records_pass_policy(
    snapshot: Seq<StreamRecord>,
    tag: Option<Seq<char>>,
    game_id: Seq<char>,
    names: Map<Seq<char>, Seq<char>>,
)
    ensures
        selection(snapshot, tag, game_id, names).len() <= snapshot.len(),
        forall|i: int|
            0 <= i < selection(snapshot, tag, game_id, names).len() ==> {
                let shown = #[trigger] selection(snapshot, tag, game_id, names)[i];
                !is_blacklisted(shown.title) && shown.tag_ids is Some
            },
{
    let keep = |record: StreamRecord| admitted(record, tag, game_id);
    let kept = snapshot.filter(keep);
    snapshot.lemma_filter_len(keep);
    assert forall|i: int| 0 <= i < selection(snapshot, tag, game_id, names).len() implies {
        let shown = #[trigger] selection(snapshot, tag, game_id, names)[i];
        !is_blacklisted(shown.title) && shown.tag_ids is Some
    } by {
        snapshot.lemma_filter_pred(keep, i);
        assert(admitted(kept[i], tag, game_id));
    }
}

proof fn lemma_shown_tags_step(
    ids: Seq<Seq<char>>,
    names: Map<Seq<char>, Seq<char>>,
    n: int,
)
    requires
        0 <= n < ids.len(),
    ensures
        shown_tags(Some(ids.take(n + 1)), names) == if names.contains_key(ids[n]) {
            shown_tags(Some(ids.take(n)), names).push(names[ids[n]])
        } else {
            shown_tags(Some(ids.take(n)), names)
        },
{
    reveal(Seq::filter);
    let known = |id: Seq<char>| names.contains_key(id);
    assert(ids.take(n + 1).drop_last() =~= ids.take(n));
    assert(ids.take(n + 1).last() == ids[n]);
    if names.contains_key(ids[n]) {
        assert(ids.take(n + 1).filter(known) == ids.take(n).filter(known).push(ids[n]));
        assert(shown_tags(Some(ids.take(n + 1)), names) =~= shown_tags(
            Some(ids.take(n)),
            names,
        ).push(names[ids[n]]));
    } else {
        assert(ids.take(n + 1).filter(known) == ids.take(n).filter(known));
    }
}

proof fn lemma_selection_step(
    snapshot: Seq<StreamRecord>,
    tag: Option<Seq<char>>,
    game_id: Seq<char>,
    names: Map<Seq<char>, Seq<char>>,
    n: int,
)
    requires
        0 <= n < snapshot.len(),
    ensures
        selection(snapshot.take(n + 1), tag, game_id, names) == if admitted(
            snapshot[n],
            tag,
            game_id,
        ) {
            selection(snapshot.take(n), tag, game_id, names).push(
                with_shown_tags(snapshot[n], names),
            )
        } else {
            selection(snapshot.take(n), tag, game_id, names)
        },
{
    reveal(Seq::filter);
    let keep = |record: StreamRecord| admitted(record, tag, game_id);
    assert(snapshot.take(n + 1).drop_last() =~= snapshot.take(n));
    assert(snapshot.take(n + 1).last() == snapshot[n]);
    if admitted(snapshot[n], tag, game_id) {
        assert(snapshot.take(n + 1).filter(keep) == snapshot.take(n).filter(keep).push(
            snapshot[n],
        ));
        assert(selection(snapshot.take(n + 1), tag, game_id, names) =~= selection(
            snapshot.take(n),
            tag,
            game_id,
            names,
        ).push(with_shown_tags(snapshot[n], names)));
    } else {
        assert(snapshot.take(n + 1).filter(keep) == snapshot.take(n).filter(keep));
    }
}

/// The names to show for a record's tags.
pub fn tag_names(tag_ids: &Option<Vec<String>>, all_tags: &TagDictionary) -> (shown: Vec<String>)
    ensures
        shown.deep_view() == shown_tags(tag_ids.deep_view(), all_tags@),
{
    let mut shown: Vec<String> = Vec::new();
    match tag_ids {
        None => {
            shown.push(String::from_str("programming"));
            assert(shown.deep_view() =~= seq!["programming"@]);
        },
        Some(ids) => {
            let ghost all = ids.deep_view();
            let mut i: usize = 0;
            proof {
                reveal(Seq::filter);
                assert(all.take(0) =~= Seq::<Seq<char>>::empty());
                assert(shown.deep_view() =~= shown_tags(Some(all.take(0)), all_tags@));
            }
            while i < ids.len()
                invariant
                    i <= ids.len(),
                    all == ids.deep_view(),
                    shown.deep_view() == shown_tags(Some(all.take(i as int)), all_tags@),
                decreases ids.len() - i,
            {
                let ghost before = shown.deep_view();
                proof {
                    lemma_shown_tags_step(all, all_tags@, i as int);
                }
                match all_tags.get(ids[i].as_str()) {
                    Some(name) => {
                        shown.push(name.clone());
                        assert(shown.deep_view() =~= before.push(name@));
                    },
                    None => {},
                }
                i += 1;
            }
            proof {
                assert(all.take(all.len() as int) =~= all);
            }
        },
    }
    shown
}

/// Whether `tag_ids` lists `tag_id`.
fn lists_tag(tag_ids: &Option<Vec<String>>, tag_id: &String) -> (found: bool)
    ensures
        found == (tag_ids.deep_view() matches Some(ids) && ids.contains(tag_id@)),
{
    match tag_ids {
        None => false,
        Some(ids) => {
            let mut i: usize = 0;
            while i < ids.len()
                invariant
                    i <= ids.len(),
                    tag_ids.deep_view() == Some(ids.deep_view()),
                    forall|k: int| 0 <= k < i ==> ids[k]@ != tag_id@,
                decreases ids.len() - i,
            {
                if ids[i] == *tag_id {
                    proof {
                        let listed = ids.deep_view();
                        assert(listed[i as int] == tag_id@);
                        assert(listed.contains(tag_id@));
                    }
                    return true;
                }
                i += 1;
            }
            false
        },
    }
}

/// Whether the record is admitted.
fn admits(stream: &TwitchStream, tag: &Option<String>, game_id: &String) -> (admitted: bool)
    ensures
        admitted == self::admitted(stream.deep_view(), tag.deep_view(), game_id@),
{
    if title_is_blacklisted(stream.title.as_str()) {
        return false;
    }
    if stream.game_id == *game_id {
        return true;
    }
    match tag {
        Some(tag_id) => lists_tag(&stream.tag_ids, tag_id),
        None => false,
    }
}

/// Keeps the admitted records and gives each the names of its tags.
fn select(
    streams: Vec<TwitchStream>,
    tag: Option<String>,
    game_id: String,
    all_tags: &TagDictionary,
) -> (shown: Vec<TwitchStream>)
    ensures
        shown.deep_view() == selection(streams.deep_view(), tag.deep_view(), game_id@, all_tags@),
{
    let ghost snapshot = streams.deep_view();
    let mut shown: Vec<TwitchStream> = Vec::new();
    proof {
        reveal(Seq::filter);
        assert(snapshot.take(0) =~= Seq::<StreamRecord>::empty());
        assert(shown.deep_view() =~= selection(
            snapshot.take(0),
            tag.deep_view(),
            game_id@,
            all_tags@,
        ));
    }
    for stream in it: streams
        invariant
            it.seq() == streams@,
            snapshot == streams.deep_view(),
            shown.deep_view() == selection(
                snapshot.take(it.index() as int),
                tag.deep_view(),
                game_id@,
                all_tags@,
            ),
    {
        let ghost before = shown.deep_view();
        proof {
            lemma_selection_step(snapshot, tag.deep_view(), game_id@, all_tags@, it.index() as int);
            assert(snapshot[it.index() as int] == stream.deep_view());
        }
        if admits(&stream, &tag, &game_id) {
            let names = tag_names(&stream.tag_ids, all_tags);
            let mut rewritten = stream;
            rewritten.tag_ids = Some(names);
            assert(rewritten.deep_view() == with_shown_tags(stream.deep_view(), all_tags@));
            shown.push(rewritten);
            assert(shown.deep_view() =~= before.push(rewritten.deep_view()));
        }
    }
    proof {
        assert(snapshot.take(snapshot.len() as int) =~= snapshot);
    }
    shown
}

/// What is shown to a viewer who selected a topic: the records that pass
/// the content policy and either carry the topic's tag `category_tag` or
/// are of the topic's content category `category_game_id`, each with the
/// names of its tags.
pub fn filter_by_category(
    streams: Vec<TwitchStream>,
    category_tag: &str,
    category_game_id: &str,
    all_tags: &TagDictionary,
) -> (shown: Vec<TwitchStream>)
    ensures
        shown.deep_view() == selection(
            streams.deep_view(),
            Some(category_tag@),
            category_game_id@,
            all_tags@,
        ),
{
    select(
        streams,
        Some(String::from_str(category_tag)),
        String::from_str(category_game_id),
        all_tags,
    )
}

/// What is shown to a viewer who selected no topic: the records of the
/// default content category that pass the content policy, each with the
/// names of its tags.
pub fn filter_all_programming_streams(
    streams: Vec<TwitchStream>,
    _tag_ids: &CategoryTags,
    all_tags: &TagDictionary,
) -> (shown: Vec<TwitchStream>)
    ensures
        shown.deep_view() == selection(
            streams.deep_view(),
            None,
            spec_default_category().spec_game_id(),
            all_tags@,
        ),
{
    select(streams, None, String::from_str(default_category().game_id()), all_tags)
}

/// What is shown of `snapshot` to a viewer who selected `category`, or none.
pub fn filter_streams(
    snapshot: Vec<TwitchStream>,
    category: Option<Category>,
    tags: &CategoryTags,
    all_tags: &TagDictionary,
) -> (shown: Vec<TwitchStream>)
    ensures
        shown.deep_view() == shown_to_viewer(snapshot.deep_view(), category, *tags, all_tags@),
{
    match category {
        Some(topic) => filter_by_category(
            snapshot,
            tags.get(topic).as_str(),
            topic.content_category().game_id(),
            all_tags,
        ),
        None => filter_all_programming_streams(snapshot, tags, all_tags),
    }
}

} // verus!
