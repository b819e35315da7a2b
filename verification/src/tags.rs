//! The topics that a stream's tag ids stand for.

use vstd::prelude::*;
use vstd::string::StringExecFns;
use crate::category::CategoryTags;

verus! {

/// The US English name of a tag.
#[derive(Debug)]
pub struct LocalizedName {
    pub en_us: String,
}

/// The names of a tag by locale.
#[derive(Debug)]
pub struct LocalizedData {
    pub localization_names: LocalizedName,
}

/// The answer to a lookup of tags by id.
#[derive(Debug)]
pub struct TwitchTag {
    pub data: Vec<LocalizedData>,
}

/// The topic names for a list of tag ids: for each tag id that stands for
/// a topic, in the order of the list, the name under which that topic is
/// shown. A tag id that stands for no topic is left out.
pub open spec fn topic_names(tag_ids: Seq<Seq<char>>, categories: CategoryTags) -> Seq<Seq<char>> {
    tag_ids.filter(|id: Seq<char>| categories.spec_category_of(id) is Some).map_values(
        |id: Seq<char>| categories.spec_category_of(id)->0.spec_display_name(),
    )
}

/// Tells the topics that a stream's tag ids stand for, by their names.
pub fn get_twitch_tag_names(tag_ids: Vec<String>, categories: &CategoryTags) -> (names: Vec<String>)
    ensures
        names.deep_view() == topic_names(tag_ids.deep_view(), *categories),
{
    let ghost all = tag_ids.deep_view();
    let ghost known = |id: Seq<char>| categories.spec_category_of(id) is Some;
    let mut names: Vec<String> = Vec::new();
    let mut i: usize = 0;
    proof {
        reveal(Seq::filter);
        assert(all.take(0) =~= Seq::<Seq<char>>::empty());
        assert(names.deep_view() =~= topic_names(all.take(0), *categories));
    }
    while i < tag_ids.len()
        invariant
            i <= tag_ids.len(),
            all == tag_ids.deep_view(),
            known == |id: Seq<char>| categories.spec_category_of(id) is Some,
            names.deep_view() == topic_names(all.take(i as int), *categories),
        decreases tag_ids.len() - i,
    {
        let ghost before = names.deep_view();
        proof {
            reveal(Seq::filter);
            assert(all.take(i + 1).drop_last() =~= all.take(i as int));
            assert(all.take(i + 1).last() == tag_ids[i as int]@);
        }
        match categories.category_of(&tag_ids[i]) {
            Some(topic) => {
                names.push(String::from_str(topic.display_name()));
                proof {
                    assert(all.take(i + 1).filter(known) == all.take(i as int).filter(known).push(
                        all[i as int],
                    ));
                    assert(names.deep_view() =~= before.push(topic.spec_display_name()));
                    assert(names.deep_view() =~= topic_names(all.take(i + 1), *categories));
                }
            },
            None => {
                proof {
                    assert(all.take(i + 1).filter(known) == all.take(i as int).filter(known));
                }
            },
        }
        i += 1;
    }
    proof {
        assert(all.take(all.len() as int) =~= all);
    }
    names
}

} // verus!
