//! The topics a viewer can select, the upstream content categories, and
//! the tables that relate the two.

use vstd::prelude::*;
use vstd::string::StringExecFns;

verus! {

/// The development topics a viewer can select.
#[derive(Debug, Clone, Copy, PartialEq, Eq, Structural, Hash)]
pub enum Category {
    Programming,
    WebDevelopment,
    GameDevelopment,
    MobileDevelopment,
}

/// The upstream content categories from which streams are retrieved.
#[derive(Debug, Clone, Copy, PartialEq, Eq, Structural, Hash)]
pub enum TwitchCategory {
    ScienceAndTechnology,
    SoftwareAndGameDevelopment,
}

impl TwitchCategory {
    /// The id under which the upstream platform knows the content category.
    pub open spec fn spec_game_id(&self) -> Seq<char> {
        match self {
            TwitchCategory::ScienceAndTechnology => "509670"@,
            TwitchCategory::SoftwareAndGameDevelopment => "1469308723"@,
        }
    }

    /// The id under which the upstream platform knows the content category.
    pub fn game_id(&self) -> (id: &'static str)
        ensures
            id@ == self.spec_game_id(),
    {
        match self {
            TwitchCategory::ScienceAndTechnology => "509670",
            TwitchCategory::SoftwareAndGameDevelopment => "1469308723",
        }
    }
}

impl Category {
    /// The upstream content category to which the topic belongs. A stream
    /// of that content category counts as a stream of the topic even where
    /// it lacks the topic's tag.
    ///
    /// All four topics are kinds of software development and so belong to
    /// the same content category; the table names each of them so that a
    /// later topic can be given the other one.
    pub open spec fn spec_content_category(&self) -> TwitchCategory {
        match self {
            Category::Programming => TwitchCategory::SoftwareAndGameDevelopment,
            Category::WebDevelopment => TwitchCategory::SoftwareAndGameDevelopment,
            Category::GameDevelopment => TwitchCategory::SoftwareAndGameDevelopment,
            Category::MobileDevelopment => TwitchCategory::SoftwareAndGameDevelopment,
        }
    }

    /// The upstream content category to which the topic belongs.
    #[verifier::when_used_as_spec(spec_content_category)]
    pub fn content_category(&self) -> (source: TwitchCategory)
        ensures
            source == self.spec_content_category(),
    {
        match self {
            Category::Programming => TwitchCategory::SoftwareAndGameDevelopment,
            Category::WebDevelopment => TwitchCategory::SoftwareAndGameDevelopment,
            Category::GameDevelopment => TwitchCategory::SoftwareAndGameDevelopment,
            Category::MobileDevelopment => TwitchCategory::SoftwareAndGameDevelopment,
        }
    }

    /// The name under which the topic is shown.
    pub open spec fn spec_display_name(&self) -> Seq<char> {
        match self {
            Category::Programming => "programming"@,
            Category::WebDevelopment => "web dev"@,
            Category::GameDevelopment => "game dev"@,
            Category::MobileDevelopment => "mobile dev"@,
        }
    }

    /// The name under which the topic is shown.
    pub fn display_name(&self) -> (name: &'static str)
        ensures
            name@ == self.spec_display_name(),
    {
        match self {
            Category::Programming => "programming",
            Category::WebDevelopment => "web dev",
            Category::GameDevelopment => "game dev",
            Category::MobileDevelopment => "mobile dev",
        }
    }
}

/// The content category whose streams are shown where no topic is selected.
pub open spec fn spec_default_category() -> TwitchCategory {
    TwitchCategory::SoftwareAndGameDevelopment
}

/// The content category whose streams are shown where no topic is selected.
#[verifier::when_used_as_spec(spec_default_category)]
pub fn default_category() -> (source: TwitchCategory)
    ensures
        source == spec_default_category(),
{
    TwitchCategory::SoftwareAndGameDevelopment
}

/// The upstream tag id of each topic.
#[derive(Debug)]
pub struct CategoryTags {
    pub programming: String,
    pub web_development: String,
    pub game_development: String,
    pub mobile_development: String,
}

impl CategoryTags {
    /// The upstream tag id of `category`.
    pub open spec fn spec_get(&self, category: Category) -> Seq<char> {
        match category {
            Category::Programming => self.programming@,
            Category::WebDevelopment => self.web_development@,
            Category::GameDevelopment => self.game_development@,
            Category::MobileDevelopment => self.mobile_development@,
        }
    }

    /// The upstream tag id of `category`.
    pub fn get(&self, category: Category) -> (tag_id: &String)
        ensures
            tag_id@ == self.spec_get(category),
    {
        match category {
            Category::Programming => &self.programming,
            Category::WebDevelopment => &self.web_development,
            Category::GameDevelopment => &self.game_development,
            Category::MobileDevelopment => &self.mobile_development,
        }
    }

    /// The topic that `tag_id` stands for: the first, in the order in which
    /// the topics are declared, that carries this tag id.
    pub open spec fn spec_category_of(&self, tag_id: Seq<char>) -> Option<Category> {
        if tag_id == self.programming@ {
            Some(Category::Programming)
        } else if tag_id == self.web_development@ {
            Some(Category::WebDevelopment)
        } else if tag_id == self.game_development@ {
            Some(Category::GameDevelopment)
        } else if tag_id == self.mobile_development@ {
            Some(Category::MobileDevelopment)
        } else {
            None
        }
    }

    /// The topic that `tag_id` stands for, if it stands for one.
    pub fn category_of(&self, tag_id: &String) -> (category: Option<Category>)
        ensures
            category == self.spec_category_of(tag_id@),
    {
        if *tag_id == self.programming {
            Some(Category::Programming)
        } else if *tag_id == self.web_development {
            Some(Category::WebDevelopment)
        } else if *tag_id == self.game_development {
            Some(Category::GameDevelopment)
        } else if *tag_id == self.mobile_development {
            Some(Category::MobileDevelopment)
        } else {
            None
        }
    }
}

/// The tag ids under which the upstream platform files the four topics.
pub fn get_twitch_tag_ids() -> (tags: CategoryTags)
    ensures
        tags.programming@ == "a59f1e4e-257b-4bd0-90c7-189c3efbf917"@,
        tags.web_development@ == "c23ce252-cf78-4b98-8c11-8769801aaf3a"@,
        tags.game_development@ == "f588bd74-e496-4d11-9169-3597f38a5d25"@,
        tags.mobile_development@ == "6e23d976-33ec-47e8-b22b-3727acd41862"@,
{
    CategoryTags {
        programming: String::from_str("a59f1e4e-257b-4bd0-90c7-189c3efbf917"),
        web_development: String::from_str("c23ce252-cf78-4b98-8c11-8769801aaf3a"),
        game_development: String::from_str("f588bd74-e496-4d11-9169-3597f38a5d25"),
        mobile_development: String::from_str("6e23d976-33ec-47e8-b22b-3727acd41862"),
    }
}

} // verus!
