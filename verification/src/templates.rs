//! Display-ready values handed to the page templates.
use vstd::prelude::*;
use vstd::string::*;

use crate::stories::{kind_label, Story};

verus! {

/// Display-ready example listing for templates.
#[derive(Debug, Clone)]
pub struct ListingView {
    pub name: String,
    pub price: String,
    pub area: String,
    pub price_per_m2: String,
    pub url: String,
}

/// Display-ready story card for templates.
#[derive(Debug, Clone)]
pub struct StoryView {
    pub headline: String,
    pub body: String,
    pub region_name: String,
    pub region_slug: String,
    pub color_class: String,
    pub kind_label: String,
}

/// Convert a story to its display card.
pub fn story_to_view(story: &Story) -> (v: StoryView)
    ensures
        v.headline@ == story.headline@,
        v.body@ == story.body@,
        v.region_name@ == story.region_name@,
        v.region_slug@ == story.region@,
        v.color_class@ == story.color_class@,
        v.kind_label@ == kind_label(story.kind),
{
    StoryView {
        headline: story.headline.clone(),
        body: story.body.clone(),
        region_name: story.region_name.clone(),
        region_slug: story.region.clone(),
        color_class: String::from_str(story.color_class),
        kind_label: String::from_str(story.kind.label()),
    }
}

/// Stories page contents.
pub struct StoriesTemplate {
    pub national_stories: Vec<StoryView>,
    pub top_stories: Vec<StoryView>,
    pub region_groups: Vec<RegionStoryGroup>,
    pub refreshing: bool,
}

/// A group of stories for one region.
#[derive(Debug, Clone)]
pub struct RegionStoryGroup {
    pub slug: String,
    pub name: String,
    pub stories: Vec<StoryView>,
}

/// 404 page contents.
pub struct NotFoundTemplate {
    pub slug: String,
}

} // verus!
