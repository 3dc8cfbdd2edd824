//! Entities of the tracker and the mathematical model of the store.
use std::collections::HashMap;
use vstd::prelude::*;

verus! {

/// Progress of an epic or a story.
#[derive(Debug, PartialEq, Eq, Clone, Copy, Structural)]
pub enum Status {
    Open,
    InProgress,
    Resolved,
    Closed,
}

impl Status {
    /// The label shown for a status in a table row.
    pub open spec fn label(self) -> Seq<char> {
        match self {
            Status::Open => "OPEN"@,
            Status::InProgress => "IN PROGRESS"@,
            Status::Resolved => "RESOLVED"@,
            Status::Closed => "CLOSED"@,
        }
    }

    pub fn to_string(&self) -> (text: String)
        ensures
            text@ == self.label(),
    {
        match self {
            Status::Open => "OPEN".to_owned(),
            Status::InProgress => "IN PROGRESS".to_owned(),
            Status::Resolved => "RESOLVED".to_owned(),
            Status::Closed => "CLOSED".to_owned(),
        }
    }
}

/// A top-level work item. It owns the stories whose identifiers it lists.
#[derive(Debug, PartialEq, Eq, Clone)]
pub struct Epic {
    pub name: String,
    pub description: String,
    pub status: Status,
    pub stories: Vec<u32>,
}

/// What an [`Epic`] holds, as plain mathematical values.
pub struct EpicView {
    pub name: Seq<char>,
    pub description: Seq<char>,
    pub status: Status,
    pub stories: Seq<u32>,
}

impl View for Epic {
    type V = EpicView;

    open spec fn view(&self) -> EpicView {
        EpicView {
            name: self.name@,
            description: self.description@,
            status: self.status,
            stories: self.stories@,
        }
    }
}

impl EpicView {
    /// A fresh epic: open, with no stories.
    pub open spec fn fresh(name: Seq<char>, description: Seq<char>) -> EpicView {
        EpicView { name, description, status: Status::Open, stories: Seq::empty() }
    }
}

impl Epic {
    pub fn new(name: String, description: String) -> (epic: Epic)
        ensures
            epic@ == EpicView::fresh(name@, description@),
    {
        Epic { name, description, status: Status::Open, stories: Vec::new() }
    }
}

/// A work item that belongs to exactly one epic.
#[derive(Debug, PartialEq, Eq, Clone)]
pub struct Story {
    pub name: String,
    pub description: String,
    pub status: Status,
}

/// What a [`Story`] holds, as plain mathematical values.
pub struct StoryView {
    pub name: Seq<char>,
    pub description: Seq<char>,
    pub status: Status,
}

impl View for Story {
    type V = StoryView;

    open spec fn view(&self) -> StoryView {
        StoryView { name: self.name@, description: self.description@, status: self.status }
    }
}

impl StoryView {
    /// A fresh story: open.
    pub open spec fn fresh(name: Seq<char>, description: Seq<char>) -> StoryView {
        StoryView { name, description, status: Status::Open }
    }
}

impl Story {
    pub fn new(name: String, description: String) -> (story: Story)
        ensures
            story@ == StoryView::fresh(name@, description@),
    {
        Story { name, description, status: Status::Open }
    }
}

/// Everything the tracker keeps: the epics, the stories, and the last
/// identifier handed out. Epics and stories draw their identifiers from the
/// same counter.
#[derive(Debug, PartialEq, Eq, Clone)]
pub struct DBState {
    pub last_item_id: u32,
    pub epics: HashMap<u32, Epic>,
    pub stories: HashMap<u32, Story>,
}

/// The store as mathematical maps.
pub struct DBStateView {
    pub last_item_id: nat,
    pub epics: Map<u32, EpicView>,
    pub stories: Map<u32, StoryView>,
}

impl View for DBState {
    type V = DBStateView;

    open spec fn view(&self) -> DBStateView {
        DBStateView {
            last_item_id: self.last_item_id as nat,
            epics: self.epics@.map_values(|epic: Epic| epic@),
            stories: self.stories@.map_values(|story: Story| story@),
        }
    }
}

/// The position of the first occurrence of `id` in `list`; the length of the
/// list where it does not occur.
pub open spec fn position(list: Seq<u32>, id: u32) -> int
    decreases list.len(),
{
    if list.len() == 0 {
        0
    } else if list[0] == id {
        0
    } else {
        1 + position(list.drop_first(), id)
    }
}

/// `list` without the first occurrence of `id`.
pub open spec fn without_first(list: Seq<u32>, id: u32) -> Seq<u32> {
    if list.contains(id) {
        list.remove(position(list, id))
    } else {
        list
    }
}

impl DBStateView {
    /// The store before anything was created.
    pub open spec fn empty() -> DBStateView {
        DBStateView { last_item_id: 0, epics: Map::empty(), stories: Map::empty() }
    }

    /// The identifier that the next creation hands out.
    pub open spec fn next_id(self) -> u32
        recommends
            self.last_item_id < u32::MAX,
    {
        (self.last_item_id + 1) as u32
    }

    /// Epic `epic_id` lists story `story_id`.
    pub open spec fn owns(self, epic_id: u32, story_id: u32) -> bool {
        self.epics.contains_key(epic_id) && self.epics[epic_id].stories.contains(story_id)
    }

    /// The store is consistent: no identifier is above the counter or used
    /// twice, every listed story exists, and every story is listed once, by
    /// one epic.
    pub open spec fn wf(self) -> bool {
        &&& forall|id: u32| #[trigger] self.epics.contains_key(id) ==> id <= self.last_item_id
        &&& forall|id: u32| #[trigger] self.stories.contains_key(id) ==> id <= self.last_item_id
        &&& forall|id: u32|
            !(#[trigger] self.epics.contains_key(id) && #[trigger] self.stories.contains_key(id))
        &&& forall|id: u32| #[trigger]
            self.epics.contains_key(id) ==> self.epics[id].stories.no_duplicates()
        &&& forall|epic_id: u32, story_id: u32| #[trigger]
            self.owns(epic_id, story_id) ==> self.stories.contains_key(story_id)
        &&& forall|story_id: u32| #[trigger]
            self.stories.contains_key(story_id) ==> exists|epic_id: u32|
                self.owns(epic_id, story_id)
        &&& forall|first: u32, second: u32, story_id: u32|
            #[trigger] self.owns(first, story_id) && #[trigger] self.owns(second, story_id)
                ==> first == second
    }

    /// The store after an epic of this name and description was created.
    pub open spec fn create_epic(self, epic: EpicView) -> DBStateView {
        DBStateView {
            last_item_id: self.last_item_id + 1,
            epics: self.epics.insert(self.next_id(), EpicView::fresh(epic.name, epic.description)),
            stories: self.stories,
        }
    }

    /// The store after a story of this name and description was created
    /// under epic `epic_id`.
    pub open spec fn create_story(self, story: StoryView, epic_id: u32) -> DBStateView
        recommends
            self.epics.contains_key(epic_id),
    {
        let epic = self.epics[epic_id];
        DBStateView {
            last_item_id: self.last_item_id + 1,
            epics: self.epics.insert(
                epic_id,
                EpicView { stories: epic.stories.push(self.next_id()), ..epic },
            ),
            stories: self.stories.insert(
                self.next_id(),
                StoryView::fresh(story.name, story.description),
            ),
        }
    }

    /// The store after epic `epic_id` was deleted, with every story it listed.
    pub open spec fn delete_epic(self, epic_id: u32) -> DBStateView
        recommends
            self.epics.contains_key(epic_id),
    {
        DBStateView {
            last_item_id: self.last_item_id,
            epics: self.epics.remove(epic_id),
            stories: self.stories.remove_keys(self.epics[epic_id].stories.to_set()),
        }
    }

    /// The store after story `story_id` was deleted from epic `epic_id`.
    pub open spec fn delete_story(self, epic_id: u32, story_id: u32) -> DBStateView
        recommends
            self.owns(epic_id, story_id),
    {
        let epic = self.epics[epic_id];
        DBStateView {
            last_item_id: self.last_item_id,
            epics: self.epics.insert(
                epic_id,
                EpicView { stories: without_first(epic.stories, story_id), ..epic },
            ),
            stories: self.stories.remove(story_id),
        }
    }

    /// The store after epic `epic_id` was given a new status.
    pub open spec fn update_epic_status(self, epic_id: u32, status: Status) -> DBStateView
        recommends
            self.epics.contains_key(epic_id),
    {
        DBStateView {
            last_item_id: self.last_item_id,
            epics: self.epics.insert(epic_id, EpicView { status, ..self.epics[epic_id] }),
            stories: self.stories,
        }
    }

    /// The store after story `story_id` was given a new status.
    pub open spec fn update_story_status(self, story_id: u32, status: Status) -> DBStateView
        recommends
            self.stories.contains_key(story_id),
    {
        DBStateView {
            last_item_id: self.last_item_id,
            epics: self.epics,
            stories: self.stories.insert(story_id, StoryView { status, ..self.stories[story_id] }),
        }
    }
}

impl DBState {
    /// An empty store whose counter stands at zero.
    pub fn new() -> (state: DBState)
        ensures
            state@ == DBStateView::empty(),
            state@.wf(),
    {
        let state = DBState { last_item_id: 0, epics: HashMap::new(), stories: HashMap::new() };
        assert(state@.epics =~= Map::empty());
        assert(state@.stories =~= Map::empty());
        state
    }
}

/// What a page asks the navigator to do.
#[derive(Debug, PartialEq, Eq, Clone, Copy, Structural)]
pub enum Action {
    NavigateToEpicDetail { epic_id: u32 },
    NavigateToStoryDetail { epic_id: u32, story_id: u32 },
    NavigateToPreviousPage,
    CreateEpic,
    UpdateEpicStatus { epic_id: u32 },
    DeleteEpic { epic_id: u32 },
    CreateStory { epic_id: u32 },
    UpdateStoryStatus { story_id: u32 },
    DeleteStory { epic_id: u32, story_id: u32 },
    Exit,
}

/// Why the tracker could not do what it was asked.
#[derive(Debug, PartialEq, Eq, Clone, Copy, Structural)]
pub enum Error {
    /// The store holds no epic of the identifier given.
    EpicNotFound,
    /// The store, or the epic named, holds no story of the identifier given.
    StoryNotFound,
    /// A page refers to an epic or a story that the store no longer holds.
    StaleReference,
}

impl Error {
    /// The sentence that reports the error.
    pub open spec fn message(self) -> Seq<char> {
        match self {
            Error::EpicNotFound => "could not find epic in database!"@,
            Error::StoryNotFound => "could not find story in database!"@,
            Error::StaleReference => "could not find what this page shows!"@,
        }
    }

    pub fn to_string(&self) -> (text: String)
        ensures
            text@ == self.message(),
    {
        match self {
            Error::EpicNotFound => "could not find epic in database!".to_owned(),
            Error::StoryNotFound => "could not find story in database!".to_owned(),
            Error::StaleReference => "could not find what this page shows!".to_owned(),
        }
    }
}

} // verus!
