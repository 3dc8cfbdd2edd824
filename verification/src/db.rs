//! The database: the one place where a store is changed.
//!
//! Every operation applies one change to the whole store or none at all,
//! and every change keeps a consistent store consistent.
use crate::models::{DBState, DBStateView, Epic, EpicView, Error, Status, Story, StoryView};
use crate::models::{position, without_first};
use vstd::prelude::*;

verus! {

/// Owner of the store. Pages read it through [`JiraDatabase::read_db`];
/// only the operations here change it.
#[derive(Debug, Clone)]
pub struct JiraDatabase {
    state: DBState,
}

impl View for JiraDatabase {
    type V = DBStateView;

    closed spec fn view(&self) -> DBStateView {
        self.state@
    }
}

impl JiraDatabase {
    /// A database over the store given.
    pub fn new(state: DBState) -> (db: JiraDatabase)
        ensures
            db@ == state@,
    {
        JiraDatabase { state }
    }

    /// The store as it stands.
    pub fn read_db(&self) -> (state: &DBState)
        ensures
            state@ == self@,
    {
        &self.state
    }

    /// Creates an open epic without stories, of the name and description of
    /// `epic`, under the next identifier, and returns that identifier.
    pub fn create_epic(&mut self, epic: Epic) -> (id: u32)
        requires
            old(self)@.last_item_id < u32::MAX,
        ensures
            id == old(self)@.next_id(),
            final(self)@ == old(self)@.create_epic(epic@),
            old(self)@.wf() ==> final(self)@.wf(),
    {
        let id = self.state.last_item_id + 1;
        let created = Epic {
            name: epic.name,
            description: epic.description,
            status: Status::Open,
            stories: Vec::new(),
        };
        self.state.epics.insert(id, created);
        self.state.last_item_id = id;
        proof {
            assert(self.state@.epics =~= old(self)@.create_epic(epic@).epics);
            assert(self.state@.stories =~= old(self)@.stories);
            if old(self)@.wf() {
                lemma_create_epic_keeps_wf(old(self)@, epic@);
            }
        }
        id
    }

    /// Creates an open story of the name and description of `story` under
    /// the next identifier, lists it last in epic `epic_id`, and returns the
    /// identifier. Without that epic nothing changes.
    pub fn create_story(&mut self, story: Story, epic_id: u32) -> (created: Result<u32, Error>)
        requires
            old(self)@.epics.contains_key(epic_id) ==> old(self)@.last_item_id < u32::MAX,
        ensures
            match created {
                Ok(id) => {
                    &&& old(self)@.epics.contains_key(epic_id)
                    &&& id == old(self)@.next_id()
                    &&& final(self)@ == old(self)@.create_story(story@, epic_id)
                },
                Err(error) => {
                    &&& !old(self)@.epics.contains_key(epic_id)
                    &&& error == Error::EpicNotFound
                    &&& final(self)@ == old(self)@
                },
            },
            old(self)@.wf() ==> final(self)@.wf(),
    {
        match self.state.epics.remove(&epic_id) {
            None => {
                proof {
                    assert(self.state@.epics =~= old(self)@.epics);
                }
                Err(Error::EpicNotFound)
            },
            Some(epic) => {
                let mut epic = epic;
                let id = self.state.last_item_id + 1;
                epic.stories.push(id);
                self.state.epics.insert(epic_id, epic);
                let created = Story {
                    name: story.name,
                    description: story.description,
                    status: Status::Open,
                };
                self.state.stories.insert(id, created);
                self.state.last_item_id = id;
                proof {
                    assert(self.state@.epics =~= old(self)@.create_story(story@, epic_id).epics);
                    assert(self.state@.stories =~= old(self)@.create_story(
                        story@,
                        epic_id,
                    ).stories);
                    if old(self)@.wf() {
                        lemma_create_story_keeps_wf(old(self)@, story@, epic_id);
                    }
                }
                Ok(id)
            },
        }
    }

    /// Deletes epic `epic_id` and every story that it lists. Without that
    /// epic nothing changes.
    pub fn delete_epic(&mut self, epic_id: u32) -> (deleted: Result<(), Error>)
        ensures
            match deleted {
                Ok(()) => {
                    &&& old(self)@.epics.contains_key(epic_id)
                    &&& final(self)@ == old(self)@.delete_epic(epic_id)
                },
                Err(error) => {
                    &&& !old(self)@.epics.contains_key(epic_id)
                    &&& error == Error::EpicNotFound
                    &&& final(self)@ == old(self)@
                },
            },
            old(self)@.wf() ==> final(self)@.wf(),
    {
        match self.state.epics.remove(&epic_id) {
            None => {
                proof {
                    assert(self.state@.epics =~= old(self)@.epics);
                }
                Err(Error::EpicNotFound)
            },
            Some(epic) => {
                let ghost listed = epic.stories@;
                let ghost stories_before = old(self).state.stories@;
                let ghost epics_after = self.state.epics@;
                let mut i: usize = 0;
                while i < epic.stories.len()
                    invariant
                        i <= epic.stories.len(),
                        listed == epic.stories@,
                        self.state.epics@ == epics_after,
                        self.state.last_item_id == old(self).state.last_item_id,
                        self.state.stories@ == stories_before.remove_keys(
                            listed.take(i as int).to_set(),
                        ),
                    decreases epic.stories.len() - i,
                {
                    let story_id = epic.stories[i];
                    self.state.stories.remove(&story_id);
                    proof {
                        let seen = listed.take(i as int);
                        let more = listed.take(i + 1);
                        assert(more =~= seen.push(story_id));
                        assert forall|id: u32| more.to_set().contains(id) <==> (seen.to_set().contains(
                            id,
                        ) || id == story_id) by {
                            if seen.contains(id) {
                                let j = choose|j: int| 0 <= j < seen.len() && seen[j] == id;
                                assert(more[j] == id);
                            }
                            if id == story_id {
                                assert(more[i as int] == id);
                            }
                            if more.contains(id) {
                                let j = choose|j: int| 0 <= j < more.len() && more[j] == id;
                                if j < i {
                                    assert(seen[j] == id);
                                }
                            }
                        }
                        assert(self.state.stories@ =~= stories_before.remove_keys(more.to_set()));
                    }
                    i += 1;
                }
                proof {
                    assert(listed.take(i as int) =~= listed);
                    assert(self.state@.epics =~= old(self)@.delete_epic(epic_id).epics);
                    assert(self.state@.stories =~= old(self)@.delete_epic(epic_id).stories);
                    if old(self)@.wf() {
                        lemma_delete_epic_keeps_wf(old(self)@, epic_id);
                    }
                }
                Ok(())
            },
        }
    }

    /// Deletes story `story_id` and takes it off the list of epic `epic_id`.
    /// Without that epic, or where the epic does not list the story, nothing
    /// changes.
    pub fn delete_story(&mut self, epic_id: u32, story_id: u32) -> (deleted: Result<(), Error>)
        ensures
            match deleted {
                Ok(()) => {
                    &&& old(self)@.owns(epic_id, story_id)
                    &&& final(self)@ == old(self)@.delete_story(epic_id, story_id)
                },
                Err(error) => {
                    &&& !old(self)@.owns(epic_id, story_id)
                    &&& error == if old(self)@.epics.contains_key(epic_id) {
                        Error::StoryNotFound
                    } else {
                        Error::EpicNotFound
                    }
                    &&& final(self)@ == old(self)@
                },
            },
            old(self)@.wf() ==> final(self)@.wf(),
    {
        let found = match self.state.epics.get(&epic_id) {
            None => {
                return Err(Error::EpicNotFound);
            },
            Some(epic) => first_position(&epic.stories, story_id),
        };
        match found {
            None => Err(Error::StoryNotFound),
            Some(index) => {
                match self.state.epics.remove(&epic_id) {
                    None => Err(Error::EpicNotFound),
                    Some(epic) => {
                        let mut epic = epic;
                        epic.stories.remove(index);
                        self.state.epics.insert(epic_id, epic);
                        self.state.stories.remove(&story_id);
                        proof {
                            let after = old(self)@.delete_story(epic_id, story_id);
                            assert(self.state@.epics =~= after.epics);
                            assert(self.state@.stories =~= after.stories);
                            if old(self)@.wf() {
                                lemma_delete_story_keeps_wf(old(self)@, epic_id, story_id);
                            }
                        }
                        Ok(())
                    },
                }
            },
        }
    }

    /// Gives epic `epic_id` the status `status`. Without that epic nothing
    /// changes.
    pub fn update_epic_status(&mut self, epic_id: u32, status: Status) -> (updated: Result<
        (),
        Error,
    >)
        ensures
            match updated {
                Ok(()) => {
                    &&& old(self)@.epics.contains_key(epic_id)
                    &&& final(self)@ == old(self)@.update_epic_status(epic_id, status)
                },
                Err(error) => {
                    &&& !old(self)@.epics.contains_key(epic_id)
                    &&& error == Error::EpicNotFound
                    &&& final(self)@ == old(self)@
                },
            },
            old(self)@.wf() ==> final(self)@.wf(),
    {
        match self.state.epics.remove(&epic_id) {
            None => {
                proof {
                    assert(self.state@.epics =~= old(self)@.epics);
                }
                Err(Error::EpicNotFound)
            },
            Some(epic) => {
                let mut epic = epic;
                epic.status = status;
                self.state.epics.insert(epic_id, epic);
                proof {
                    assert(self.state@.epics =~= old(self)@.update_epic_status(
                        epic_id,
                        status,
                    ).epics);
                    if old(self)@.wf() {
                        lemma_update_status_keeps_wf(old(self)@, epic_id, status);
                    }
                }
                Ok(())
            },
        }
    }

    /// Gives story `story_id` the status `status`. Without that story
    /// nothing changes.
    pub fn update_story_status(&mut self, story_id: u32, status: Status) -> (updated: Result<
        (),
        Error,
    >)
        ensures
            match updated {
                Ok(()) => {
                    &&& old(self)@.stories.contains_key(story_id)
                    &&& final(self)@ == old(self)@.update_story_status(story_id, status)
                },
                Err(error) => {
                    &&& !old(self)@.stories.contains_key(story_id)
                    &&& error == Error::StoryNotFound
                    &&& final(self)@ == old(self)@
                },
            },
            old(self)@.wf() ==> final(self)@.wf(),
    {
        match self.state.stories.remove(&story_id) {
            None => {
                proof {
                    assert(self.state@.stories =~= old(self)@.stories);
                }
                Err(Error::StoryNotFound)
            },
            Some(story) => {
                let mut story = story;
                story.status = status;
                self.state.stories.insert(story_id, story);
                proof {
                    assert(self.state@.stories =~= old(self)@.update_story_status(
                        story_id,
                        status,
                    ).stories);
                    if old(self)@.wf() {
                        lemma_update_status_keeps_wf(old(self)@, story_id, status);
                    }
                }
                Ok(())
            },
        }
    }
}

/// The first place at which `list` holds `id`, if it holds it.
fn first_position(list: &Vec<u32>, id: u32) -> (found: Option<usize>)
    ensures
        match found {
            Some(index) => list@.contains(id) && index == position(list@, id) && index < list@.len(),
            None => !list@.contains(id),
        },
{
    let mut i: usize = 0;
    while i < list.len()
        invariant
            i <= list.len(),
            forall|j: int| 0 <= j < i ==> list@[j] != id,
        decreases list.len() - i,
    {
        if list[i] == id {
            proof {
                lemma_position_is_first(list@, id, i as int);
            }
            return Some(i);
        }
        i += 1;
    }
    None
}

/// An occurrence of `id` that no other precedes is at `position`.
pub proof fn lemma_position_is_first(list: Seq<u32>, id: u32, index: int)
    requires
        0 <= index < list.len(),
        list[index] == id,
        forall|j: int| 0 <= j < index ==> list[j] != id,
    ensures
        position(list, id) == index,
    decreases list.len(),
{
    if index > 0 {
        assert(list[0] != id);
        assert forall|j: int| 0 <= j < index - 1 implies list.drop_first()[j] != id by {
            assert(list.drop_first()[j] == list[j + 1]);
        }
        lemma_position_is_first(list.drop_first(), id, index - 1);
    }
}

/// Where a list holds `id`, `position` is the place of its first occurrence.
pub proof fn lemma_position_in_list(list: Seq<u32>, id: u32)
    requires
        list.contains(id),
    ensures
        0 <= position(list, id) < list.len(),
        list[position(list, id)] == id,
        forall|j: int| 0 <= j < position(list, id) ==> list[j] != id,
{
    let first = choose|i: int|
        0 <= i < list.len() && list[i] == id && forall|j: int| 0 <= j < i ==> list[j] != id;
    lemma_first_occurrence_exists(list, id);
    lemma_position_is_first(list, id, first);
}

proof fn lemma_first_occurrence_exists(list: Seq<u32>, id: u32)
    requires
        list.contains(id),
    ensures
        exists|i: int|
            0 <= i < list.len() && list[i] == id && forall|j: int| 0 <= j < i ==> list[j] != id,
    decreases list.len(),
{
    if list[0] == id {
        assert(0 <= 0 < list.len() && list[0] == id && forall|j: int| 0 <= j < 0 ==> list[j] != id);
    } else {
        let k = choose|k: int| 0 <= k < list.len() && list[k] == id;
        assert(list.drop_first()[k - 1] == id);
        lemma_first_occurrence_exists(list.drop_first(), id);
        let i = choose|i: int|
            0 <= i < list.drop_first().len() && list.drop_first()[i] == id && forall|j: int|
                0 <= j < i ==> list.drop_first()[j] != id;
        assert forall|j: int| 0 <= j < i + 1 implies list[j] != id by {
            if j > 0 {
                assert(list.drop_first()[j - 1] == list[j]);
            }
        }
        assert(list[i + 1] == id);
    }
}

/// Taking the one occurrence of `id` out of a list without repetitions
/// leaves the other items, each once.
pub proof fn lemma_without_first(list: Seq<u32>, id: u32)
    requires
        list.contains(id),
        list.no_duplicates(),
    ensures
        without_first(list, id).no_duplicates(),
        without_first(list, id).len() == list.len() - 1,
        forall|other: u32| #[trigger]
            without_first(list, id).contains(other) <==> other != id && list.contains(other),
{
    lemma_position_in_list(list, id);
    let at = position(list, id);
    let rest = without_first(list, id);
    assert forall|i: int| 0 <= i < rest.len() implies #[trigger] rest[i] == list[if i < at {
        i
    } else {
        i + 1
    }] by {}
    assert forall|other: u32| #[trigger] rest.contains(other) <==> other != id && list.contains(
        other,
    ) by {
        if rest.contains(other) {
            let i = choose|i: int| 0 <= i < rest.len() && rest[i] == other;
            assert(rest[i] == list[if i < at {
                i
            } else {
                i + 1
            }]);
        }
        if other != id && list.contains(other) {
            let k = choose|k: int| 0 <= k < list.len() && list[k] == other;
            if k < at {
                assert(rest[k] == other);
            } else {
                assert(rest[k - 1] == other);
            }
        }
    }
}

/// Creating an epic keeps a consistent store consistent.
pub proof fn lemma_create_epic_keeps_wf(store: DBStateView, epic: EpicView)
    requires
        store.wf(),
        store.last_item_id < u32::MAX,
    ensures
        store.create_epic(epic).wf(),
{
    let after = store.create_epic(epic);
    let id = store.next_id();
    assert(!store.epics.contains_key(id));
    assert forall|epic_id: u32, story_id: u32| #[trigger]
        after.owns(epic_id, story_id) implies store.owns(epic_id, story_id) by {
        if epic_id == id {
            assert(after.epics[id].stories.len() == 0);
        }
    }
    assert forall|story_id: u32| #[trigger] after.stories.contains_key(story_id) implies exists|
        epic_id: u32,
    |
        after.owns(epic_id, story_id) by {
        let owner = choose|epic_id: u32| store.owns(epic_id, story_id);
        assert(after.owns(owner, story_id));
    }
}

/// Creating a story under an epic of the store keeps a consistent store
/// consistent.
pub proof fn lemma_create_story_keeps_wf(store: DBStateView, story: StoryView, epic_id: u32)
    requires
        store.wf(),
        store.last_item_id < u32::MAX,
        store.epics.contains_key(epic_id),
    ensures
        store.create_story(story, epic_id).wf(),
{
    let after = store.create_story(story, epic_id);
    let id = store.next_id();
    let before = store.epics[epic_id].stories;
    assert(!store.epics.contains_key(id));
    assert(!store.stories.contains_key(id));
    assert(!before.contains(id)) by {
        if before.contains(id) {
            assert(store.owns(epic_id, id));
        }
    }
    assert forall|other: u32, story_id: u32| #[trigger]
        after.owns(other, story_id) implies (story_id == id && other == epic_id) || (story_id != id
        && store.owns(other, story_id)) by {
        if other == epic_id {
            let i = choose|i: int| 0 <= i < before.push(id).len() && before.push(id)[i] == story_id;
            if i < before.len() {
                assert(before[i] == story_id);
            }
        } else {
            if story_id == id {
                assert(store.owns(other, id));
            }
        }
    }
    assert forall|other: u32, story_id: u32| #[trigger]
        store.owns(other, story_id) implies after.owns(other, story_id) by {
        if other == epic_id {
            let i = choose|i: int| 0 <= i < before.len() && before[i] == story_id;
            assert(before.push(id)[i] == story_id);
        }
    }
    assert(after.owns(epic_id, id)) by {
        assert(before.push(id)[before.len() as int] == id);
    }
    assert(before.push(id).no_duplicates());
    assert forall|story_id: u32| #[trigger] after.stories.contains_key(story_id) implies exists|
        owner: u32,
    |
        after.owns(owner, story_id) by {
        if story_id != id {
            let owner = choose|owner: u32| store.owns(owner, story_id);
            assert(after.owns(owner, story_id));
        }
    }
}

/// Deleting an epic of the store, with its stories, keeps a consistent
/// store consistent: no story is left without its epic.
pub proof fn lemma_delete_epic_keeps_wf(store: DBStateView, epic_id: u32)
    requires
        store.wf(),
        store.epics.contains_key(epic_id),
    ensures
        store.delete_epic(epic_id).wf(),
{
    let after = store.delete_epic(epic_id);
    let listed = store.epics[epic_id].stories;
    assert forall|other: u32, story_id: u32| #[trigger]
        after.owns(other, story_id) implies store.owns(other, story_id) && !listed.contains(
        story_id,
    ) by {
        assert(other != epic_id);
        assert(store.owns(other, story_id));
        if listed.contains(story_id) {
            assert(store.owns(epic_id, story_id));
        }
    }
    assert forall|story_id: u32| #[trigger] after.stories.contains_key(story_id) implies exists|
        owner: u32,
    |
        after.owns(owner, story_id) by {
        assert(store.stories.contains_key(story_id));
        let owner = choose|owner: u32| store.owns(owner, story_id);
        assert(!listed.to_set().contains(story_id));
        assert(owner != epic_id);
        assert(after.owns(owner, story_id));
    }
}

/// Deleting a story that its epic lists keeps a consistent store consistent.
pub proof fn lemma_delete_story_keeps_wf(store: DBStateView, epic_id: u32, story_id: u32)
    requires
        store.wf(),
        store.owns(epic_id, story_id),
    ensures
        store.delete_story(epic_id, story_id).wf(),
{
    let after = store.delete_story(epic_id, story_id);
    let listed = store.epics[epic_id].stories;
    lemma_without_first(listed, story_id);
    assert forall|other: u32, id: u32| #[trigger] after.owns(other, id) implies store.owns(
        other,
        id,
    ) && id != story_id by {
        if other != epic_id && id == story_id {
            assert(store.owns(other, story_id));
        }
    }
    assert forall|id: u32| #[trigger] after.stories.contains_key(id) implies exists|owner: u32|
        after.owns(owner, id) by {
        let owner = choose|owner: u32| store.owns(owner, id);
        assert(after.owns(owner, id));
    }
}

/// A new status for an epic or a story of the store keeps a consistent
/// store consistent.
pub proof fn lemma_update_status_keeps_wf(store: DBStateView, id: u32, status: Status)
    requires
        store.wf(),
    ensures
        store.epics.contains_key(id) ==> store.update_epic_status(id, status).wf(),
        store.stories.contains_key(id) ==> store.update_story_status(id, status).wf(),
{
    if store.epics.contains_key(id) {
        let after = store.update_epic_status(id, status);
        assert forall|epic_id: u32, story_id: u32|
            after.owns(epic_id, story_id) == store.owns(epic_id, story_id) by {}
        assert forall|story_id: u32| #[trigger] after.stories.contains_key(story_id) implies exists|
            owner: u32,
        |
            after.owns(owner, story_id) by {
            let owner = choose|owner: u32| store.owns(owner, story_id);
            assert(after.owns(owner, story_id));
        }
    }
    if store.stories.contains_key(id) {
        let after = store.update_story_status(id, status);
        assert forall|epic_id: u32, story_id: u32|
            after.owns(epic_id, story_id) == store.owns(epic_id, story_id) by {}
        assert forall|story_id: u32| #[trigger] after.stories.contains_key(story_id) implies exists|
            owner: u32,
        |
            after.owns(owner, story_id) by {
            let owner = choose|owner: u32| store.owns(owner, story_id);
            assert(after.owns(owner, story_id));
        }
    }
}

/// One call of the database, with its arguments as plain values.
pub enum Call {
    CreateEpic { epic: EpicView },
    CreateStory { story: StoryView, epic_id: u32 },
    DeleteEpic { epic_id: u32 },
    DeleteStory { epic_id: u32, story_id: u32 },
    UpdateEpicStatus { epic_id: u32, status: Status },
    UpdateStoryStatus { story_id: u32, status: Status },
}

impl Call {
    /// The error with which the call fails on `store`, if it fails.
    pub open spec fn failure(self, store: DBStateView) -> Option<Error> {
        match self {
            Call::CreateEpic { .. } => None,
            Call::CreateStory { epic_id, .. }
            | Call::DeleteEpic { epic_id }
            | Call::UpdateEpicStatus { epic_id, .. } => if store.epics.contains_key(epic_id) {
                None
            } else {
                Some(Error::EpicNotFound)
            },
            Call::DeleteStory { epic_id, story_id } => if !store.epics.contains_key(epic_id) {
                Some(Error::EpicNotFound)
            } else if !store.owns(epic_id, story_id) {
                Some(Error::StoryNotFound)
            } else {
                None
            },
            Call::UpdateStoryStatus { story_id, .. } => if store.stories.contains_key(story_id) {
                None
            } else {
                Some(Error::StoryNotFound)
            },
        }
    }

    /// The identifier that the call hands out on `store`, if it creates
    /// something.
    pub open spec fn handed_out(self, store: DBStateView) -> Option<u32> {
        match self {
            Call::CreateEpic { .. } => Some(store.next_id()),
            Call::CreateStory { epic_id, .. } => if store.epics.contains_key(epic_id) {
                Some(store.next_id())
            } else {
                None
            },
            _ => None,
        }
    }

    /// The store after the call: changed as the operation says where it
    /// succeeds, and as it was where it fails.
    pub open spec fn apply(self, store: DBStateView) -> DBStateView {
        if self.failure(store) is Some {
            store
        } else {
            match self {
                Call::CreateEpic { epic } => store.create_epic(epic),
                Call::CreateStory { story, epic_id } => store.create_story(story, epic_id),
                Call::DeleteEpic { epic_id } => store.delete_epic(epic_id),
                Call::DeleteStory { epic_id, story_id } => store.delete_story(epic_id, story_id),
                Call::UpdateEpicStatus { epic_id, status } => store.update_epic_status(
                    epic_id,
                    status,
                ),
                Call::UpdateStoryStatus { story_id, status } => store.update_story_status(
                    story_id,
                    status,
                ),
            }
        }
    }
}

/// The store after a sequence of calls, made one after the other.
pub open spec fn after_calls(store: DBStateView, calls: Seq<Call>) -> DBStateView
    decreases calls.len(),
{
    if calls.len() == 0 {
        store
    } else {
        calls.last().apply(after_calls(store, calls.drop_last()))
    }
}

/// No call lowers the counter, and a call that hands out an identifier
/// raises it by one, to that identifier.
pub proof fn lemma_counter_never_falls(store: DBStateView, call: Call)
    ensures
        store.last_item_id <= call.apply(store).last_item_id,
        call.handed_out(store) is Some ==> call.apply(store).last_item_id == store.last_item_id + 1,
{
}

/// The counter after some of the calls is no higher than after more of them.
pub proof fn lemma_counter_grows_with_calls(store: DBStateView, calls: Seq<Call>, fewer: int)
    requires
        0 <= fewer <= calls.len(),
    ensures
        after_calls(store, calls.take(fewer)).last_item_id <= after_calls(
            store,
            calls,
        ).last_item_id,
    decreases calls.len(),
{
    if fewer == calls.len() {
        assert(calls.take(fewer) =~= calls);
    } else {
        assert(calls.drop_last().take(fewer) =~= calls.take(fewer));
        lemma_counter_grows_with_calls(store, calls.drop_last(), fewer);
        lemma_counter_never_falls(after_calls(store, calls.drop_last()), calls.last());
    }
}

/// Identifiers come out in strictly rising order: in any sequence of calls
/// that leaves the counter within 32 bits, a creation hands out a smaller
/// identifier than every later creation, whatever was deleted in between.
/// So no identifier is handed out twice, to an epic or to a story.
pub proof fn lemma_identifiers_rise(store: DBStateView, calls: Seq<Call>, earlier: int, later: int)
    requires
        0 <= earlier < later < calls.len(),
        after_calls(store, calls).last_item_id <= u32::MAX,
        calls[earlier].handed_out(after_calls(store, calls.take(earlier))) is Some,
        calls[later].handed_out(after_calls(store, calls.take(later))) is Some,
    ensures
        calls[earlier].handed_out(after_calls(store, calls.take(earlier)))->0
            < calls[later].handed_out(after_calls(store, calls.take(later)))->0,
        store.last_item_id < calls[earlier].handed_out(after_calls(store, calls.take(earlier)))->0,
{
    let at_earlier = after_calls(store, calls.take(earlier));
    let at_later = after_calls(store, calls.take(later));
    let past_earlier = calls.take(earlier + 1);
    let past_later = calls.take(later + 1);
    assert(past_earlier.drop_last() =~= calls.take(earlier));
    assert(past_later.drop_last() =~= calls.take(later));
    assert(calls.take(later).take(earlier + 1) =~= past_earlier);
    lemma_counter_never_falls(at_earlier, calls[earlier]);
    lemma_counter_never_falls(at_later, calls[later]);
    lemma_counter_grows_with_calls(store, calls.take(later), earlier + 1);
    lemma_counter_grows_with_calls(store, calls, later + 1);
    lemma_counter_grows_with_calls(store, calls.take(earlier), 0);
    assert(calls.take(earlier).take(0) =~= Seq::<Call>::empty());
}

/// In a consistent store the next identifier is in use by no epic and by no
/// story.
pub proof fn lemma_next_identifier_is_fresh(store: DBStateView)
    requires
        store.wf(),
        store.last_item_id < u32::MAX,
    ensures
        !store.epics.contains_key(store.next_id()),
        !store.stories.contains_key(store.next_id()),
{
}

/// Every call keeps a consistent store consistent.
pub proof fn lemma_calls_keep_wf(store: DBStateView, call: Call)
    requires
        store.wf(),
        call.handed_out(store) is Some ==> store.last_item_id < u32::MAX,
    ensures
        call.apply(store).wf(),
{
    if call.failure(store) is None {
        match call {
            Call::CreateEpic { epic } => lemma_create_epic_keeps_wf(store, epic),
            Call::CreateStory { story, epic_id } => lemma_create_story_keeps_wf(
                store,
                story,
                epic_id,
            ),
            Call::DeleteEpic { epic_id } => lemma_delete_epic_keeps_wf(store, epic_id),
            Call::DeleteStory { epic_id, story_id } => lemma_delete_story_keeps_wf(
                store,
                epic_id,
                story_id,
            ),
            Call::UpdateEpicStatus { epic_id, status } => lemma_update_status_keeps_wf(
                store,
                epic_id,
                status,
            ),
            Call::UpdateStoryStatus { story_id, status } => lemma_update_status_keeps_wf(
                store,
                story_id,
                status,
            ),
        }
    }
}

/// Deleting an epic takes it and every story it listed out of the store and
/// leaves the rest as it was. In a consistent store no story that remains
/// belonged to the deleted epic: each is still listed by an epic that
/// remains.
pub proof fn lemma_delete_epic_cascades(store: DBStateView, epic_id: u32)
    requires
        store.epics.contains_key(epic_id),
    ensures
        !store.delete_epic(epic_id).epics.contains_key(epic_id),
        forall|story_id: u32| #[trigger]
            store.owns(epic_id, story_id) ==> !store.delete_epic(epic_id).stories.contains_key(
                story_id,
            ),
        forall|other: u32|
            other != epic_id ==> (#[trigger] store.delete_epic(epic_id).epics.contains_key(other)
                <==> store.epics.contains_key(other)),
        forall|other: u32|
            other != epic_id && store.epics.contains_key(other) ==> #[trigger] store.delete_epic(
                epic_id,
            ).epics[other] == store.epics[other],
        forall|story_id: u32|
            !store.owns(epic_id, story_id) ==> (#[trigger] store.delete_epic(
                epic_id,
            ).stories.contains_key(story_id) <==> store.stories.contains_key(story_id)),
        forall|story_id: u32| #[trigger]
            store.delete_epic(epic_id).stories.contains_key(story_id) ==> store.delete_epic(
                epic_id,
            ).stories[story_id] == store.stories[story_id],
        store.delete_epic(epic_id).last_item_id == store.last_item_id,
        store.wf() ==> forall|story_id: u32| #[trigger]
            store.delete_epic(epic_id).stories.contains_key(story_id) ==> exists|owner: u32|
                owner != epic_id && store.delete_epic(epic_id).owns(owner, story_id),
{
    let after = store.delete_epic(epic_id);
    if store.wf() {
        lemma_delete_epic_keeps_wf(store, epic_id);
        assert forall|story_id: u32| #[trigger] after.stories.contains_key(story_id) implies exists|
            owner: u32,
        |
            owner != epic_id && after.owns(owner, story_id) by {
            let owner = choose|owner: u32| after.owns(owner, story_id);
            assert(owner != epic_id && after.owns(owner, story_id));
        }
    }
}

/// Deleting a story takes it out of the store and takes its first
/// occurrence off the list of its epic; every other epic, every other story
/// and the rest of the epic stay as they were. Where the list held the story
/// once, it holds it no longer.
pub proof fn lemma_delete_story_is_local(store: DBStateView, epic_id: u32, story_id: u32)
    requires
        store.owns(epic_id, story_id),
    ensures
        !store.delete_story(epic_id, story_id).stories.contains_key(story_id),
        forall|other: u32|
            other != story_id ==> (#[trigger] store.delete_story(
                epic_id,
                story_id,
            ).stories.contains_key(other) <==> store.stories.contains_key(other)),
        forall|other: u32|
            other != story_id && store.stories.contains_key(other) ==> #[trigger] store.delete_story(
                epic_id,
                story_id,
            ).stories[other] == store.stories[other],
        store.delete_story(epic_id, story_id).epics.dom() == store.epics.dom(),
        forall|other: u32|
            other != epic_id && store.epics.contains_key(other) ==> #[trigger] store.delete_story(
                epic_id,
                story_id,
            ).epics[other] == store.epics[other],
        store.delete_story(epic_id, story_id).epics[epic_id] == (EpicView {
            stories: without_first(store.epics[epic_id].stories, story_id),
            ..store.epics[epic_id]
        }),
        store.delete_story(epic_id, story_id).epics[epic_id].stories.len()
            == store.epics[epic_id].stories.len() - 1,
        store.epics[epic_id].stories.no_duplicates() ==> !store.delete_story(
            epic_id,
            story_id,
        ).owns(epic_id, story_id),
        store.delete_story(epic_id, story_id).last_item_id == store.last_item_id,
{
    let after = store.delete_story(epic_id, story_id);
    let listed = store.epics[epic_id].stories;
    lemma_position_in_list(listed, story_id);
    assert(after.epics.dom() =~= store.epics.dom());
    if listed.no_duplicates() {
        lemma_without_first(listed, story_id);
    }
}

/// Every call of the sequence creates an epic or a story.
pub open spec fn only_creations(calls: Seq<Call>) -> bool {
    forall|i: int|
        0 <= i < calls.len() ==> (#[trigger] calls[i]) is CreateEpic || calls[i] is CreateStory
}

/// The identifiers that the calls hand out to epics, in the order of the
/// calls.
pub open spec fn created_epics(store: DBStateView, calls: Seq<Call>) -> Seq<u32>
    decreases calls.len(),
{
    if calls.len() == 0 {
        Seq::empty()
    } else {
        let earlier = created_epics(store, calls.drop_last());
        if calls.last() is CreateEpic {
            earlier.push(after_calls(store, calls.drop_last()).next_id())
        } else {
            earlier
        }
    }
}

/// The identifiers that the calls hand out to stories, in the order of the
/// calls. A call that fails hands out none.
pub open spec fn created_stories(store: DBStateView, calls: Seq<Call>) -> Seq<u32>
    decreases calls.len(),
{
    if calls.len() == 0 {
        Seq::empty()
    } else {
        let earlier = created_stories(store, calls.drop_last());
        let before = after_calls(store, calls.drop_last());
        if calls.last() is CreateStory && calls.last().handed_out(before) is Some {
            earlier.push(before.next_id())
        } else {
            earlier
        }
    }
}

/// What an empty store holds after any sequence of creations that leaves
/// the counter within 32 bits: its epics are the identifiers handed out to
/// epics and its stories those handed out to stories, the identifiers of the
/// epics rise in the order of the calls, and no identifier that went to a
/// story is an epic.
pub proof fn lemma_creations_fill_the_store(calls: Seq<Call>)
    requires
        only_creations(calls),
        after_calls(DBStateView::empty(), calls).last_item_id <= u32::MAX,
    ensures
        after_calls(DBStateView::empty(), calls).wf(),
        forall|id: u32| #[trigger]
            after_calls(DBStateView::empty(), calls).epics.contains_key(id) <==> created_epics(
                DBStateView::empty(),
                calls,
            ).contains(id),
        forall|id: u32| #[trigger]
            after_calls(DBStateView::empty(), calls).stories.contains_key(id) <==> created_stories(
                DBStateView::empty(),
                calls,
            ).contains(id),
        forall|i: int, j: int|
            0 <= i < j < created_epics(DBStateView::empty(), calls).len() ==> created_epics(
                DBStateView::empty(),
                calls,
            )[i] < created_epics(DBStateView::empty(), calls)[j],
        forall|i: int|
            0 <= i < created_epics(DBStateView::empty(), calls).len() ==> (#[trigger] created_epics(
                DBStateView::empty(),
                calls,
            )[i]) <= after_calls(DBStateView::empty(), calls).last_item_id,
        forall|id: u32| #[trigger]
            created_stories(DBStateView::empty(), calls).contains(id) ==> !created_epics(
                DBStateView::empty(),
                calls,
            ).contains(id),
    decreases calls.len(),
{
    let start = DBStateView::empty();
    let store = after_calls(start, calls);
    let epics = created_epics(start, calls);
    let stories = created_stories(start, calls);
    if calls.len() > 0 {
        let earlier = calls.drop_last();
        let call = calls.last();
        let before = after_calls(start, earlier);
        let epics_before = created_epics(start, earlier);
        let stories_before = created_stories(start, earlier);
        lemma_counter_never_falls(before, call);
        assert(only_creations(earlier)) by {
            assert forall|i: int| 0 <= i < earlier.len() implies (#[trigger] earlier[i])
                is CreateEpic || earlier[i] is CreateStory by {
                assert(earlier[i] == calls[i]);
            }
        }
        lemma_creations_fill_the_store(earlier);
        lemma_calls_keep_wf(before, call);
        let id = before.next_id();
        if call.handed_out(before) is Some {
            assert(id == before.last_item_id + 1);
            assert(!before.epics.contains_key(id) && !before.stories.contains_key(id));
        }
        if call is CreateEpic {
            assert(epics == epics_before.push(id));
            assert(stories == stories_before);
            assert forall|other: u32| #[trigger]
                store.epics.contains_key(other) <==> epics.contains(other) by {
                lemma_pushed_members(epics_before, id, other);
                assert(before.epics.contains_key(other) <==> epics_before.contains(other));
            }
            assert forall|i: int, j: int| 0 <= i < j < epics.len() implies epics[i] < epics[j] by {
                if j < epics_before.len() {
                    assert(epics[i] == epics_before[i] && epics[j] == epics_before[j]);
                } else {
                    assert(epics[i] == epics_before[i]);
                    assert(epics_before[i] <= before.last_item_id);
                }
            }
            assert forall|i: int| 0 <= i < epics.len() implies (#[trigger] epics[i])
                <= store.last_item_id by {
                if i < epics_before.len() {
                    assert(epics[i] == epics_before[i]);
                    assert(epics_before[i] <= before.last_item_id);
                }
            }
            assert forall|other: u32| #[trigger] stories.contains(other) implies !epics.contains(
                other,
            ) by {
                lemma_pushed_members(epics_before, id, other);
                assert(before.stories.contains_key(other));
            }
        } else {
            assert(epics == epics_before);
            assert forall|other: u32| #[trigger]
                store.epics.contains_key(other) <==> epics.contains(other) by {
                assert(before.epics.contains_key(other) <==> epics_before.contains(other));
            }
            assert forall|i: int| 0 <= i < epics.len() implies (#[trigger] epics[i])
                <= store.last_item_id by {
                assert(epics_before[i] <= before.last_item_id);
            }
            if call.handed_out(before) is Some {
                assert(stories == stories_before.push(id));
                assert forall|other: u32| #[trigger]
                    store.stories.contains_key(other) <==> stories.contains(other) by {
                    lemma_pushed_members(stories_before, id, other);
                    assert(before.stories.contains_key(other) <==> stories_before.contains(other));
                }
                assert forall|other: u32| #[trigger] stories.contains(other) implies !epics.contains(
                    other,
                ) by {
                    lemma_pushed_members(stories_before, id, other);
                    if other == id {
                        assert(!before.epics.contains_key(id));
                    }
                }
            } else {
                assert(stories == stories_before);
                assert(store == before);
            }
        }
    }
}

/// A list with one more item at its end holds that item and what it held.
pub proof fn lemma_pushed_members(list: Seq<u32>, last: u32, id: u32)
    ensures
        list.push(last).contains(id) <==> id == last || list.contains(id),
{
    let longer = list.push(last);
    if longer.contains(id) {
        let i = choose|i: int| 0 <= i < longer.len() && longer[i] == id;
        if i < list.len() {
            assert(list[i] == id);
        }
    }
    if list.contains(id) {
        let i = choose|i: int| 0 <= i < list.len() && list[i] == id;
        assert(longer[i] == id);
    }
    if id == last {
        assert(longer[list.len() as int] == id);
    }
}

} // verus!
