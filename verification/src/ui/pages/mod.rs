//! The pages of the tracker: what each shows of the store, and which action
//! each makes of what the user typed.
use crate::db::{
    after_calls, created_epics, created_stories, lemma_creations_fill_the_store, only_creations,
    Call, JiraDatabase,
};
use crate::models::{Action, DBStateView, EpicView, Error, Status, StoryView};
use crate::text::{
    decimal_string, decimal_text, is_digit, lemma_decimal_text_reads_back, parse_u32, parsed_u32,
    str_eq,
};
use vstd::prelude::*;
use vstd::string::*;

pub mod listing;
pub mod page_helpers;

use listing::{
    ascending, ascending_members, in_ascending_order, is_ascending, keys_in_ascending_order,
    lemma_ascending_is_unique, lemma_members_once, lemma_same_members_same_multiset,
};
use page_helpers::{column_string, get_column_string, lemma_cell_has_width};

verus! {

/// A row of a table: identifier, name and status in cells of 12, 34 and 17.
pub open spec fn summary_row(id: u32, name: Seq<char>, status: Status) -> Seq<char> {
    column_string(decimal_text(id as nat), 12) + "|"@ + column_string(name, 34) + "|"@
        + column_string(status.label(), 17) + "\n"@
}

/// The row of a detail page: identifier, name and description in cells of 6,
/// 14 and 29, and the status in a cell of `status_width`.
pub open spec fn detail_row(
    id: u32,
    name: Seq<char>,
    description: Seq<char>,
    status: Status,
    status_width: nat,
) -> Seq<char> {
    column_string(decimal_text(id as nat), 6) + "|"@ + column_string(name, 14) + "|"@
        + column_string(description, 29) + "|"@ + column_string(status.label(), status_width)
        + "\n"@
}

/// One row for each identifier of `ids` that is an epic, in the order of
/// `ids`.
pub open spec fn epic_rows(ids: Seq<u32>, epics: Map<u32, EpicView>) -> Seq<char>
    decreases ids.len(),
{
    if ids.len() == 0 {
        Seq::empty()
    } else {
        let id = ids.last();
        epic_rows(ids.drop_last(), epics) + if epics.contains_key(id) {
            summary_row(id, epics[id].name, epics[id].status)
        } else {
            Seq::empty()
        }
    }
}

/// One row for each identifier of `ids` that is a story, in the order of
/// `ids`.
pub open spec fn story_rows(ids: Seq<u32>, stories: Map<u32, StoryView>) -> Seq<char>
    decreases ids.len(),
{
    if ids.len() == 0 {
        Seq::empty()
    } else {
        let id = ids.last();
        story_rows(ids.drop_last(), stories) + if stories.contains_key(id) {
            summary_row(id, stories[id].name, stories[id].status)
        } else {
            Seq::empty()
        }
    }
}

/// The home page: every epic of the store, by ascending identifier.
pub open spec fn home_text(store: DBStateView) -> Seq<char> {
    "----------------------------- EPICS -----------------------------\n"@
        + "     id     |               name               |      status     \n"@ + epic_rows(
        ascending_members(store.epics.dom()),
        store.epics,
    ) + "\n[q] quit | [c] create epic | [:id:] navigate to epic\n"@
}

/// The page of epic `epic_id`: the epic, then the stories that it lists, by
/// ascending identifier.
pub open spec fn epic_detail_text(epic_id: u32, store: DBStateView) -> Seq<char>
    recommends
        store.epics.contains_key(epic_id),
{
    let epic = store.epics[epic_id];
    "------------------------------ EPIC ------------------------------\n"@
        + "  id  |     name     |         description         |    status    \n"@ + detail_row(
        epic_id,
        epic.name,
        epic.description,
        epic.status,
        14,
    ) + "\n\n\n"@ + "---------------------------- STORIES ----------------------------\n"@
        + "     id     |               name               |      status      \n"@ + story_rows(
        ascending(epic.stories),
        store.stories,
    ) + "\n\n\n"@
        + "[p] previous | [u] update epic | [d] delete epic | [c] create story | [:id:] navigate to story\n"@
}

/// The page of story `story_id`.
pub open spec fn story_detail_text(story_id: u32, store: DBStateView) -> Seq<char>
    recommends
        store.stories.contains_key(story_id),
{
    let story = store.stories[story_id];
    "------------------------------ STORY ------------------------------\n"@
        + "  id  |     name     |         description         |    status    \n"@ + detail_row(
        story_id,
        story.name,
        story.description,
        story.status,
        15,
    ) + "\n\n\n"@ + "[p] previous | [u] update story | [d] delete story\n"@
}

fn summary_row_string(id: u32, name: &str, status: Status) -> (row: String)
    ensures
        row@ == summary_row(id, name@, status),
{
    let mut row = get_column_string(decimal_string(id).as_str(), 12);
    row.append("|");
    row.append(get_column_string(name, 34).as_str());
    row.append("|");
    row.append(get_column_string(status.to_string().as_str(), 17).as_str());
    row.append("\n");
    row
}

fn detail_row_string(
    id: u32,
    name: &str,
    description: &str,
    status: Status,
    status_width: usize,
) -> (row: String)
    ensures
        row@ == detail_row(id, name@, description@, status, status_width as nat),
{
    let mut row = get_column_string(decimal_string(id).as_str(), 6);
    row.append("|");
    row.append(get_column_string(name, 14).as_str());
    row.append("|");
    row.append(get_column_string(description, 29).as_str());
    row.append("|");
    row.append(get_column_string(status.to_string().as_str(), status_width).as_str());
    row.append("\n");
    row
}

/// A screen of the tracker.
pub trait Page {
    /// What the page shows of `store`, or why it cannot be shown.
    spec fn rendering(&self, store: DBStateView) -> Result<Seq<char>, Error>;

    /// The action that `input` asks for on this page, if it asks for one.
    spec fn action(&self, input: Seq<char>, store: DBStateView) -> Option<Action>;

    /// Renders the page from the database. A page whose epic or story the
    /// store no longer holds cannot be rendered.
    fn draw_page(&self, db: &JiraDatabase) -> (page: Result<String, Error>)
        ensures
            match page {
                Ok(text) => self.rendering(db@) == Ok::<Seq<char>, Error>(text@),
                Err(error) => self.rendering(db@) == Err::<Seq<char>, Error>(error),
            },
    ;

    /// Maps trimmed input to an action. Input that the page does not know,
    /// or a number that names nothing in the store, is no action.
    fn handle_input(&self, input: &str, db: &JiraDatabase) -> (action: Option<Action>)
        ensures
            action == self.action(input@, db@),
    ;
}

/// The page that lists the epics.
#[derive(Debug, PartialEq, Eq, Clone, Copy, Structural)]
pub struct HomePage {}

/// The page of one epic.
#[derive(Debug, PartialEq, Eq, Clone, Copy, Structural)]
pub struct EpicDetail {
    pub epic_id: u32,
}

/// The page of one story, reached from its epic.
#[derive(Debug, PartialEq, Eq, Clone, Copy, Structural)]
pub struct StoryDetail {
    pub epic_id: u32,
    pub story_id: u32,
}

impl Page for HomePage {
    open spec fn rendering(&self, store: DBStateView) -> Result<Seq<char>, Error> {
        Ok(home_text(store))
    }

    /// `q` leaves, `c` creates an epic, and the identifier of an epic of the
    /// store opens that epic.
    open spec fn action(&self, input: Seq<char>, store: DBStateView) -> Option<Action> {
        if input == "q"@ {
            Some(Action::Exit)
        } else if input == "c"@ {
            Some(Action::CreateEpic)
        } else {
            match parsed_u32(input) {
                Some(epic_id) => if store.epics.contains_key(epic_id) {
                    Some(Action::NavigateToEpicDetail { epic_id })
                } else {
                    None
                },
                None => None,
            }
        }
    }

    fn draw_page(&self, db: &JiraDatabase) -> (page: Result<String, Error>) {
        let state = db.read_db();
        let mut page = String::new();
        page.append("----------------------------- EPICS -----------------------------\n");
        page.append("     id     |               name               |      status     \n");
        let ghost heading = page@;
        let ids = keys_in_ascending_order(&state.epics);
        assert(state@.epics.dom() =~= state.epics@.dom());
        let mut i: usize = 0;
        while i < ids.len()
            invariant
                i <= ids.len(),
                page@ == heading + epic_rows(ids@.take(i as int), state@.epics),
            decreases ids.len() - i,
        {
            let id = ids[i];
            proof {
                assert(ids@.take(i + 1).drop_last() =~= ids@.take(i as int));
            }
            match state.epics.get(&id) {
                Some(epic) => {
                    page.append(summary_row_string(id, epic.name.as_str(), epic.status).as_str());
                },
                None => {
                    assert(page@ + Seq::<char>::empty() =~= page@);
                },
            }
            i += 1;
        }
        assert(ids@.take(i as int) =~= ids@);
        page.append("\n[q] quit | [c] create epic | [:id:] navigate to epic\n");
        assert(page@ =~= home_text(db@));
        Ok(page)
    }

    fn handle_input(&self, input: &str, db: &JiraDatabase) -> (action: Option<Action>) {
        if str_eq(input, "q") {
            Some(Action::Exit)
        } else if str_eq(input, "c") {
            Some(Action::CreateEpic)
        } else {
            match parse_u32(input) {
                Some(epic_id) => {
                    if db.read_db().epics.contains_key(&epic_id) {
                        Some(Action::NavigateToEpicDetail { epic_id })
                    } else {
                        None
                    }
                },
                None => None,
            }
        }
    }
}

impl Page for EpicDetail {
    open spec fn rendering(&self, store: DBStateView) -> Result<Seq<char>, Error> {
        if store.epics.contains_key(self.epic_id) {
            Ok(epic_detail_text(self.epic_id, store))
        } else {
            Err(Error::StaleReference)
        }
    }

    /// `p` goes back; `u`, `d` and `c` update the epic, delete it, and create
    /// a story in it. The identifier of a story of the store opens that
    /// story, whichever epic lists it.
    open spec fn action(&self, input: Seq<char>, store: DBStateView) -> Option<Action> {
        if input == "p"@ {
            Some(Action::NavigateToPreviousPage)
        } else if input == "u"@ {
            Some(Action::UpdateEpicStatus { epic_id: self.epic_id })
        } else if input == "d"@ {
            Some(Action::DeleteEpic { epic_id: self.epic_id })
        } else if input == "c"@ {
            Some(Action::CreateStory { epic_id: self.epic_id })
        } else {
            match parsed_u32(input) {
                Some(story_id) => if store.stories.contains_key(story_id) {
                    Some(Action::NavigateToStoryDetail { epic_id: self.epic_id, story_id })
                } else {
                    None
                },
                None => None,
            }
        }
    }

    fn draw_page(&self, db: &JiraDatabase) -> (page: Result<String, Error>) {
        let state = db.read_db();
        let epic = match state.epics.get(&self.epic_id) {
            Some(epic) => epic,
            None => {
                return Err(Error::StaleReference);
            },
        };
        let mut page = String::new();
        page.append("------------------------------ EPIC ------------------------------\n");
        page.append("  id  |     name     |         description         |    status    \n");
        page.append(
            detail_row_string(
                self.epic_id,
                epic.name.as_str(),
                epic.description.as_str(),
                epic.status,
                14,
            ).as_str(),
        );
        page.append("\n\n\n");
        page.append("---------------------------- STORIES ----------------------------\n");
        page.append("     id     |               name               |      status      \n");
        let ghost heading = page@;
        let ids = in_ascending_order(&epic.stories);
        let mut i: usize = 0;
        while i < ids.len()
            invariant
                i <= ids.len(),
                page@ == heading + story_rows(ids@.take(i as int), state@.stories),
            decreases ids.len() - i,
        {
            let id = ids[i];
            proof {
                assert(ids@.take(i + 1).drop_last() =~= ids@.take(i as int));
            }
            match state.stories.get(&id) {
                Some(story) => {
                    page.append(summary_row_string(id, story.name.as_str(), story.status).as_str());
                },
                None => {
                    assert(page@ + Seq::<char>::empty() =~= page@);
                },
            }
            i += 1;
        }
        assert(ids@.take(i as int) =~= ids@);
        page.append("\n\n\n");
        page.append(
            "[p] previous | [u] update epic | [d] delete epic | [c] create story | [:id:] navigate to story\n",
        );
        assert(page@ =~= epic_detail_text(self.epic_id, db@));
        Ok(page)
    }

    fn handle_input(&self, input: &str, db: &JiraDatabase) -> (action: Option<Action>) {
        if str_eq(input, "p") {
            Some(Action::NavigateToPreviousPage)
        } else if str_eq(input, "u") {
            Some(Action::UpdateEpicStatus { epic_id: self.epic_id })
        } else if str_eq(input, "d") {
            Some(Action::DeleteEpic { epic_id: self.epic_id })
        } else if str_eq(input, "c") {
            Some(Action::CreateStory { epic_id: self.epic_id })
        } else {
            match parse_u32(input) {
                Some(story_id) => {
                    if db.read_db().stories.contains_key(&story_id) {
                        Some(Action::NavigateToStoryDetail { epic_id: self.epic_id, story_id })
                    } else {
                        None
                    }
                },
                None => None,
            }
        }
    }
}

impl Page for StoryDetail {
    open spec fn rendering(&self, store: DBStateView) -> Result<Seq<char>, Error> {
        if store.stories.contains_key(self.story_id) {
            Ok(story_detail_text(self.story_id, store))
        } else {
            Err(Error::StaleReference)
        }
    }

    /// `p` goes back; `u` and `d` update the story and delete it.
    open spec fn action(&self, input: Seq<char>, store: DBStateView) -> Option<Action> {
        if input == "p"@ {
            Some(Action::NavigateToPreviousPage)
        } else if input == "u"@ {
            Some(Action::UpdateStoryStatus { story_id: self.story_id })
        } else if input == "d"@ {
            Some(Action::DeleteStory { epic_id: self.epic_id, story_id: self.story_id })
        } else {
            None
        }
    }

    fn draw_page(&self, db: &JiraDatabase) -> (page: Result<String, Error>) {
        let state = db.read_db();
        let story = match state.stories.get(&self.story_id) {
            Some(story) => story,
            None => {
                return Err(Error::StaleReference);
            },
        };
        let mut page = String::new();
        page.append("------------------------------ STORY ------------------------------\n");
        page.append("  id  |     name     |         description         |    status    \n");
        page.append(
            detail_row_string(
                self.story_id,
                story.name.as_str(),
                story.description.as_str(),
                story.status,
                15,
            ).as_str(),
        );
        page.append("\n\n\n");
        page.append("[p] previous | [u] update story | [d] delete story\n");
        assert(page@ =~= story_detail_text(self.story_id, db@));
        Ok(page)
    }

    fn handle_input(&self, input: &str, db: &JiraDatabase) -> (action: Option<Action>) {
        if str_eq(input, "p") {
            Some(Action::NavigateToPreviousPage)
        } else if str_eq(input, "u") {
            Some(Action::UpdateStoryStatus { story_id: self.story_id })
        } else if str_eq(input, "d") {
            Some(Action::DeleteStory { epic_id: self.epic_id, story_id: self.story_id })
        } else {
            None
        }
    }
}

/// The rows of a table line up: a row is 66 characters long, the line feed
/// included, whatever the identifier, the name and the status, and its bars
/// stand in columns 12 and 47.
pub proof fn lemma_rows_line_up(id: u32, name: Seq<char>, status: Status)
    ensures
        summary_row(id, name, status).len() == 66,
        summary_row(id, name, status)[12] == '|',
        summary_row(id, name, status)[47] == '|',
        summary_row(id, name, status)[65] == '\n',
{
    reveal_strlit("|");
    reveal_strlit("\n");
    lemma_cell_has_width(decimal_text(id as nat), 12);
    lemma_cell_has_width(name, 34);
    lemma_cell_has_width(status.label(), 17);
}

/// The home page after creations: on a store that was empty and then saw
/// any sequence of creations, the rows of the home page are the epics that
/// were created, one row each, from top to bottom in the order of the calls.
/// No story that was created has a row.
pub proof fn lemma_home_lists_created_epics(calls: Seq<Call>)
    requires
        only_creations(calls),
        after_calls(DBStateView::empty(), calls).last_item_id <= u32::MAX,
    ensures
        ascending_members(after_calls(DBStateView::empty(), calls).epics.dom()) == created_epics(
            DBStateView::empty(),
            calls,
        ),
        home_text(after_calls(DBStateView::empty(), calls))
            == "----------------------------- EPICS -----------------------------\n"@
            + "     id     |               name               |      status     \n"@ + epic_rows(
            created_epics(DBStateView::empty(), calls),
            after_calls(DBStateView::empty(), calls).epics,
        ) + "\n[q] quit | [c] create epic | [:id:] navigate to epic\n"@,
        forall|i: int|
            0 <= i < created_epics(DBStateView::empty(), calls).len() ==> after_calls(
                DBStateView::empty(),
                calls,
            ).epics.contains_key(#[trigger] created_epics(DBStateView::empty(), calls)[i]),
        forall|id: u32| #[trigger]
            created_stories(DBStateView::empty(), calls).contains(id) ==> !created_epics(
                DBStateView::empty(),
                calls,
            ).contains(id),
{
    let store = after_calls(DBStateView::empty(), calls);
    let created = created_epics(DBStateView::empty(), calls);
    lemma_creations_fill_the_store(calls);
    assert(store.epics.dom() =~= created.to_set());
    assert(is_ascending(created));
    assert(created.no_duplicates());
    lemma_members_once(store.epics.dom());
    lemma_same_members_same_multiset(created, store.epics.dom().to_seq());
    lemma_ascending_is_unique(created, store.epics.dom().to_seq());
    assert forall|i: int| 0 <= i < created.len() implies store.epics.contains_key(
        #[trigger] created[i],
    ) by {
        assert(created.contains(created[i]));
    }
}

/// What a table shows can be typed back: the identifier of an epic, written
/// as the home page writes it, opens that epic from the home page, and the
/// identifier of a story so written opens that story from the page of an
/// epic.
pub proof fn lemma_listed_item_can_be_opened(store: DBStateView, id: u32, from: EpicDetail)
    ensures
        store.epics.contains_key(id) ==> (HomePage {  }).action(decimal_text(id as nat), store)
            == Some(Action::NavigateToEpicDetail { epic_id: id }),
        store.stories.contains_key(id) ==> from.action(decimal_text(id as nat), store) == Some(
            Action::NavigateToStoryDetail { epic_id: from.epic_id, story_id: id },
        ),
{
    let typed = decimal_text(id as nat);
    lemma_decimal_text_reads_back(id as nat);
    reveal_strlit("q");
    reveal_strlit("c");
    reveal_strlit("p");
    reveal_strlit("u");
    reveal_strlit("d");
    assert(is_digit(typed[0]));
    assert(typed != "q"@ && typed != "c"@ && typed != "p"@ && typed != "u"@ && typed != "d"@) by {
        assert("q"@[0] == 'q' && "c"@[0] == 'c' && "p"@[0] == 'p' && "u"@[0] == 'u' && "d"@[0]
            == 'd');
    }
}

} // verus!
