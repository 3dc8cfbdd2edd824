//! The navigator: a stack of pages, and what each action does to the stack
//! and to the store.
//!
//! The page on top is the one on show. An action that fails leaves the stack
//! and the store as they were.
use crate::db::{lemma_calls_keep_wf, Call, JiraDatabase};
use crate::models::{Action, DBStateView, Error};
use crate::ui::pages::{EpicDetail, HomePage, Page, StoryDetail};
use crate::ui::prompts::{Prompts, PromptsView};
use vstd::prelude::*;

verus! {

/// A page on the stack.
#[derive(Debug, PartialEq, Eq, Clone, Copy, Structural)]
pub enum Screen {
    Home(HomePage),
    EpicDetail(EpicDetail),
    StoryDetail(StoryDetail),
}

impl Page for Screen {
    open spec fn rendering(&self, store: DBStateView) -> Result<Seq<char>, Error> {
        match self {
            Screen::Home(page) => page.rendering(store),
            Screen::EpicDetail(page) => page.rendering(store),
            Screen::StoryDetail(page) => page.rendering(store),
        }
    }

    open spec fn action(&self, input: Seq<char>, store: DBStateView) -> Option<Action> {
        match self {
            Screen::Home(page) => page.action(input, store),
            Screen::EpicDetail(page) => page.action(input, store),
            Screen::StoryDetail(page) => page.action(input, store),
        }
    }

    fn draw_page(&self, db: &JiraDatabase) -> (page: Result<String, Error>) {
        match self {
            Screen::Home(page) => page.draw_page(db),
            Screen::EpicDetail(page) => page.draw_page(db),
            Screen::StoryDetail(page) => page.draw_page(db),
        }
    }

    fn handle_input(&self, input: &str, db: &JiraDatabase) -> (action: Option<Action>) {
        match self {
            Screen::Home(page) => page.handle_input(input, db),
            Screen::EpicDetail(page) => page.handle_input(input, db),
            Screen::StoryDetail(page) => page.handle_input(input, db),
        }
    }
}

/// The call of the database that `action` leads to under the answers given:
/// none for an action that only navigates, for a deletion that was not
/// confirmed, and for an update without a status.
pub open spec fn call_of(action: Action, answers: PromptsView) -> Option<Call> {
    match action {
        Action::CreateEpic => Some(Call::CreateEpic { epic: answers.create_epic }),
        Action::CreateStory { epic_id } => Some(
            Call::CreateStory { story: answers.create_story, epic_id },
        ),
        Action::UpdateEpicStatus { epic_id } => match answers.update_status {
            Some(status) => Some(Call::UpdateEpicStatus { epic_id, status }),
            None => None,
        },
        Action::UpdateStoryStatus { story_id } => match answers.update_status {
            Some(status) => Some(Call::UpdateStoryStatus { story_id, status }),
            None => None,
        },
        Action::DeleteEpic { epic_id } => if answers.delete_epic {
            Some(Call::DeleteEpic { epic_id })
        } else {
            None
        },
        Action::DeleteStory { epic_id, story_id } => if answers.delete_story {
            Some(Call::DeleteStory { epic_id, story_id })
        } else {
            None
        },
        Action::NavigateToEpicDetail { .. }
        | Action::NavigateToStoryDetail { .. }
        | Action::NavigateToPreviousPage
        | Action::Exit => None,
    }
}

/// The error with which `action` fails on `store`, if it fails. Only a call
/// of the database can fail.
pub open spec fn failure_of(action: Action, answers: PromptsView, store: DBStateView) -> Option<
    Error,
> {
    match call_of(action, answers) {
        Some(call) => call.failure(store),
        None => None,
    }
}

/// The store after `action`.
pub open spec fn store_after(action: Action, answers: PromptsView, store: DBStateView)
    -> DBStateView {
    match call_of(action, answers) {
        Some(call) => call.apply(store),
        None => store,
    }
}

/// `pages` without the page on top; an empty stack stays empty.
pub open spec fn popped(pages: Seq<Screen>) -> Seq<Screen> {
    if pages.len() > 0 {
        pages.drop_last()
    } else {
        pages
    }
}

/// The stack after `action` succeeded.
///
/// Leaving empties the stack. Opening an epic or a story pushes its page,
/// and going back pops one. Deleting an epic pops the page on top where that
/// is the page of the deleted epic. Everything else leaves the stack alone.
pub open spec fn pages_after(action: Action, answers: PromptsView, pages: Seq<Screen>) -> Seq<
    Screen,
> {
    match action {
        Action::Exit => Seq::empty(),
        Action::NavigateToEpicDetail { epic_id } => pages.push(
            Screen::EpicDetail(EpicDetail { epic_id }),
        ),
        Action::NavigateToStoryDetail { epic_id, story_id } => pages.push(
            Screen::StoryDetail(StoryDetail { epic_id, story_id }),
        ),
        Action::NavigateToPreviousPage => popped(pages),
        Action::DeleteEpic { epic_id } => if answers.delete_epic && pages.len() > 0 && pages.last()
            == Screen::EpicDetail(EpicDetail { epic_id }) {
            pages.drop_last()
        } else {
            pages
        },
        _ => pages,
    }
}

/// Owner of the page stack.
#[derive(Debug, Clone)]
pub struct Navigator {
    pages: Vec<Screen>,
}

impl View for Navigator {
    type V = Seq<Screen>;

    closed spec fn view(&self) -> Seq<Screen> {
        self.pages@
    }
}

impl Navigator {
    /// A navigator that shows the home page.
    pub fn new() -> (navigator: Navigator)
        ensures
            navigator@ == seq![Screen::Home(HomePage {  })],
            home_at_bottom(navigator@),
    {
        let mut pages: Vec<Screen> = Vec::new();
        pages.push(Screen::Home(HomePage {  }));
        assert(pages@ =~= seq![Screen::Home(HomePage {  })]);
        Navigator { pages }
    }

    /// The page on show: the top of the stack. There is none once the stack
    /// is empty.
    pub fn get_current_page(&self) -> (page: Option<Screen>)
        ensures
            page == if self@.len() > 0 {
                Some(self@.last())
            } else {
                None
            },
    {
        let count = self.pages.len();
        if count > 0 {
            Some(self.pages[count - 1])
        } else {
            None
        }
    }

    /// The height of the stack.
    pub fn get_page_count(&self) -> (count: usize)
        ensures
            count == self@.len(),
    {
        self.pages.len()
    }

    /// Carries `action` out, with the answers that the user gave to its
    /// question.
    ///
    /// Where the database refuses the call, its error comes back and nothing
    /// has changed. Otherwise the store and the stack are as `store_after`
    /// and `pages_after` say.
    pub fn handle_action(&mut self, action: Action, prompts: Prompts, db: &mut JiraDatabase) -> (done:
        Result<(), Error>)
        requires
            call_of(action, prompts@) matches Some(call) && call.handed_out(old(db)@) is Some
                ==> old(db)@.last_item_id < u32::MAX,
        ensures
            match done {
                Ok(()) => {
                    &&& failure_of(action, prompts@, old(db)@) is None
                    &&& final(db)@ == store_after(action, prompts@, old(db)@)
                    &&& final(self)@ == pages_after(action, prompts@, old(self)@)
                },
                Err(error) => {
                    &&& failure_of(action, prompts@, old(db)@) == Some(error)
                    &&& final(db)@ == old(db)@
                    &&& final(self)@ == old(self)@
                },
            },
            old(db)@.wf() ==> final(db)@.wf(),
            old(self)@.len() > 0 && home_at_bottom(old(self)@) ==> home_at_bottom(final(self)@),
    {
        proof {
            if old(self)@.len() > 0 && home_at_bottom(old(self)@) {
                lemma_home_stays_at_bottom(action, prompts@, old(self)@);
            }
        }
        match action {
            Action::NavigateToEpicDetail { epic_id } => {
                self.pages.push(Screen::EpicDetail(EpicDetail { epic_id }));
                Ok(())
            },
            Action::NavigateToStoryDetail { epic_id, story_id } => {
                self.pages.push(Screen::StoryDetail(StoryDetail { epic_id, story_id }));
                Ok(())
            },
            Action::NavigateToPreviousPage => {
                if self.pages.len() > 0 {
                    self.pages.pop();
                }
                Ok(())
            },
            Action::CreateEpic => {
                db.create_epic(prompts.create_epic);
                Ok(())
            },
            Action::CreateStory { epic_id } => {
                match db.create_story(prompts.create_story, epic_id) {
                    Ok(_) => Ok(()),
                    Err(error) => Err(error),
                }
            },
            Action::UpdateEpicStatus { epic_id } => {
                match prompts.update_status {
                    Some(status) => db.update_epic_status(epic_id, status),
                    None => Ok(()),
                }
            },
            Action::UpdateStoryStatus { story_id } => {
                match prompts.update_status {
                    Some(status) => db.update_story_status(story_id, status),
                    None => Ok(()),
                }
            },
            Action::DeleteEpic { epic_id } => {
                if prompts.delete_epic {
                    match db.delete_epic(epic_id) {
                        Ok(()) => {
                            let count = self.pages.len();
                            if count > 0 {
                                match self.pages[count - 1] {
                                    Screen::EpicDetail(page) => {
                                        if page.epic_id == epic_id {
                                            self.pages.pop();
                                        }
                                    },
                                    _ => {},
                                }
                            }
                            Ok(())
                        },
                        Err(error) => Err(error),
                    }
                } else {
                    Ok(())
                }
            },
            Action::DeleteStory { epic_id, story_id } => {
                if prompts.delete_story {
                    db.delete_story(epic_id, story_id)
                } else {
                    Ok(())
                }
            },
            Action::Exit => {
                self.pages.clear();
                Ok(())
            },
        }
    }
}

/// The shape of a stack that started on the home page: the home page is at
/// the bottom and nowhere else.
pub open spec fn home_at_bottom(pages: Seq<Screen>) -> bool {
    forall|i: int| 0 <= i < pages.len() ==> (#[trigger] pages[i] is Home <==> i == 0)
}

/// While there is a page on show, no action puts a page under the home page
/// or another home page above it: the stack keeps its shape, or is empty.
pub proof fn lemma_home_stays_at_bottom(action: Action, answers: PromptsView, pages: Seq<Screen>)
    requires
        pages.len() > 0,
        home_at_bottom(pages),
    ensures
        home_at_bottom(pages_after(action, answers, pages)),
{
    let after = pages_after(action, answers, pages);
    assert forall|i: int| 0 <= i < after.len() implies (#[trigger] after[i] is Home <==> i == 0) by {
        if i < pages.len() {
            assert(after[i] == pages[i]);
        }
    }
}

/// The run ends with `Exit` and with nothing else: an action that the page
/// on show makes of the input empties a stack with the home page at its
/// bottom if and only if it is `Exit`.
pub proof fn lemma_only_exit_ends_the_run(
    pages: Seq<Screen>,
    input: Seq<char>,
    store: DBStateView,
    answers: PromptsView,
)
    requires
        pages.len() > 0,
        home_at_bottom(pages),
        pages.last().action(input, store) is Some,
    ensures
        pages_after(pages.last().action(input, store)->0, answers, pages).len() == 0
            <==> pages.last().action(input, store)->0 is Exit,
{
    let action = pages.last().action(input, store)->0;
    if action is NavigateToPreviousPage {
        assert(!(pages.last() is Home));
        assert(pages.len() > 1);
    }
}

/// A page is opened only for what the store holds: after an action that the
/// page on show makes of the input, a page of an epic or a story that the
/// action pushed can be rendered.
pub proof fn lemma_opened_page_can_be_shown(
    page: Screen,
    input: Seq<char>,
    store: DBStateView,
    answers: PromptsView,
    pages: Seq<Screen>,
)
    requires
        page.action(input, store) is Some,
        page.action(input, store)->0 is NavigateToEpicDetail || page.action(input, store)->0
            is NavigateToStoryDetail,
    ensures
        failure_of(page.action(input, store)->0, answers, store) is None,
        store_after(page.action(input, store)->0, answers, store) == store,
        pages_after(page.action(input, store)->0, answers, pages).drop_last() == pages,
        pages_after(page.action(input, store)->0, answers, pages).last().rendering(store) is Ok,
{
    let action = page.action(input, store)->0;
    let after = pages_after(action, answers, pages);
    assert(after.drop_last() =~= pages);
}

/// Whatever the action and the answers, a consistent store stays
/// consistent, and a refused action is no change at all.
pub proof fn lemma_actions_keep_wf(action: Action, answers: PromptsView, store: DBStateView)
    requires
        store.wf(),
        call_of(action, answers) matches Some(call) && call.handed_out(store) is Some
            ==> store.last_item_id < u32::MAX,
    ensures
        store_after(action, answers, store).wf(),
        failure_of(action, answers, store) is Some ==> store_after(action, answers, store) == store,
{
    match call_of(action, answers) {
        Some(call) => lemma_calls_keep_wf(store, call),
        None => {},
    }
}

} // verus!
