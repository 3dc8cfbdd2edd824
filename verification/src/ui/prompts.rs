//! What the user answers when an action needs more than a key: the fields
//! of a new epic or story, a confirmation, a status.
//!
//! Reading the answers is left to the caller; what an answer means is
//! decided here.
use crate::models::{Action, Epic, EpicView, Status, Story, StoryView};
use crate::text::{parse_i32, parsed_i32, str_eq, trim, trimmed};
use vstd::prelude::*;
use vstd::string::*;

verus! {

/// The questions that an action can put to the user.
#[derive(Debug, PartialEq, Eq, Clone, Copy, Structural)]
pub enum Prompt {
    /// The name and the description of a new epic.
    CreateEpic,
    /// The name and the description of a new story.
    CreateStory,
    /// Whether the epic is to be deleted.
    DeleteEpic,
    /// Whether the story is to be deleted.
    DeleteStory,
    /// The new status of an epic or a story.
    UpdateStatus,
}

impl Prompt {
    /// The question that `action` puts, if it puts one.
    pub open spec fn of(action: Action) -> Option<Prompt> {
        match action {
            Action::CreateEpic => Some(Prompt::CreateEpic),
            Action::CreateStory { .. } => Some(Prompt::CreateStory),
            Action::DeleteEpic { .. } => Some(Prompt::DeleteEpic),
            Action::DeleteStory { .. } => Some(Prompt::DeleteStory),
            Action::UpdateEpicStatus { .. } | Action::UpdateStoryStatus { .. } => Some(
                Prompt::UpdateStatus,
            ),
            Action::NavigateToEpicDetail { .. }
            | Action::NavigateToStoryDetail { .. }
            | Action::NavigateToPreviousPage
            | Action::Exit => None,
        }
    }

    /// The question to put to the user before `action` is carried out.
    pub fn for_action(action: Action) -> (prompt: Option<Prompt>)
        ensures
            prompt == Prompt::of(action),
    {
        match action {
            Action::CreateEpic => Some(Prompt::CreateEpic),
            Action::CreateStory { .. } => Some(Prompt::CreateStory),
            Action::DeleteEpic { .. } => Some(Prompt::DeleteEpic),
            Action::DeleteStory { .. } => Some(Prompt::DeleteStory),
            Action::UpdateEpicStatus { .. } => Some(Prompt::UpdateStatus),
            Action::UpdateStoryStatus { .. } => Some(Prompt::UpdateStatus),
            _ => None,
        }
    }
}

/// The answers that the navigator acts on, one for each question.
#[derive(Debug, PartialEq, Eq, Clone)]
pub struct Prompts {
    pub create_epic: Epic,
    pub create_story: Story,
    pub delete_epic: bool,
    pub delete_story: bool,
    pub update_status: Option<Status>,
}

/// The answers as plain mathematical values.
pub struct PromptsView {
    pub create_epic: EpicView,
    pub create_story: StoryView,
    pub delete_epic: bool,
    pub delete_story: bool,
    pub update_status: Option<Status>,
}

impl View for Prompts {
    type V = PromptsView;

    open spec fn view(&self) -> PromptsView {
        PromptsView {
            create_epic: self.create_epic@,
            create_story: self.create_story@,
            delete_epic: self.delete_epic,
            delete_story: self.delete_story,
            update_status: self.update_status,
        }
    }
}

impl PromptsView {
    /// The answers before anyone was asked: nameless items, no deletion
    /// confirmed, no status chosen.
    pub open spec fn unanswered() -> PromptsView {
        PromptsView {
            create_epic: EpicView::fresh(Seq::empty(), Seq::empty()),
            create_story: StoryView::fresh(Seq::empty(), Seq::empty()),
            delete_epic: false,
            delete_story: false,
            update_status: None,
        }
    }
}

impl Prompts {
    /// Answers under which no action deletes anything or changes a status.
    pub fn new() -> (prompts: Prompts)
        ensures
            prompts@ == PromptsView::unanswered(),
    {
        Prompts {
            create_epic: Epic::new(String::new(), String::new()),
            create_story: Story::new(String::new(), String::new()),
            delete_epic: false,
            delete_story: false,
            update_status: None,
        }
    }
}

/// The answers once `prompt` was put and answered with the lines `first` and
/// `second`: the answer to that question, and every other as it was before
/// anyone was asked. An epic or a story is made of both lines, name first;
/// a confirmation and a status are read from the first alone.
pub open spec fn answers_after(prompt: Prompt, first: Seq<char>, second: Seq<char>)
    -> PromptsView {
    let unanswered = PromptsView::unanswered();
    match prompt {
        Prompt::CreateEpic => PromptsView {
            create_epic: EpicView::fresh(first, second),
            ..unanswered
        },
        Prompt::CreateStory => PromptsView {
            create_story: StoryView::fresh(first, second),
            ..unanswered
        },
        Prompt::DeleteEpic => PromptsView { delete_epic: trimmed(first) == "Y"@, ..unanswered },
        Prompt::DeleteStory => PromptsView { delete_story: trimmed(first) == "Y"@, ..unanswered },
        Prompt::UpdateStatus => PromptsView {
            update_status: status_of_choice(trimmed(first)),
            ..unanswered
        },
    }
}

/// The answers once `prompt` was put and the user typed `first` and, where
/// the question has two parts, `second`.
pub fn answered(prompt: Prompt, first: String, second: String) -> (answers: Prompts)
    ensures
        answers@ == answers_after(prompt, first@, second@),
{
    let mut answers = Prompts::new();
    match prompt {
        Prompt::CreateEpic => {
            answers.create_epic = create_epic_prompt(first, second);
        },
        Prompt::CreateStory => {
            answers.create_story = create_story_prompt(first, second);
        },
        Prompt::DeleteEpic => {
            answers.delete_epic = delete_epic_prompt(first.as_str());
        },
        Prompt::DeleteStory => {
            answers.delete_story = delete_story_prompt(first.as_str());
        },
        Prompt::UpdateStatus => {
            answers.update_status = update_status_prompt(first.as_str());
        },
    }
    answers
}

/// The epic that the user described, from the two lines typed.
pub fn create_epic_prompt(name: String, description: String) -> (epic: Epic)
    ensures
        epic@ == EpicView::fresh(name@, description@),
{
    Epic::new(name, description)
}

/// The story that the user described, from the two lines typed.
pub fn create_story_prompt(name: String, description: String) -> (story: Story)
    ensures
        story@ == StoryView::fresh(name@, description@),
{
    Story::new(name, description)
}

/// Whether `answer` confirms a deletion: it does if it is a capital `Y`.
pub fn is_confirmation(answer: &str) -> (confirmed: bool)
    ensures
        confirmed == (answer@ == "Y"@),
{
    str_eq(answer, "Y")
}

/// Whether the line typed confirms that the epic is to be deleted, with all
/// its stories.
pub fn delete_epic_prompt(input: &str) -> (confirmed: bool)
    ensures
        confirmed == (trimmed(input@) == "Y"@),
{
    is_confirmation(trim(input))
}

/// Whether the line typed confirms that the story is to be deleted.
pub fn delete_story_prompt(input: &str) -> (confirmed: bool)
    ensures
        confirmed == (trimmed(input@) == "Y"@),
{
    is_confirmation(trim(input))
}

/// The status that a choice stands for: 1 is open, 2 in progress, 3
/// resolved, 4 closed; anything else is no status.
pub open spec fn status_of_choice(choice: Seq<char>) -> Option<Status> {
    match parsed_i32(choice) {
        Some(number) => if number == 1 {
            Some(Status::Open)
        } else if number == 2 {
            Some(Status::InProgress)
        } else if number == 3 {
            Some(Status::Resolved)
        } else if number == 4 {
            Some(Status::Closed)
        } else {
            None
        },
        None => None,
    }
}

/// The status that `choice` stands for, if it stands for one.
pub fn choose_status(choice: &str) -> (status: Option<Status>)
    ensures
        status == status_of_choice(choice@),
{
    match parse_i32(choice) {
        Some(1) => Some(Status::Open),
        Some(2) => Some(Status::InProgress),
        Some(3) => Some(Status::Resolved),
        Some(4) => Some(Status::Closed),
        _ => None,
    }
}

/// The status that the line typed chooses, if it chooses one.
pub fn update_status_prompt(input: &str) -> (status: Option<Status>)
    ensures
        status == status_of_choice(trimmed(input@)),
{
    choose_status(trim(input))
}

} // verus!
