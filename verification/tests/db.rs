use issue_tracker::db::JiraDatabase;
use issue_tracker::models::{DBState, Epic, Error, Status, Story};
use std::collections::HashMap;

fn epic(name: &str) -> Epic {
    Epic::new(name.to_owned(), "".to_owned())
}

fn story(name: &str) -> Story {
    Story::new(name.to_owned(), "".to_owned())
}

#[test]
fn new_epic_is_open_and_has_no_stories() {
    let created = Epic::new("name".to_owned(), "description".to_owned());
    assert_eq!(created.name, "name");
    assert_eq!(created.description, "description");
    assert_eq!(created.status, Status::Open);
    assert_eq!(created.stories, Vec::<u32>::new());
}

#[test]
fn new_story_is_open() {
    let created = Story::new("name".to_owned(), "description".to_owned());
    assert_eq!(created.name, "name");
    assert_eq!(created.description, "description");
    assert_eq!(created.status, Status::Open);
}

#[test]
fn new_store_is_empty() {
    let state = DBState::new();
    assert_eq!(state.last_item_id, 0);
    assert!(state.epics.is_empty());
    assert!(state.stories.is_empty());
}

#[test]
fn identifiers_rise_across_epics_and_stories() {
    let mut db = JiraDatabase::new(DBState::new());
    assert_eq!(db.create_epic(epic("A")), 1);
    assert_eq!(db.create_story(story("B"), 1), Ok(2));
    assert_eq!(db.create_epic(epic("C")), 3);
    assert_eq!(db.create_story(story("D"), 3), Ok(4));
    assert_eq!(db.create_story(story("E"), 1), Ok(5));
    assert_eq!(db.read_db().last_item_id, 5);
    assert_eq!(db.read_db().epics[&1].stories, vec![2, 5]);
    assert_eq!(db.read_db().epics[&3].stories, vec![4]);
}

#[test]
fn identifiers_are_not_reused_after_deletion() {
    let mut db = JiraDatabase::new(DBState::new());
    assert_eq!(db.create_epic(epic("A")), 1);
    assert_eq!(db.create_story(story("B"), 1), Ok(2));
    db.delete_story(1, 2).unwrap();
    assert_eq!(db.create_story(story("C"), 1), Ok(3));
    db.delete_epic(1).unwrap();
    assert_eq!(db.read_db().last_item_id, 3);
    assert_eq!(db.create_epic(epic("D")), 4);
}

#[test]
fn created_items_are_stored_open_under_their_names() {
    let mut db = JiraDatabase::new(DBState::new());
    let mut given = Epic::new("A".to_owned(), "about A".to_owned());
    given.status = Status::Closed;
    given.stories = vec![77];
    db.create_epic(given);
    assert_eq!(
        db.read_db().epics[&1],
        Epic::new("A".to_owned(), "about A".to_owned())
    );

    let mut given = Story::new("B".to_owned(), "about B".to_owned());
    given.status = Status::Resolved;
    db.create_story(given, 1).unwrap();
    assert_eq!(
        db.read_db().stories[&2],
        Story::new("B".to_owned(), "about B".to_owned())
    );
}

#[test]
fn create_story_needs_its_epic() {
    let mut db = JiraDatabase::new(DBState::new());
    assert_eq!(db.create_story(story("B"), 999), Err(Error::EpicNotFound));
    assert_eq!(db.read_db(), &DBState::new());
    db.create_epic(epic("A"));
    let before = db.read_db().clone();
    assert_eq!(db.create_story(story("B"), 2), Err(Error::EpicNotFound));
    assert_eq!(db.read_db(), &before);
}

#[test]
fn delete_epic_deletes_its_stories() {
    let mut db = JiraDatabase::new(DBState::new());
    db.create_epic(epic("A"));
    db.create_story(story("B"), 1).unwrap();
    db.create_epic(epic("C"));
    db.create_story(story("D"), 3).unwrap();
    db.create_story(story("E"), 1).unwrap();

    assert_eq!(db.delete_epic(1), Ok(()));

    let state = db.read_db();
    assert_eq!(state.last_item_id, 5);
    assert_eq!(state.epics.len(), 1);
    assert_eq!(state.epics[&3].stories, vec![4]);
    assert_eq!(state.epics[&3].name, "C");
    assert_eq!(state.stories.len(), 1);
    assert_eq!(state.stories[&4].name, "D");
}

#[test]
fn delete_epic_needs_the_epic() {
    let mut db = JiraDatabase::new(DBState::new());
    db.create_epic(epic("A"));
    db.create_story(story("B"), 1).unwrap();
    let before = db.read_db().clone();
    assert_eq!(db.delete_epic(2), Err(Error::EpicNotFound));
    assert_eq!(db.delete_epic(999), Err(Error::EpicNotFound));
    assert_eq!(db.read_db(), &before);
}

#[test]
fn delete_story_leaves_the_rest() {
    let mut db = JiraDatabase::new(DBState::new());
    db.create_epic(epic("A"));
    db.create_story(story("B"), 1).unwrap();
    db.create_story(story("C"), 1).unwrap();
    db.create_story(story("D"), 1).unwrap();
    db.create_epic(epic("E"));
    db.create_story(story("F"), 5).unwrap();

    assert_eq!(db.delete_story(1, 3), Ok(()));

    let state = db.read_db();
    assert_eq!(state.last_item_id, 6);
    assert_eq!(state.epics[&1].stories, vec![2, 4]);
    assert_eq!(state.epics[&1].name, "A");
    assert_eq!(state.epics[&5].stories, vec![6]);
    assert_eq!(state.stories.len(), 3);
    assert_eq!(state.stories[&2].name, "B");
    assert_eq!(state.stories[&4].name, "D");
    assert_eq!(state.stories[&6].name, "F");
}

#[test]
fn delete_story_needs_the_epic_and_its_story() {
    let mut db = JiraDatabase::new(DBState::new());
    db.create_epic(epic("A"));
    db.create_story(story("B"), 1).unwrap();
    db.create_epic(epic("C"));
    let before = db.read_db().clone();

    assert_eq!(db.delete_story(999, 2), Err(Error::EpicNotFound));
    assert_eq!(db.delete_story(999, 999), Err(Error::EpicNotFound));
    assert_eq!(db.delete_story(1, 999), Err(Error::StoryNotFound));
    // The story is there, but the epic named does not list it.
    assert_eq!(db.delete_story(3, 2), Err(Error::StoryNotFound));
    // An epic is no story.
    assert_eq!(db.delete_story(1, 3), Err(Error::StoryNotFound));
    assert_eq!(db.read_db(), &before);
}

#[test]
fn delete_story_takes_the_first_of_a_repeated_entry() {
    let mut epics = HashMap::new();
    let mut listed = epic("A");
    listed.stories = vec![2, 3, 2];
    epics.insert(1, listed);
    let mut stories = HashMap::new();
    stories.insert(2, story("B"));
    stories.insert(3, story("C"));
    let mut db = JiraDatabase::new(DBState {
        last_item_id: 3,
        epics,
        stories,
    });
    assert_eq!(db.delete_story(1, 2), Ok(()));
    assert_eq!(db.read_db().epics[&1].stories, vec![3, 2]);
    assert!(!db.read_db().stories.contains_key(&2));
}

#[test]
fn update_epic_status_changes_the_status_only() {
    let mut db = JiraDatabase::new(DBState::new());
    db.create_epic(Epic::new("A".to_owned(), "about A".to_owned()));
    db.create_story(story("B"), 1).unwrap();
    assert_eq!(db.update_epic_status(1, Status::Resolved), Ok(()));
    let state = db.read_db();
    assert_eq!(state.epics[&1].status, Status::Resolved);
    assert_eq!(state.epics[&1].name, "A");
    assert_eq!(state.epics[&1].description, "about A");
    assert_eq!(state.epics[&1].stories, vec![2]);
    assert_eq!(state.stories[&2].status, Status::Open);
    assert_eq!(state.last_item_id, 2);
}

#[test]
fn update_epic_status_needs_the_epic() {
    let mut db = JiraDatabase::new(DBState::new());
    db.create_epic(epic("A"));
    db.create_story(story("B"), 1).unwrap();
    let before = db.read_db().clone();
    assert_eq!(
        db.update_epic_status(2, Status::Closed),
        Err(Error::EpicNotFound)
    );
    assert_eq!(db.read_db(), &before);
}

#[test]
fn update_story_status_changes_the_status_only() {
    let mut db = JiraDatabase::new(DBState::new());
    db.create_epic(epic("A"));
    db.create_story(Story::new("B".to_owned(), "about B".to_owned()), 1)
        .unwrap();
    assert_eq!(db.update_story_status(2, Status::InProgress), Ok(()));
    let state = db.read_db();
    assert_eq!(state.stories[&2].status, Status::InProgress);
    assert_eq!(state.stories[&2].name, "B");
    assert_eq!(state.stories[&2].description, "about B");
    assert_eq!(state.epics[&1].status, Status::Open);
    assert_eq!(state.epics[&1].stories, vec![2]);
}

#[test]
fn update_story_status_needs_the_story() {
    let mut db = JiraDatabase::new(DBState::new());
    db.create_epic(epic("A"));
    let before = db.read_db().clone();
    assert_eq!(
        db.update_story_status(1, Status::Closed),
        Err(Error::StoryNotFound)
    );
    assert_eq!(
        db.update_story_status(999, Status::Closed),
        Err(Error::StoryNotFound)
    );
    assert_eq!(db.read_db(), &before);
}

#[test]
fn database_starts_from_the_store_given() {
    let mut epics = HashMap::new();
    epics.insert(10, epic("A"));
    let db = JiraDatabase::new(DBState {
        last_item_id: 41,
        epics,
        stories: HashMap::new(),
    });
    let mut db = db;
    assert_eq!(db.create_story(story("B"), 10), Ok(42));
    assert_eq!(db.read_db().epics[&10].stories, vec![42]);
}

#[test]
fn errors_say_what_was_not_found() {
    assert_eq!(
        Error::EpicNotFound.to_string(),
        "could not find epic in database!"
    );
    assert_eq!(
        Error::StoryNotFound.to_string(),
        "could not find story in database!"
    );
    assert_eq!(
        Error::StaleReference.to_string(),
        "could not find what this page shows!"
    );
}
