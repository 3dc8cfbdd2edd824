use issue_tracker::db::JiraDatabase;
use issue_tracker::models::{Action, DBState, Epic, Error, Status, Story};
use issue_tracker::ui::pages::{EpicDetail, HomePage, Page, StoryDetail};
use std::collections::HashMap;

fn empty_db() -> JiraDatabase {
    JiraDatabase::new(DBState::new())
}

#[test]
fn draw_page_should_not_throw_error() {
    let db = empty_db();

    let page = HomePage {};
    assert_eq!(page.draw_page(&db).is_ok(), true);
}

#[test]
fn handle_input_should_not_throw_error() {
    let db = empty_db();

    let page = HomePage {};
    assert_eq!(page.handle_input("", &db).is_none(), true);
}

#[test]
fn handle_input_should_return_the_correct_actions() {
    let mut db = empty_db();

    let epic = Epic::new("".to_owned(), "".to_owned());
    let epic_id = db.create_epic(epic);
    let page = HomePage {};

    let q = "q";
    let c = "c";
    let valid_epic_id = epic_id.to_string();
    let invalid_epic_id = "999";
    let junk_input = "j983f2j";
    let junk_input_with_valid_prefix = "q983f2j";
    let input_with_trailing_white_spaces = "q\n";

    assert_eq!(page.handle_input(q, &db), Some(Action::Exit));
    assert_eq!(page.handle_input(c, &db), Some(Action::CreateEpic));
    assert_eq!(
        page.handle_input(&valid_epic_id, &db),
        Some(Action::NavigateToEpicDetail { epic_id: 1 })
    );
    assert_eq!(page.handle_input(invalid_epic_id, &db), None);
    assert_eq!(page.handle_input(junk_input, &db), None);
    assert_eq!(page.handle_input(junk_input_with_valid_prefix, &db), None);
    assert_eq!(page.handle_input(input_with_trailing_white_spaces, &db), None);
}

#[test]
fn mod_draw_page_should_not_throw_error() {
    let mut db = empty_db();
    let epic_id = db.create_epic(Epic::new("".to_owned(), "".to_owned()));

    let page = EpicDetail { epic_id };
    assert_eq!(page.draw_page(&db).is_ok(), true);
}

#[test]
fn mod_handle_input_should_not_throw_error() {
    let mut db = empty_db();
    let epic_id = db.create_epic(Epic::new("".to_owned(), "".to_owned()));

    let page = EpicDetail { epic_id };
    assert_eq!(page.handle_input("", &db).is_none(), true);

    let page = EpicDetail { epic_id: 999 };
    assert_eq!(page.draw_page(&db).is_err(), true);
}

#[test]
fn draw_page_should_throw_error_for_invalid_epic_id() {
    let db = empty_db();

    let page = EpicDetail { epic_id: 999 };
    assert_eq!(page.draw_page(&db).is_err(), true);
    assert_eq!(page.draw_page(&db), Err(Error::StaleReference));
}

#[test]
fn mod_handle_input_should_return_the_correct_actions() {
    let mut db = empty_db();

    let epic_id = db.create_epic(Epic::new("".to_owned(), "".to_owned()));
    let story_id = db
        .create_story(Story::new("".to_owned(), "".to_owned()), epic_id)
        .unwrap();

    let page = EpicDetail { epic_id };

    let p = "p";
    let u = "u";
    let d = "d";
    let c = "c";
    let invalid_story_id = "999";
    let junk_input = "j983f2j";
    let junk_input_with_valid_prefix = "p983f2j";
    let input_with_trailing_white_spaces = "p\n";

    assert_eq!(page.handle_input(p, &db), Some(Action::NavigateToPreviousPage));
    assert_eq!(
        page.handle_input(u, &db),
        Some(Action::UpdateEpicStatus { epic_id: 1 })
    );
    assert_eq!(page.handle_input(d, &db), Some(Action::DeleteEpic { epic_id: 1 }));
    assert_eq!(page.handle_input(c, &db), Some(Action::CreateStory { epic_id: 1 }));
    assert_eq!(
        page.handle_input(&story_id.to_string(), &db),
        Some(Action::NavigateToStoryDetail {
            epic_id: 1,
            story_id: 2
        })
    );
    assert_eq!(page.handle_input(invalid_story_id, &db), None);
    assert_eq!(page.handle_input(junk_input, &db), None);
    assert_eq!(page.handle_input(junk_input_with_valid_prefix, &db), None);
    assert_eq!(page.handle_input(input_with_trailing_white_spaces, &db), None);
}

#[test]
fn story_detail_draw_page_should_not_throw_error() {
    let mut db = empty_db();

    let epic_id = db.create_epic(Epic::new("".to_owned(), "".to_owned()));
    let story_id = db
        .create_story(Story::new("".to_owned(), "".to_owned()), epic_id)
        .unwrap();

    let page = StoryDetail { epic_id, story_id };
    assert_eq!(page.draw_page(&db).is_ok(), true);
}

#[test]
fn story_detail_handle_input_should_not_throw_error() {
    let mut db = empty_db();

    let epic_id = db.create_epic(Epic::new("".to_owned(), "".to_owned()));
    let story_id = db
        .create_story(Story::new("".to_owned(), "".to_owned()), epic_id)
        .unwrap();

    let page = StoryDetail { epic_id, story_id };
    assert_eq!(page.handle_input("", &db).is_none(), true);
}

#[test]
fn draw_page_should_throw_error_for_invalid_story_id() {
    let mut db = empty_db();

    let epic_id = db.create_epic(Epic::new("".to_owned(), "".to_owned()));
    let _ = db
        .create_story(Story::new("".to_owned(), "".to_owned()), epic_id)
        .unwrap();

    let page = StoryDetail {
        epic_id,
        story_id: 999,
    };
    assert_eq!(page.draw_page(&db).is_err(), true);
}

#[test]
fn story_detail_handle_input_should_return_the_correct_actions() {
    let mut db = empty_db();

    let epic_id = db.create_epic(Epic::new("".to_owned(), "".to_owned()));
    let story_id = db
        .create_story(Story::new("".to_owned(), "".to_owned()), epic_id)
        .unwrap();

    let page = StoryDetail { epic_id, story_id };

    let p = "p";
    let u = "u";
    let d = "d";
    let some_number = "1";
    let junk_input = "j983f2j";
    let junk_input_with_valid_prefix = "p983f2j";
    let input_with_trailing_white_spaces = "p\n";

    assert_eq!(page.handle_input(p, &db), Some(Action::NavigateToPreviousPage));
    assert_eq!(
        page.handle_input(u, &db),
        Some(Action::UpdateStoryStatus { story_id })
    );
    assert_eq!(
        page.handle_input(d, &db),
        Some(Action::DeleteStory { epic_id, story_id })
    );
    assert_eq!(page.handle_input(some_number, &db), None);
    assert_eq!(page.handle_input(junk_input, &db), None);
    assert_eq!(page.handle_input(junk_input_with_valid_prefix, &db), None);
    assert_eq!(page.handle_input(input_with_trailing_white_spaces, &db), None);
}

#[test]
fn home_input_of_an_absent_epic_is_no_action() {
    let mut db = empty_db();
    assert_eq!(HomePage {}.handle_input("999", &db), None);
    db.create_epic(Epic::new("A".to_owned(), "".to_owned()));
    assert_eq!(HomePage {}.handle_input("999", &db), None);
    assert_eq!(HomePage {}.handle_input("2", &db), None);
    assert_eq!(HomePage {}.handle_input("0", &db), None);
}

#[test]
fn home_does_not_open_a_story() {
    let mut db = empty_db();
    db.create_epic(Epic::new("A".to_owned(), "".to_owned()));
    db.create_story(Story::new("B".to_owned(), "".to_owned()), 1)
        .unwrap();
    assert_eq!(HomePage {}.handle_input("2", &db), None);
    assert_eq!(
        HomePage {}.handle_input("+1", &db),
        Some(Action::NavigateToEpicDetail { epic_id: 1 })
    );
}

#[test]
fn epic_detail_opens_a_story_of_any_epic() {
    let mut db = empty_db();
    let first = db.create_epic(Epic::new("first".to_owned(), "".to_owned()));
    let second = db.create_epic(Epic::new("second".to_owned(), "".to_owned()));
    let story = db
        .create_story(Story::new("of the second".to_owned(), "".to_owned()), second)
        .unwrap();
    assert_eq!((first, second, story), (1, 2, 3));

    assert_eq!(
        EpicDetail { epic_id: first }.handle_input("3", &db),
        Some(Action::NavigateToStoryDetail {
            epic_id: 1,
            story_id: 3
        })
    );
    // The number of an epic is no story.
    assert_eq!(EpicDetail { epic_id: first }.handle_input("2", &db), None);
}

#[test]
fn home_page_of_an_empty_store() {
    let db = empty_db();
    let expected = "\
----------------------------- EPICS -----------------------------
     id     |               name               |      status     

[q] quit | [c] create epic | [:id:] navigate to epic
";
    assert_eq!(HomePage {}.draw_page(&db).unwrap(), expected);
}

#[test]
fn home_page_lists_epics_by_ascending_identifier() {
    let mut db = empty_db();
    for name in [
        "one", "two", "three", "four", "five", "six", "seven", "eight", "nine", "ten", "eleven",
        "a name that is much too long for the cell it has to fit in",
    ] {
        db.create_epic(Epic::new(name.to_owned(), "".to_owned()));
    }
    db.update_epic_status(2, Status::InProgress).unwrap();
    db.update_epic_status(3, Status::Resolved).unwrap();
    db.update_epic_status(4, Status::Closed).unwrap();
    let expected = "\
----------------------------- EPICS -----------------------------
     id     |               name               |      status     
1           |one                               |OPEN             
2           |two                               |IN PROGRESS      
3           |three                             |RESOLVED         
4           |four                              |CLOSED           
5           |five                              |OPEN             
6           |six                               |OPEN             
7           |seven                             |OPEN             
8           |eight                             |OPEN             
9           |nine                              |OPEN             
10          |ten                               |OPEN             
11          |eleven                            |OPEN             
12          |a name that is much too long fo...|OPEN             

[q] quit | [c] create epic | [:id:] navigate to epic
";
    assert_eq!(HomePage {}.draw_page(&db).unwrap(), expected);
}

#[test]
fn epic_detail_page_lists_its_stories() {
    let mut db = empty_db();
    db.create_epic(Epic::new("A".to_owned(), "what A is about".to_owned()));
    db.create_story(Story::new("B".to_owned(), "".to_owned()), 1)
        .unwrap();
    db.create_epic(Epic::new("other".to_owned(), "".to_owned()));
    db.create_story(Story::new("not listed".to_owned(), "".to_owned()), 3)
        .unwrap();
    db.create_story(Story::new("C".to_owned(), "".to_owned()), 1)
        .unwrap();
    db.update_story_status(5, Status::Closed).unwrap();
    let expected = "\
------------------------------ EPIC ------------------------------
  id  |     name     |         description         |    status    
1     |A             |what A is about              |OPEN          



---------------------------- STORIES ----------------------------
     id     |               name               |      status      
2           |B                                 |OPEN             
5           |C                                 |CLOSED           



[p] previous | [u] update epic | [d] delete epic | [c] create story | [:id:] navigate to story
";
    assert_eq!(EpicDetail { epic_id: 1 }.draw_page(&db).unwrap(), expected);
}

#[test]
fn epic_detail_page_sorts_the_list_and_skips_missing_stories() {
    let mut epics = HashMap::new();
    epics.insert(
        1,
        Epic {
            name: "A".to_owned(),
            description: "".to_owned(),
            status: Status::Open,
            stories: vec![4, 2, 9, 3],
        },
    );
    let mut stories = HashMap::new();
    for id in [2u32, 3, 4] {
        stories.insert(id, Story::new(format!("story {id}"), "".to_owned()));
    }
    let db = JiraDatabase::new(DBState {
        last_item_id: 9,
        epics,
        stories,
    });
    let expected = "\
------------------------------ EPIC ------------------------------
  id  |     name     |         description         |    status    
1     |A             |                             |OPEN          



---------------------------- STORIES ----------------------------
     id     |               name               |      status      
2           |story 2                           |OPEN             
3           |story 3                           |OPEN             
4           |story 4                           |OPEN             



[p] previous | [u] update epic | [d] delete epic | [c] create story | [:id:] navigate to story
";
    assert_eq!(EpicDetail { epic_id: 1 }.draw_page(&db).unwrap(), expected);
}

#[test]
fn story_detail_page_shows_the_story() {
    let mut db = empty_db();
    db.create_epic(Epic::new("A".to_owned(), "".to_owned()));
    db.create_story(
        Story::new(
            "a story with a long name".to_owned(),
            "and a description that does not fit either".to_owned(),
        ),
        1,
    )
    .unwrap();
    db.update_story_status(2, Status::InProgress).unwrap();
    let expected = "\
------------------------------ STORY ------------------------------
  id  |     name     |         description         |    status    
2     |a story wit...|and a description that doe...|IN PROGRESS    



[p] previous | [u] update story | [d] delete story
";
    assert_eq!(
        StoryDetail {
            epic_id: 1,
            story_id: 2
        }
        .draw_page(&db)
        .unwrap(),
        expected
    );
}

#[test]
fn story_detail_of_a_deleted_story_is_a_stale_reference() {
    let mut db = empty_db();
    let epic_id = db.create_epic(Epic::new("A".to_owned(), "".to_owned()));
    let story_id = db
        .create_story(Story::new("B".to_owned(), "".to_owned()), epic_id)
        .unwrap();
    let page = StoryDetail { epic_id, story_id };
    assert!(page.draw_page(&db).is_ok());

    db.delete_story(epic_id, story_id).unwrap();
    assert_eq!(page.draw_page(&db), Err(Error::StaleReference));
}

#[test]
fn epic_detail_of_a_deleted_epic_is_a_stale_reference() {
    let mut db = empty_db();
    let epic_id = db.create_epic(Epic::new("A".to_owned(), "".to_owned()));
    let page = EpicDetail { epic_id };
    assert!(page.draw_page(&db).is_ok());

    db.delete_epic(epic_id).unwrap();
    assert_eq!(page.draw_page(&db), Err(Error::StaleReference));
}

#[test]
fn status_labels() {
    assert_eq!(Status::Open.to_string(), "OPEN");
    assert_eq!(Status::InProgress.to_string(), "IN PROGRESS");
    assert_eq!(Status::Resolved.to_string(), "RESOLVED");
    assert_eq!(Status::Closed.to_string(), "CLOSED");
}

#[test]
fn home_page_rows_are_the_created_epics_in_call_order() {
    let mut db = empty_db();
    let mut epics = Vec::new();
    let mut stories = Vec::new();
    epics.push(db.create_epic(Epic::new("first".to_owned(), "".to_owned())));
    stories.push(
        db.create_story(Story::new("a story".to_owned(), "".to_owned()), 1)
            .unwrap(),
    );
    stories.push(
        db.create_story(Story::new("another".to_owned(), "".to_owned()), 1)
            .unwrap(),
    );
    epics.push(db.create_epic(Epic::new("second".to_owned(), "".to_owned())));
    stories.push(
        db.create_story(Story::new("of the second".to_owned(), "".to_owned()), 4)
            .unwrap(),
    );
    epics.push(db.create_epic(Epic::new("third".to_owned(), "".to_owned())));
    assert_eq!(epics, vec![1, 4, 6]);
    assert_eq!(stories, vec![2, 3, 5]);

    let expected = "\
----------------------------- EPICS -----------------------------
     id     |               name               |      status     
1           |first                             |OPEN             
4           |second                            |OPEN             
6           |third                             |OPEN             

[q] quit | [c] create epic | [:id:] navigate to epic
";
    assert_eq!(HomePage {}.draw_page(&db).unwrap(), expected);
}

#[test]
fn cells_of_names_beyond_ascii_keep_the_rows_in_line() {
    let mut db = empty_db();
    db.create_epic(Epic::new("épique".to_owned(), "".to_owned()));
    db.create_epic(Epic::new("typed with its line feed\n".to_owned(), "".to_owned()));
    db.create_epic(Epic::new(
        "日本語のとても長い名前はセルに収まりませんので切られます、三十四文字より長い".to_owned(),
        "".to_owned(),
    ));
    let page = HomePage {}.draw_page(&db).unwrap();
    let rows: Vec<&str> = page.split_inclusive('\n').collect();
    let first = "1           |épique                            |OPEN             \n";
    assert_eq!(rows[2], first);
    assert_eq!(rows[2].chars().count(), 66);
    // The line feed of the name is a character of its cell.
    assert_eq!(rows[3], "2           |typed with its line feed\n");
    assert_eq!(rows[4], "         |OPEN             \n");
    assert_eq!(rows[3].chars().count() + rows[4].chars().count(), 66);
    assert_eq!(rows[5].chars().count(), 66);
    assert_eq!(
        rows[5],
        "3           |日本語のとても長い名前はセルに収まりませんので切られます、三十...|OPEN             \n"
    );
}
