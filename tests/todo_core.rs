use chrono::NaiveDate;
use mu_list::clock::{deadline_from_resolution, parse_deadline, DeadlineError, LocalResolution, Timestamp};
use mu_list::ids::IdAllocator;
use mu_list::list::{DisplayOptions, List};
use mu_list::state::{ListApp, StoreError};
use mu_list::task::Task;

fn stamp(secs: i64) -> Timestamp {
    Timestamp { secs, nanos: 0, offset: 3600 }
}

fn app_with_tasks(texts: &[&str]) -> ListApp {
    let mut app = ListApp::new();
    app.add_list("work");
    for t in texts {
        assert!(app.add_task_at(0, t, stamp(1_700_000_000)).is_some());
    }
    app
}

fn texts(l: &List) -> Vec<String> {
    l.tasks().iter().map(|t| t.text().to_string()).collect()
}

fn names(app: &ListApp) -> Vec<String> {
    app.lists().iter().map(|l| l.name().to_string()).collect()
}

#[test]
fn allocator_starts_at_one_and_counts_up() {
    let mut ids = IdAllocator::new();
    assert!(ids.has_next());
    assert_eq!(ids.next_id(), 1);
    assert_eq!(ids.next_id(), 2);
    assert_eq!(ids.next_id(), 3);
}

#[test]
fn task_ids_increase_across_lists() {
    let mut app = ListApp::new();
    app.add_list("a");
    assert_eq!(app.add_task(0, "one"), Some(1));
    app.add_list("b");
    assert_eq!(app.add_task(1, "two"), Some(2));
    assert_eq!(app.add_task(0, "three"), Some(3));
    app.remove_list(0);
    app.add_list("c");
    assert_eq!(app.add_task(1, "four"), Some(4));
    let mut seen: Vec<u64> = Vec::new();
    for l in app.lists() {
        for t in l.tasks() {
            assert!(!seen.contains(&t.id()));
            seen.push(t.id());
        }
    }
    assert_eq!(seen, vec![2, 4]);
}

#[test]
fn new_task_fields() {
    let mut app = ListApp::new();
    app.add_list("home");
    assert_eq!(app.add_task_at(0, "", stamp(42)), Some(1));
    let t = &app.lists()[0].tasks()[0];
    assert_eq!(t.id(), 1);
    assert_eq!(t.text(), "");
    assert!(!t.is_done());
    assert_eq!(t.created_at(), stamp(42));
    assert_eq!(t.deadline(), None);
}

#[test]
fn add_task_records_the_current_time() {
    let mut app = ListApp::new();
    app.add_list("home");
    let before = chrono::Local::now().timestamp();
    assert_eq!(app.add_task(0, "water plants"), Some(1));
    let after = chrono::Local::now().timestamp();
    let t = &app.lists()[0].tasks()[0];
    assert!(before <= t.created_at().secs && t.created_at().secs <= after);
}

#[test]
fn add_task_to_missing_list_changes_nothing() {
    let mut app = ListApp::new();
    app.add_list("home");
    assert_eq!(app.add_task(1, "x"), None);
    assert_eq!(app.lists()[0].len(), 0);
    assert_eq!(app.add_task(0, "x"), Some(1));
}

#[test]
fn new_list_shows_all_fields() {
    let mut app = ListApp::new();
    app.add_list("groceries");
    assert_eq!(app.len(), 1);
    let l = &app.lists()[0];
    assert_eq!(l.name(), "groceries");
    assert_eq!(l.len(), 0);
    let d = l.display();
    assert!(d.show_id && d.show_id_title && d.show_name && d.show_name_title);
    assert_eq!(d, DisplayOptions::new());
}

#[test]
fn display_options_change_in_place() {
    let mut app = ListApp::new();
    app.add_list("a");
    let mut d = app.lists()[0].display();
    d.show_id = false;
    app.set_display(0, d);
    assert!(!app.lists()[0].display().show_id);
    assert!(app.lists()[0].display().show_name);
}

#[test]
fn toggle_rename_and_deadline() {
    let mut app = app_with_tasks(&["a"]);
    app.toggle_done(0, 0);
    assert!(app.lists()[0].tasks()[0].is_done());
    app.toggle_done(0, 0);
    assert!(!app.lists()[0].tasks()[0].is_done());
    app.set_done(0, 0, true);
    app.rename_task(0, 0, "b");
    app.set_deadline(0, 0, stamp(10));
    app.set_deadline(0, 0, stamp(20));
    let t = &app.lists()[0].tasks()[0];
    assert!(t.is_done());
    assert_eq!(t.text(), "b");
    assert_eq!(t.deadline(), Some(stamp(20)));
}

#[test]
fn save_then_load_reproduces_lists() {
    let mut app = app_with_tasks(&["a", "b"]);
    app.add_list("empty");
    app.set_done(0, 1, true);
    app.set_deadline(0, 1, stamp(1_800_000_000));
    let saved: Vec<List> = app
        .lists()
        .iter()
        .map(|l| {
            let tasks = l
                .tasks()
                .iter()
                .map(|t| Task::restore(t.id(), t.text().to_string(), t.is_done(), t.created_at(), t.deadline()))
                .collect();
            List::restore(l.name().to_string(), tasks)
        })
        .collect();
    let mut fresh = ListApp::new();
    assert!(fresh.load_lists(Ok(saved)).is_ok());
    assert_eq!(names(&fresh), vec!["work".to_string(), "empty".to_string()]);
    for (a, b) in app.lists().iter().zip(fresh.lists().iter()) {
        assert_eq!(a.len(), b.len());
        for (x, y) in a.tasks().iter().zip(b.tasks().iter()) {
            assert_eq!(x.id(), y.id());
            assert_eq!(x.text(), y.text());
            assert_eq!(x.is_done(), y.is_done());
            assert_eq!(x.created_at(), y.created_at());
            assert_eq!(x.deadline(), y.deadline());
        }
    }
    assert_eq!(fresh.lists()[0].tasks()[1].deadline(), Some(stamp(1_800_000_000)));
}

#[test]
fn load_keeps_the_allocator() {
    let mut app = app_with_tasks(&["a", "b"]);
    assert!(app.load_lists(Ok(vec![List::restore("x".to_string(), Vec::new())])).is_ok());
    assert_eq!(names(&app), vec!["x".to_string()]);
    assert_eq!(app.add_task(0, "c"), Some(3));
}

#[test]
fn failed_read_leaves_state_unchanged() {
    let mut app = app_with_tasks(&["a", "b"]);
    let r = app.load_lists(Err(StoreError::Io("No such file or directory".to_string())));
    assert!(matches!(r, Err(StoreError::Io(_))));
    assert_eq!(names(&app), vec!["work".to_string()]);
    assert_eq!(texts(&app.lists()[0]), vec!["a".to_string(), "b".to_string()]);
}

#[test]
fn invalid_document_leaves_state_unchanged() {
    let mut app = app_with_tasks(&["a"]);
    let r = app.load_lists(Err(StoreError::Serialization("expected value".to_string())));
    assert!(matches!(r, Err(StoreError::Serialization(_))));
    assert_eq!(names(&app), vec!["work".to_string()]);
    assert_eq!(texts(&app.lists()[0]), vec!["a".to_string()]);
}

#[test]
fn deadline_with_month_thirteen_is_a_format_error() {
    assert_eq!(parse_deadline("2024-13-01 10:00"), Err(DeadlineError::Format));
}

#[test]
fn malformed_deadlines_are_format_errors() {
    assert_eq!(parse_deadline(""), Err(DeadlineError::Format));
    assert_eq!(parse_deadline("tomorrow"), Err(DeadlineError::Format));
    assert_eq!(parse_deadline("2024-02-30 10:00"), Err(DeadlineError::Format));
    assert_eq!(parse_deadline("2024-06-15 24:00"), Err(DeadlineError::Format));
    assert_eq!(parse_deadline("2024-06-15"), Err(DeadlineError::Format));
}

#[test]
fn deadline_reads_local_wall_clock() {
    let t = parse_deadline("2024-06-15 14:30").unwrap();
    let wall = NaiveDate::from_ymd_opt(2024, 6, 15).unwrap().and_hms_opt(14, 30, 0).unwrap().and_utc().timestamp();
    assert_eq!(t.wall_clock_secs(), Some(wall));
    assert_eq!(t.nanos, 0);
    let local = chrono::DateTime::from_timestamp(t.secs, 0).unwrap().with_timezone(&chrono::Local);
    assert_eq!(local.format("%Y-%m-%d %H:%M").to_string(), "2024-06-15 14:30");
}

#[test]
fn set_deadline_text_keeps_task_on_error() {
    let mut app = app_with_tasks(&["a"]);
    assert_eq!(app.set_deadline_text(0, 0, "2024-13-01 10:00"), Err(DeadlineError::Format));
    assert_eq!(app.lists()[0].tasks()[0].deadline(), None);
    assert_eq!(app.set_deadline_text(0, 0, "2024-06-15 14:30"), Ok(()));
    assert_eq!(app.lists()[0].tasks()[0].deadline(), Some(parse_deadline("2024-06-15 14:30").unwrap()));
    let mut t = Task::new(7, "alone", stamp(1));
    assert_eq!(t.set_deadline_text("tomorrow"), Err(DeadlineError::Format));
    assert_eq!(t.deadline(), None);
    assert_eq!(t.set_deadline_text("2024-06-15 14:30"), Ok(()));
    assert_eq!(t.deadline(), Some(parse_deadline("2024-06-15 14:30").unwrap()));
}

#[test]
fn resolution_maps_to_deadline_or_error() {
    assert_eq!(deadline_from_resolution(LocalResolution::Single(stamp(5))), Ok(stamp(5)));
    assert_eq!(deadline_from_resolution(LocalResolution::Ambiguous), Err(DeadlineError::AmbiguousLocal));
    assert_eq!(deadline_from_resolution(LocalResolution::Nonexistent), Err(DeadlineError::NonexistentLocal));
}

#[test]
fn wall_clock_adds_offset() {
    assert_eq!(Timestamp { secs: 100, nanos: 0, offset: -7200 }.wall_clock_secs(), Some(-7100));
    assert_eq!(Timestamp { secs: i64::MAX, nanos: 0, offset: 1 }.wall_clock_secs(), None);
}

#[test]
fn removing_first_and_third_of_three_tasks() {
    for order in [vec![0usize, 2], vec![2usize, 0]] {
        let mut app = app_with_tasks(&["t0", "t1", "t2"]);
        app.remove_tasks(0, &order);
        assert_eq!(texts(&app.lists()[0]), vec!["t1".to_string()]);
    }
}

#[test]
fn batch_removal_ignores_repeats_and_out_of_range() {
    let mut app = app_with_tasks(&["t0", "t1", "t2", "t3"]);
    app.remove_tasks(0, &vec![3, 9, 1, 3]);
    assert_eq!(texts(&app.lists()[0]), vec!["t0".to_string(), "t2".to_string()]);
    app.remove_tasks(0, &Vec::new());
    assert_eq!(app.lists()[0].len(), 2);
}

#[test]
fn remove_single_task() {
    let mut app = app_with_tasks(&["t0", "t1", "t2"]);
    assert!(app.remove_task(0, 1));
    assert_eq!(texts(&app.lists()[0]), vec!["t0".to_string(), "t2".to_string()]);
    assert!(!app.remove_task(0, 2));
    assert_eq!(app.lists()[0].len(), 2);
}

#[test]
fn removing_a_list_keeps_the_others_in_order() {
    let mut app = ListApp::new();
    for n in ["a", "b", "c", "d"] {
        app.add_list(n);
    }
    assert!(app.remove_list(1));
    assert_eq!(names(&app), vec!["a".to_string(), "c".to_string(), "d".to_string()]);
    assert!(!app.remove_list(3));
    assert_eq!(app.len(), 3);
    app.remove_lists(&vec![2, 0]);
    assert_eq!(names(&app), vec!["c".to_string()]);
}

fn one_task_list(id: u64) -> List {
    List::restore("loaded".to_string(), vec![Task::restore(id, "t".to_string(), false, stamp(0), None)])
}

#[test]
fn load_moves_counter_past_loaded_ids() {
    let mut app = ListApp::new();
    assert!(app.load_lists(Ok(vec![one_task_list(1), one_task_list(5)])).is_ok());
    assert_eq!(app.add_task(0, "new"), Some(6));
    let ids: Vec<u64> = app.lists()[0].tasks().iter().map(|t| t.id()).collect();
    assert_eq!(ids, vec![1, 6]);
}

#[test]
fn load_never_moves_counter_back() {
    let mut app = app_with_tasks(&["a", "b", "c"]);
    assert!(app.load_lists(Ok(vec![one_task_list(2)])).is_ok());
    assert_eq!(app.add_task(0, "d"), Some(4));
}

#[test]
fn load_of_highest_id_exhausts_counter() {
    let mut app = ListApp::new();
    assert!(app.can_add_task());
    assert!(app.load_lists(Ok(vec![one_task_list(u64::MAX)])).is_ok());
    assert!(!app.can_add_task());
}

#[test]
fn list_highest_id() {
    let mut l = List::new("x");
    assert_eq!(l.highest_id(), 0);
    l.push_task(Task::new(4, "a", stamp(0)));
    l.push_task(Task::new(9, "b", stamp(0)));
    l.push_task(Task::new(2, "c", stamp(0)));
    assert_eq!(l.highest_id(), 9);
    assert!(l.remove_task(1));
    assert_eq!(l.highest_id(), 4);
    l.remove_tasks(&vec![0, 0]);
    assert_eq!(l.highest_id(), 2);
}
