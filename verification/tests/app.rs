use sacct_tui::app::{popup_shares, App, Key};
use sacct_tui::layout::Layout;
use sacct_tui::parser::ParseStrategy;
use sacct_tui::record::SacctData;
use sacct_tui::source::{FetchError, LoadError};

const DATA: &str = "101,build,alice,2024-01-01T00:00,2024-01-01T01:00,01:00:00,02:00:00,COMPLETED,1,0:0,node01,4,4G,120000,00:45:00";

fn job(id: usize) -> SacctData {
    SacctData { job_id: id.to_string(), job_name: format!("job{}", id), ..SacctData::default() }
}

fn app_with(n: usize) -> App {
    let mut app = App::new();
    app.set_jobs((0..n).map(job).collect());
    app
}

#[test]
fn new_app_is_empty() {
    let app = App::new();
    assert_eq!(app.jobs().len(), 0);
    assert_eq!(app.selected(), 0);
    assert!(!app.should_quit());
    assert!(app.selected_job().is_none());
}

#[test]
fn default_app_is_the_new_app() {
    let app = App::default();
    assert_eq!(app.jobs().len(), 0);
    assert_eq!(app.selected(), 0);
    assert!(!app.should_quit());
}

#[test]
fn next_goes_down_and_around() {
    let mut app = app_with(3);
    assert_eq!(app.selected(), 0);
    app.next();
    assert_eq!(app.selected(), 1);
    app.next();
    assert_eq!(app.selected(), 2);
    app.next();
    assert_eq!(app.selected(), 0);
}

#[test]
fn previous_goes_up_and_around() {
    let mut app = app_with(3);
    app.previous();
    assert_eq!(app.selected(), 2);
    app.previous();
    assert_eq!(app.selected(), 1);
    app.previous();
    assert_eq!(app.selected(), 0);
}

#[test]
fn as_many_steps_down_as_records_come_round() {
    for n in 1..8 {
        for start in 0..n {
            let mut app = app_with(n);
            for _ in 0..start {
                app.next();
            }
            assert_eq!(app.selected(), start);
            for _ in 0..n {
                app.next();
            }
            assert_eq!(app.selected(), start);
        }
    }
}

#[test]
fn previous_undoes_next() {
    for n in 1..8 {
        for start in 0..n {
            let mut app = app_with(n);
            for _ in 0..start {
                app.next();
            }
            app.next();
            app.previous();
            assert_eq!(app.selected(), start);
            app.previous();
            app.next();
            assert_eq!(app.selected(), start);
        }
    }
}

#[test]
fn moving_in_an_empty_list_changes_nothing() {
    let mut app = App::new();
    app.next();
    assert_eq!(app.selected(), 0);
    app.previous();
    assert_eq!(app.selected(), 0);
    app.handle_key(Key::Down);
    app.handle_key(Key::Up);
    app.handle_key(Key::Char('j'));
    app.handle_key(Key::Char('k'));
    assert_eq!(app.selected(), 0);
    assert_eq!(app.jobs().len(), 0);
    assert!(!app.should_quit());
}

#[test]
fn single_record_stays_selected() {
    let mut app = app_with(1);
    app.next();
    assert_eq!(app.selected(), 0);
    app.previous();
    assert_eq!(app.selected(), 0);
}

#[test]
fn quit_sets_the_flag_and_nothing_else() {
    let mut app = app_with(3);
    app.next();
    app.quit();
    assert!(app.should_quit());
    assert_eq!(app.selected(), 1);
    assert_eq!(app.jobs().len(), 3);
}

#[test]
fn keys_map_to_actions() {
    let mut app = app_with(4);
    app.handle_key(Key::Down);
    assert_eq!(app.selected(), 1);
    app.handle_key(Key::Char('j'));
    assert_eq!(app.selected(), 2);
    app.handle_key(Key::Up);
    assert_eq!(app.selected(), 1);
    app.handle_key(Key::Char('k'));
    assert_eq!(app.selected(), 0);
    app.handle_key(Key::Char('k'));
    assert_eq!(app.selected(), 3);
    for key in [Key::Other, Key::Char('x'), Key::Char('Q'), Key::Char('J'), Key::Char('K'), Key::Char('\n')] {
        app.handle_key(key);
        assert_eq!(app.selected(), 3);
        assert!(!app.should_quit());
    }
    app.handle_key(Key::Char('q'));
    assert!(app.should_quit());
    assert_eq!(app.selected(), 3);
}

#[test]
fn set_jobs_puts_the_cursor_on_the_first_record() {
    let mut app = app_with(5);
    app.next();
    app.next();
    app.quit();
    app.set_jobs(vec![job(7), job(8)]);
    assert_eq!(app.selected(), 0);
    assert_eq!(app.jobs().len(), 2);
    assert_eq!(app.jobs()[1].job_id, "8");
    assert!(app.should_quit());
    app.set_jobs(Vec::new());
    assert_eq!(app.selected(), 0);
    assert!(app.selected_job().is_none());
}

#[test]
fn selected_job_follows_the_cursor() {
    let mut app = app_with(3);
    assert_eq!(app.selected_job().unwrap().job_id, "0");
    app.previous();
    assert_eq!(app.selected_job().unwrap().job_id, "2");
}

#[test]
fn list_title_counts_from_one() {
    let mut app = app_with(12);
    assert_eq!(app.list_title(), "Jobs (1/12)");
    app.previous();
    assert_eq!(app.list_title(), "Jobs (12/12)");
    assert_eq!(App::new().list_title(), "Jobs (1/0)");
}

#[test]
fn list_rows_mark_the_selected_line() {
    let mut app = app_with(3);
    app.next();
    let rows = app.list_rows();
    assert_eq!(rows.len(), 3);
    for (i, row) in rows.iter().enumerate() {
        assert_eq!(row.text, app.jobs()[i].display_line());
        assert_eq!(row.highlighted, i == 1);
    }
    assert_eq!(rows[2].text, format!("{:<12} {:<20} {:<10} {:<12} {:<8}", "2", "job2", "", "", ""));
    assert!(App::new().list_rows().is_empty());
}

#[test]
fn details_show_the_selected_record() {
    let mut app = app_with(3);
    app.next();
    let text = app.details().unwrap();
    assert_eq!(text, app.jobs()[1].detail_text());
    assert!(text.starts_with("Job ID: 1\nJob Name: job1\n"));
}

#[test]
fn empty_input_shows_no_details_and_can_be_left() {
    let mut app = App::new();
    let loaded = app.load_jobs(Ok(String::new()), ParseStrategy::HeaderAware, Layout::Resource);
    assert!(loaded.is_ok());
    assert_eq!(app.jobs().len(), 0);
    assert_eq!(app.selected(), 0);
    assert!(app.details().is_none());
    assert!(app.list_rows().is_empty());
    app.handle_key(Key::Down);
    assert!(!app.should_quit());
    app.handle_key(Key::Char('q'));
    assert!(app.should_quit());
}

#[test]
fn load_jobs_takes_the_records_in() {
    let mut app = app_with(4);
    app.previous();
    let content = format!("{}\n{}\n", DATA, DATA.replace("101", "102"));
    let loaded = app.load_jobs(Ok(content), ParseStrategy::HeaderAware, Layout::Resource);
    assert!(loaded.is_ok());
    assert_eq!(app.jobs().len(), 2);
    assert_eq!(app.selected(), 0);
    assert_eq!(app.jobs()[0].job_id, "101");
    assert_eq!(app.jobs()[1].job_id, "102");
    assert_eq!(app.list_title(), "Jobs (1/2)");
}

#[test]
fn failed_fetch_leaves_the_state_as_it_was() {
    let mut app = app_with(4);
    app.previous();
    let failed = Err(FetchError::CommandFailed("error: invalid user".to_string()));
    match app.load_jobs(failed, ParseStrategy::HeaderAware, Layout::Resource) {
        Err(LoadError::Fetch(FetchError::CommandFailed(stderr))) => {
            assert_eq!(stderr, "error: invalid user")
        },
        other => panic!("{:?}", other),
    }
    assert_eq!(app.jobs().len(), 4);
    assert_eq!(app.selected(), 3);
    let mut fresh = App::new();
    let failed = Err(FetchError::CommandFailed("error: invalid user".to_string()));
    let error = fresh.load_jobs(failed, ParseStrategy::HeaderAware, Layout::Resource).unwrap_err();
    assert_eq!(error.message(), "sacct command failed: error: invalid user");
    assert_eq!(fresh.jobs().len(), 0);
    assert!(fresh.details().is_none());
}

#[test]
fn failed_parse_leaves_the_state_as_it_was() {
    let mut app = app_with(2);
    app.next();
    let loaded = app.load_jobs(Ok("1,2,3\n".to_string()), ParseStrategy::HeaderAware, Layout::Resource);
    assert!(matches!(loaded, Err(LoadError::Parse(_))));
    assert_eq!(app.jobs().len(), 2);
    assert_eq!(app.selected(), 1);
}

#[test]
fn popup_shares_leave_equal_margins() {
    assert_eq!(popup_shares(80), (10, 80, 10));
    assert_eq!(popup_shares(100), (0, 100, 0));
    assert_eq!(popup_shares(0), (50, 0, 50));
    assert_eq!(popup_shares(75), (12, 75, 12));
    assert_eq!(popup_shares(99), (0, 99, 0));
}
