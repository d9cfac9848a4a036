use sysmon::{App, Tab};

#[test]
fn next_walks_the_cycle() {
    assert_eq!(Tab::Overview.next(), Tab::Processes);
    assert_eq!(Tab::Processes.next(), Tab::Network);
    assert_eq!(Tab::Network.next(), Tab::Overview);
}

#[test]
fn previous_walks_the_cycle_backwards() {
    assert_eq!(Tab::Overview.previous(), Tab::Network);
    assert_eq!(Tab::Processes.previous(), Tab::Overview);
    assert_eq!(Tab::Network.previous(), Tab::Processes);
}

#[test]
fn three_steps_close_the_cycle() {
    for t in [Tab::Overview, Tab::Processes, Tab::Network] {
        assert_eq!(t.next().next().next(), t);
        assert_eq!(t.next().previous(), t);
        assert_eq!(t.previous().next(), t);
    }
}

#[test]
fn app_tab_navigation() {
    let mut app = App::new();
    app.next_tab();
    assert_eq!(app.current_tab, Tab::Processes);
    app.next_tab();
    assert_eq!(app.current_tab, Tab::Network);
    app.next_tab();
    assert_eq!(app.current_tab, Tab::Overview);
    app.previous_tab();
    assert_eq!(app.current_tab, Tab::Network);
}

#[test]
fn quit_twice_stays_set() {
    let mut app = App::new();
    assert!(!app.should_quit);
    app.quit();
    assert!(app.should_quit);
    app.quit();
    assert!(app.should_quit);
    assert_eq!(app.current_tab, Tab::Overview);
}
