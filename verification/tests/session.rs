use uniname::tui::popup_area;
use uniname::tui::Action;
use uniname::tui::App;
use uniname::tui::Key;
use uniname::tui::Rect;
use uniname::unicode::CodePoint;

fn app_with_results(n: u32) -> App {
    let mut app = App::new();
    app.results = (0..n)
        .map(|i| CodePoint(char::from_u32(0x41 + i).unwrap(), format!("LETTER {}", i)))
        .collect();
    app
}

#[test]
fn down_from_no_selection_selects_first() {
    let mut app = app_with_results(3);
    let a = app.on_key(Key::Down);
    assert_eq!(a, Action::Stay);
    assert_eq!(app.selected, Some(0));
}

#[test]
fn up_from_no_selection_selects_last() {
    let mut app = app_with_results(3);
    let a = app.on_key(Key::Up);
    assert_eq!(a, Action::Stay);
    assert_eq!(app.selected, Some(2));
}

#[test]
fn arrows_on_empty_results_select_nothing() {
    let mut app = App::new();
    app.on_key(Key::Down);
    assert_eq!(app.selected, None);
    app.on_key(Key::Up);
    assert_eq!(app.selected, None);
}

#[test]
fn enter_defaults_to_first_result() {
    let mut app = app_with_results(3);
    let a = app.on_key(Key::Enter);
    assert_eq!(a, Action::Copy('A'));
    assert_eq!(app.selected, Some(0));
}

#[test]
fn enter_copies_the_selected_result() {
    let mut app = app_with_results(3);
    app.on_key(Key::Down);
    app.on_key(Key::Down);
    app.on_key(Key::Down);
    let a = app.on_key(Key::Enter);
    assert_eq!(a, Action::Copy('C'));
}

#[test]
fn enter_on_empty_results_does_nothing() {
    let mut app = App::new();
    let a = app.on_key(Key::Enter);
    assert_eq!(a, Action::Stay);
    assert_eq!(app.selected, None);
}

#[test]
fn down_past_the_end_clamps_to_the_last_entry() {
    let mut app = App::new();
    app.set_query(String::from("YEN SIGN"));
    let n = app.results.len();
    assert!(n > 0);
    for _ in 0..n + 1 {
        app.on_key(Key::Down);
    }
    assert_eq!(app.selected, Some(n - 1));
}

#[test]
fn up_clamps_at_the_first_entry() {
    let mut app = app_with_results(2);
    app.on_key(Key::Down);
    app.on_key(Key::Up);
    app.on_key(Key::Up);
    assert_eq!(app.selected, Some(0));
}

#[test]
fn overlay_opens_and_ignores_other_keys() {
    let mut app = app_with_results(2);
    app.set_query(String::from("ab"));
    app.results = app_with_results(2).results;
    let search_before = app.search.clone();
    let names_before: Vec<(char, String)> =
        app.results.iter().map(|cp| (cp.0, cp.1.clone())).collect();

    let a = app.on_key(Key::Esc);
    assert_eq!(a, Action::Stay);
    assert!(app.popup);

    let a = app.on_key(Key::Char('x'));
    assert_eq!(a, Action::Stay);
    assert!(app.popup);
    let a = app.on_key(Key::Down);
    assert_eq!(a, Action::Stay);
    assert!(app.popup);
    let a = app.on_key(Key::Enter);
    assert_eq!(a, Action::Stay);
    assert!(app.popup);

    assert_eq!(app.search, search_before);
    let names_after: Vec<(char, String)> =
        app.results.iter().map(|cp| (cp.0, cp.1.clone())).collect();
    assert_eq!(names_before, names_after);

    let a = app.on_key(Key::Char('q'));
    assert_eq!(a, Action::Quit);
}

#[test]
fn escape_closes_the_overlay() {
    let mut app = App::new();
    app.on_key(Key::Esc);
    assert!(app.popup);
    app.on_key(Key::Esc);
    assert!(!app.popup);
}

#[test]
fn q_in_normal_mode_is_an_edit() {
    let mut app = App::new();
    let a = app.on_key(Key::Char('q'));
    assert_eq!(a, Action::Edit);
    let a = app.on_key(Key::Other);
    assert_eq!(a, Action::Edit);
}

#[test]
fn set_query_resets_the_selection() {
    let mut app = app_with_results(3);
    app.on_key(Key::Down);
    assert_eq!(app.selected, Some(0));
    app.set_query(String::from("ab"));
    assert_eq!(app.selected, None);
    assert!(app.results.is_empty());
    assert_eq!(app.search, "ab");
}

#[test]
fn popup_area_centers_the_overlay() {
    let r = popup_area(Rect { x: 0, y: 0, width: 100, height: 50 }, 75, 50);
    assert_eq!(r, Rect { x: 12, y: 12, width: 75, height: 25 });
}

#[test]
fn popup_area_respects_the_origin() {
    let r = popup_area(Rect { x: 10, y: 5, width: 21, height: 11 }, 50, 50);
    assert_eq!(r, Rect { x: 15, y: 8, width: 10, height: 5 });
}
