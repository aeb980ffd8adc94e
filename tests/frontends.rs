use weather_app::cli::{classify_line, classify_trimmed, eq_ignore_ascii_case, run_mode, CliArgs, LineAction, RunMode};
use weather_app::gui::WeatherApp;

#[test]
fn blank_line_reprompts() {
    assert!(matches!(classify_line("  "), LineAction::Reprompt));
    assert!(matches!(classify_line(""), LineAction::Reprompt));
    assert!(matches!(classify_line("\t\n"), LineAction::Reprompt));
}

#[test]
fn exit_words_in_any_case_quit() {
    assert!(matches!(classify_line("QUIT"), LineAction::Quit));
    assert!(matches!(classify_line("quit\n"), LineAction::Quit));
    assert!(matches!(classify_line(" Exit "), LineAction::Quit));
    assert!(!matches!(classify_line("quitter"), LineAction::Quit));
}

#[test]
fn other_lines_fetch_trimmed_city() {
    match classify_line("  New York \n") {
        LineAction::Fetch(c) => assert_eq!(c, "New York"),
        _ => panic!("expected a fetch"),
    }
    match classify_trimmed("Nairobi") {
        LineAction::Fetch(c) => assert_eq!(c, "Nairobi"),
        _ => panic!("expected a fetch"),
    }
}

#[test]
fn ascii_case_comparison() {
    assert!(eq_ignore_ascii_case("QuIt", "quit"));
    assert!(!eq_ignore_ascii_case("quit", "quits"));
    assert!(!eq_ignore_ascii_case("qu1t", "quit"));
}

#[test]
fn run_modes() {
    let a = CliArgs { city: Some("Lima".to_string()), gui: true };
    assert!(matches!(run_mode(&a), RunMode::Window));
    let a = CliArgs { city: Some("Lima".to_string()), gui: false };
    match run_mode(&a) {
        RunMode::Once(c) => assert_eq!(c, "Lima"),
        _ => panic!("expected one fetch"),
    }
    let a = CliArgs { city: None, gui: false };
    assert!(matches!(run_mode(&a), RunMode::Interactive));
}

#[test]
fn window_moves_through_loading_to_display() {
    let mut app = WeatherApp::new("key".to_string());
    assert!(!app.is_loading);
    assert!(app.weather_data.is_none());
    app.city_input = "Nairobi".to_string();

    let req = app.fetch_weather().expect("a request");
    assert_eq!(req.city, "Nairobi");
    assert_eq!(req.api_key, "key");
    assert!(app.is_loading);

    // a second trigger while loading is ignored
    assert!(app.fetch_weather().is_none());

    // a frame with nothing delivered keeps loading and asks for another frame
    assert!(app.poll(None));
    assert!(app.is_loading);

    // the outcome arrives
    assert!(!app.poll(Some(Err("API request failed with status: 404 Not Found".to_string()))));
    assert!(!app.is_loading);
    match &app.weather_data {
        Some(Err(m)) => assert!(m.contains("404")),
        _ => panic!("expected the failure to be shown"),
    }

    // a new fetch can start from the display
    assert!(app.fetch_weather().is_some());
    assert!(app.is_loading);
}

#[test]
fn window_ignores_blank_city() {
    let mut app = WeatherApp::new("key".to_string());
    assert!(app.fetch_weather().is_none());
    assert!(!app.is_loading);
    app.city_input = " \t\u{3000} ".to_string();
    assert!(app.fetch_weather().is_none());
    assert!(!app.is_loading);
    assert!(app.weather_data.is_none());
    app.city_input = " Lima ".to_string();
    let req = app.fetch_weather().expect("a request");
    assert_eq!(req.city, " Lima ");
    assert!(app.is_loading);
}

#[test]
fn unicode_white_space_is_trimmed() {
    match classify_line("\u{a0}\u{2003}Kyiv\u{3000}\r\n") {
        LineAction::Fetch(c) => assert_eq!(c, "Kyiv"),
        _ => panic!("expected a fetch"),
    }
    assert!(matches!(classify_line("\u{85}\u{2028}"), LineAction::Reprompt));
}
