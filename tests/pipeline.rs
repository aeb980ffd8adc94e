use weather_app::query::escape_query_value;
use weather_app::pipeline::{
    is_success, outcome_of_response, request_url, status_failure_message, status_message,
};

#[test]
fn url_holds_city_key_and_units() {
    assert_eq!(
        request_url("Nairobi", "k123"),
        "https://api.openweathermap.org/data/2.5/weather?q=Nairobi&appid=k123&units=metric"
    );
}

#[test]
fn success_range() {
    assert!(is_success(200));
    assert!(is_success(299));
    assert!(!is_success(199));
    assert!(!is_success(300));
    assert!(!is_success(404));
}

#[test]
fn not_found_status_fails_with_code() {
    match outcome_of_response(404, "{\"cod\":\"404\"}") {
        Err(m) => {
            assert!(m.contains("404"));
            assert_eq!(m, "API request failed with status: 404 Not Found");
        }
        Ok(_) => panic!("a 404 gave a record"),
    }
}

#[test]
fn status_messages() {
    assert_eq!(status_failure_message(401), "API request failed with status: 401 Unauthorized");
    assert_eq!(
        status_failure_message(599),
        "API request failed with status: 599 <unknown status code>"
    );
    assert_eq!(
        status_failure_message(42),
        "API request failed with status: 42 <unknown status code>"
    );
}

#[test]
fn success_status_decodes_body() {
    let body = r#"{"main":{"temp":-1.25,"feels_like":-4,"humidity":90,"pressure":998},
        "weather":[{"main":"Snow","description":"light snow"},{"main":"Mist","description":"mist"}],
        "wind":{"speed":7.04},"visibility":800,"name":"Oslo","sys":{"country":"NO"}}"#;
    let w = outcome_of_response(200, body).unwrap();
    assert_eq!(w.main.temp, -13);
    assert_eq!(w.main.feels_like, -40);
    assert_eq!(w.wind.speed, 70);
    assert_eq!(w.weather.len(), 2);
    assert_eq!(w.weather[1].description, "mist");
    assert!(outcome_of_response(200, "not json").is_err());
}

#[test]
fn status_message_from_reason() {
    assert_eq!(status_message(404, Some("Not Found")), "API request failed with status: 404 Not Found");
    assert_eq!(status_message(777, None), "API request failed with status: 777 <unknown status code>");
}

#[test]
fn city_and_key_are_escaped() {
    assert_eq!(
        request_url("Paris&units=imperial", "k"),
        "https://api.openweathermap.org/data/2.5/weather?q=Paris%26units%3Dimperial&appid=k&units=metric"
    );
    assert_eq!(
        request_url("S\u{e3}o Paulo", "a#b"),
        "https://api.openweathermap.org/data/2.5/weather?q=S%C3%A3o%20Paulo&appid=a%23b&units=metric"
    );
    assert_eq!(
        request_url("\u{20ac}\u{1f327}-._~", "K"),
        "https://api.openweathermap.org/data/2.5/weather?q=%E2%82%AC%F0%9F%8C%A7-._~&appid=K&units=metric"
    );
}

#[test]
fn escape_query_values() {
    assert_eq!(escape_query_value(""), "");
    assert_eq!(escape_query_value("a b+c=d?"), "a%20b%2Bc%3Dd%3F");
    assert_eq!(escape_query_value("\u{7f}\u{80}\u{7ff}\u{800}"), "%7F%C2%80%DF%BF%E0%A0%80");
}
