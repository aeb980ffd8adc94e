use weather_app::json::{parse_json, Json};
use weather_app::weather::{
    decode_weather_text, format_weather, parse_tenths, parse_u32, MainWeather, Sys, Weather,
    WeatherResponse, Wind,
};

const NAIROBI: &str = r#"
        {
            "main": {
                "temp": 22.5,
                "feels_like": 21.8,
                "humidity": 65,
                "pressure": 1013
            },
            "weather": [
                {
                    "main": "Clouds",
                    "description": "broken clouds"
                }
            ],
            "wind": {
                "speed": 3.5
            },
            "visibility": 10000,
            "name": "Nairobi",
            "sys": {
                "country": "KE"
            }
        }
        "#;

fn test_city() -> WeatherResponse {
    WeatherResponse {
        name: "TestCity".to_string(),
        main: MainWeather { temp: 250, feels_like: 245, humidity: 70, pressure: 1015 },
        weather: vec![Weather { main: "Clear".to_string(), description: "clear sky".to_string() }],
        sys: Sys { country: "TC".to_string() },
        wind: Wind { speed: 50 },
        visibility: 10000,
    }
}

#[test]
fn test_weather_response_structure() {
    let weather = decode_weather_text(NAIROBI);
    assert!(weather.is_ok());

    let weather = weather.unwrap();
    assert_eq!(weather.name, "Nairobi");
    // 22.5 degrees, held in tenths
    assert_eq!(weather.main.temp, 225);
}

#[test]
fn test_format_weather_output() {
    let weather = test_city();
    let output = format_weather(&weather);
    assert!(output.contains("TestCity"));
    assert!(output.contains("25.0"));
    assert!(output.contains("clear sky"));
}

#[test]
fn decode_keeps_every_field() {
    let w = decode_weather_text(NAIROBI).unwrap();
    assert_eq!(w.main.temp, 225);
    assert_eq!(w.main.feels_like, 218);
    assert_eq!(w.main.humidity, 65);
    assert_eq!(w.main.pressure, 1013);
    assert_eq!(w.weather.len(), 1);
    assert_eq!(w.weather[0].main, "Clouds");
    assert_eq!(w.weather[0].description, "broken clouds");
    assert_eq!(w.wind.speed, 35);
    assert_eq!(w.visibility, 10000);
    assert_eq!(w.name, "Nairobi");
    assert_eq!(w.sys.country, "KE");
}

#[test]
fn scenario_nairobi_report() {
    let w = decode_weather_text(NAIROBI).unwrap();
    let out = format_weather(&w);
    for part in [
        "Weather in Nairobi, KE:",
        "22.5°C",
        "broken clouds",
        "65%",
        "1013 hPa",
        "3.5 m/s",
        "10000 meters",
    ] {
        assert!(out.contains(part), "{} missing from {}", part, out);
    }
}

#[test]
fn report_is_exact() {
    let out = format_weather(&test_city());
    let expected = "Weather in TestCity, TC:
━━━━━━━━━━━━━━━━━━━━━━━━━━━
🌡️  Temperature: 25.0°C
🤔 Feels like: 24.5°C
☁️  Condition: clear sky
💧 Humidity: 70%
🎚️  Pressure: 1015 hPa
💨 Wind Speed: 5.0 m/s
👁️  Visibility: 10000 meters
━━━━━━━━━━━━━━━━━━━━━━━━━━━";
    assert_eq!(out, expected);
}

#[test]
fn report_twice_is_the_same() {
    let w = test_city();
    assert_eq!(format_weather(&w), format_weather(&w));
}

#[test]
fn report_names_place_and_description() {
    let mut w = test_city();
    w.name = "São Paulo".to_string();
    w.sys.country = "BR".to_string();
    w.weather[0].description = "light rain".to_string();
    let out = format_weather(&w);
    assert!(out.contains("São Paulo"));
    assert!(out.contains("BR"));
    assert!(out.contains("light rain"));
}

#[test]
fn whole_temperature_keeps_one_decimal() {
    let mut w = test_city();
    w.main.temp = 220;
    w.main.feels_like = -3;
    let out = format_weather(&w);
    assert!(out.contains("Temperature: 22.0°C"));
    assert!(out.contains("Feels like: -0.3°C"));
}

#[test]
fn missing_fields_fail() {
    let fields = ["\"name\": \"Nairobi\",", "\"visibility\": 10000,", "\"temp\": 22.5,"];
    for f in fields {
        let text = NAIROBI.replacen(f, "", 1);
        assert!(text != NAIROBI);
        assert!(decode_weather_text(&text).is_err(), "decoded without {}", f);
    }
    let no_sys = NAIROBI.replacen("\"country\": \"KE\"", "", 1);
    assert!(decode_weather_text(&no_sys).is_err());
}

#[test]
fn empty_condition_list_fails() {
    let text = r#"{"main":{"temp":1,"feels_like":1,"humidity":1,"pressure":1},"weather":[],
        "wind":{"speed":1},"visibility":1,"name":"X","sys":{"country":"Y"}}"#;
    assert!(decode_weather_text(text).is_err());
}

#[test]
fn wrong_kind_fails() {
    let text = NAIROBI.replacen("\"humidity\": 65", "\"humidity\": \"65\"", 1);
    assert!(decode_weather_text(&text).is_err());
    let text = NAIROBI.replacen("\"humidity\": 65", "\"humidity\": 65.5", 1);
    assert!(decode_weather_text(&text).is_err());
    let text = NAIROBI.replacen("\"humidity\": 65", "\"humidity\": -1", 1);
    assert!(decode_weather_text(&text).is_err());
}

#[test]
fn bad_json_fails() {
    assert!(decode_weather_text("{").is_err());
    assert!(decode_weather_text("").is_err());
}

#[test]
fn extra_members_are_ignored() {
    let text = NAIROBI.replacen("\"visibility\": 10000,", "\"visibility\": 10000, \"cod\": 200,", 1);
    let w = decode_weather_text(&text).unwrap();
    assert_eq!(w.visibility, 10000);
}

#[test]
fn numbers_read_as_u32() {
    assert_eq!(parse_u32(&"65".to_string()), Some(65));
    assert_eq!(parse_u32(&"4294967295".to_string()), Some(4294967295));
    assert_eq!(parse_u32(&"4294967296".to_string()), None);
    assert_eq!(parse_u32(&"".to_string()), None);
    assert_eq!(parse_u32(&"6.5".to_string()), None);
}

#[test]
fn numbers_read_as_tenths() {
    assert_eq!(parse_tenths(&"22.5".to_string()), Some(225));
    assert_eq!(parse_tenths(&"22".to_string()), Some(220));
    assert_eq!(parse_tenths(&"22.0".to_string()), Some(220));
    assert_eq!(parse_tenths(&"22.55".to_string()), Some(226));
    assert_eq!(parse_tenths(&"22.549".to_string()), Some(225));
    assert_eq!(parse_tenths(&"-0.25".to_string()), Some(-3));
    assert_eq!(parse_tenths(&"-12.3".to_string()), Some(-123));
    assert_eq!(parse_tenths(&"1e-7".to_string()), Some(0));
    assert_eq!(parse_tenths(&"-1.5e-7".to_string()), Some(0));
    assert_eq!(parse_tenths(&"9e-2".to_string()), None);
    assert_eq!(parse_tenths(&"1e16".to_string()), None);
    assert_eq!(parse_tenths(&"12e-7".to_string()), None);
    assert_eq!(parse_tenths(&"1.e-7".to_string()), None);
    assert_eq!(parse_tenths(&"-".to_string()), None);
    assert_eq!(parse_tenths(&"3.".to_string()), None);
    assert_eq!(parse_tenths(&".5".to_string()), None);
    assert_eq!(parse_tenths(&"10000000000000000000".to_string()), None);
    assert_eq!(parse_tenths(&"100000000000000000".to_string()), Some(1_000_000_000_000_000_000));
    assert_eq!(parse_tenths(&"100000000000000001".to_string()), None);
}

#[test]
fn same_text_gives_same_record() {
    let a = decode_weather_text(NAIROBI).unwrap();
    let b = decode_weather_text(NAIROBI).unwrap();
    assert_eq!(a.main.temp, b.main.temp);
    assert_eq!(a.name, b.name);
    assert_eq!(format_weather(&a), format_weather(&b));
}

#[test]
fn parsed_document_model() {
    match parse_json("{\"b\": [1, \"x\", null, true], \"a\": 2.50}") {
        Ok(Json::Object(members)) => {
            assert_eq!(members.len(), 2);
            assert_eq!(members[0].0, "a");
            assert!(matches!(&members[0].1, Json::Number(t) if t == "2.5"));
            match &members[1].1 {
                Json::Array(items) => {
                    assert_eq!(items.len(), 4);
                    assert!(matches!(&items[1], Json::Str(s) if s == "x"));
                    assert!(matches!(items[2], Json::Null));
                    assert!(matches!(items[3], Json::Bool(true)));
                }
                _ => panic!("expected an array"),
            }
        }
        _ => panic!("expected an object"),
    }
    assert!(parse_json("[1,").is_err());
}

#[test]
fn tiny_values_decode_as_zero() {
    let text = NAIROBI.replacen("\"speed\": 3.5", "\"speed\": 0.0000001", 1);
    let w = decode_weather_text(&text).unwrap();
    assert_eq!(w.wind.speed, 0);
}

#[test]
fn decode_failure_names_the_member() {
    let text = NAIROBI.replacen("\"feels_like\": 21.8,", "", 1);
    assert_eq!(decode_weather_text(&text).unwrap_err(), "missing or invalid field: main.feels_like");
    let text = NAIROBI.replacen("\"country\": \"KE\"", "\"country\": 1", 1);
    assert_eq!(decode_weather_text(&text).unwrap_err(), "missing or invalid field: sys.country");
    let text = NAIROBI.replacen("\"visibility\": 10000,", "", 1);
    assert_eq!(decode_weather_text(&text).unwrap_err(), "missing or invalid field: visibility");
    let text = r#"{"main":{"temp":1,"feels_like":1,"humidity":1,"pressure":1},"weather":[]}"#;
    assert_eq!(decode_weather_text(text).unwrap_err(), "missing or invalid field: weather");
    assert_eq!(decode_weather_text("{").unwrap_err(), decode_weather_text("{").unwrap_err());
}
