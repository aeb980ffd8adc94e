//! The weather record, its decoding from the provider's JSON answer, and the
//! textual report of it.
//!
//! Temperatures and the wind speed are held as whole tenths (of a degree
//! Celsius, of a metre per second): the report writes them with one digit
//! after the point, so a tenth is all the precision that the record keeps.

use vstd::prelude::*;
use crate::json::{field, get_field, json_error_of_text, json_of_text, parse_json, Json};
use crate::text::{
    all_digits, chars_of, digit_value, digits_value, is_digit, leading_digits, nat_text,
    push_nat, push_tenths, scan_digits, tenths_text,
};

verus! {

/// The main measurements of one report.
#[derive(Debug)]
pub struct MainWeather {
    /// Temperature, in tenths of a degree Celsius.
    pub temp: i64,
    /// Felt temperature, in tenths of a degree Celsius.
    pub feels_like: i64,
    /// Relative humidity, in percent.
    pub humidity: u32,
    /// Air pressure, in hectopascal.
    pub pressure: u32,
}

/// One weather condition: its category and its description.
#[derive(Debug)]
pub struct Weather {
    pub description: String,
    pub main: String,
}

/// Where the place lies.
#[derive(Debug)]
pub struct Sys {
    /// Country code.
    pub country: String,
}

/// Wind at the place.
#[derive(Debug)]
pub struct Wind {
    /// Wind speed, in tenths of a metre per second.
    pub speed: i64,
}

/// One decoded weather report.
#[derive(Debug)]
pub struct WeatherResponse {
    pub main: MainWeather,
    pub weather: Vec<Weather>,
    pub name: String,
    pub sys: Sys,
    pub wind: Wind,
    /// Visibility, in metres.
    pub visibility: u32,
}

impl WeatherResponse {
    /// A record that can be reported: it has at least one condition.
    pub open spec fn wf(&self) -> bool {
        self.weather@.len() > 0
    }
}

/// The largest whole part of a decimal that a record holds.
pub const MAX_WHOLE: u64 = 100_000_000_000_000_000;

/// A run of digits read as a `u32`, where it is one and fits.
pub open spec fn u32_of_text(t: Seq<char>) -> Option<u32> {
    if t.len() > 0 && leading_digits(t) == t.len() && digits_value(t) <= u32::MAX {
        Some(digits_value(t) as u32)
    } else {
        None
    }
}

/// An exponent that makes a one-digit mantissa smaller than a twentieth:
/// `e-` followed by digits worth at least 3.
pub open spec fn small_exponent(tail: Seq<char>) -> bool {
    let ds = tail.subrange(2, tail.len() as int);
    &&& tail.len() >= 3
    &&& tail[0] == 'e'
    &&& tail[1] == '-'
    &&& all_digits(ds)
    &&& digits_value(ds) >= 3
}

/// What follows the whole part of a number written as `1e-7` or `1.5e-7`
/// with a small exponent.
pub open spec fn small_exponent_rest(rest: Seq<char>) -> bool {
    if rest.len() > 0 && rest[0] == '.' {
        let frac = rest.drop_first();
        let m = leading_digits(frac) as int;
        m > 0 && small_exponent(frac.subrange(m, frac.len() as int))
    } else {
        small_exponent(rest)
    }
}

/// An unsigned decimal (`22`, `22.5`, `22.57`) in tenths, rounded half up at
/// the second digit after the point; a one-digit mantissa with a small
/// exponent (`1e-7`, `1.5e-7`, as serde_json writes tiny numbers) is zero
/// tenths. `None` where the text is neither, or its whole part exceeds
/// `MAX_WHOLE`.
pub open spec fn unsigned_tenths(u: Seq<char>) -> Option<int> {
    let k = leading_digits(u) as int;
    let whole: int = digits_value(u.subrange(0, k)) as int;
    let rest = u.subrange(k, u.len() as int);
    if k == 0 || whole > MAX_WHOLE {
        None
    } else if rest.len() == 0 {
        Some(whole * 10)
    } else if rest[0] == '.' && rest.len() >= 2 && all_digits(rest.drop_first()) {
        Some(
            whole * 10 + digit_value(rest[1]) + if rest.len() >= 3 && digit_value(rest[2]) >= 5 {
                1int
            } else {
                0int
            },
        )
    } else if k == 1 && small_exponent_rest(rest) {
        Some(0)
    } else {
        None
    }
}

/// A decimal with an optional leading minus, in tenths, rounded half away
/// from zero.
pub open spec fn tenths_of_text(t: Seq<char>) -> Option<int> {
    if t.len() > 0 && t[0] == '-' {
        match unsigned_tenths(t.drop_first()) {
            Some(m) => Some(-m),
            None => None,
        }
    } else {
        unsigned_tenths(t)
    }
}

/// Reads a JSON number's text as a `u32`.
pub fn parse_u32(t: &String) -> (r: Option<u32>)
    ensures
        r == u32_of_text(t@),
{
    let cs = chars_of(t.as_str());
    let (end, v) = scan_digits(&cs, 0, 0xffff_ffff);
    proof {
        assert(cs@.subrange(0, cs@.len() as int) =~= cs@);
        assert(t@.subrange(0, t@.len() as int) =~= t@);
    }
    match v {
        Some(n) => {
            if end == cs.len() && cs.len() > 0 {
                Some(n as u32)
            } else {
                None
            }
        },
        None => None,
    }
}

/// Whether every character of `cs` from `from` on is a digit.
fn all_digits_from(cs: &Vec<char>, from: usize) -> (r: bool)
    requires
        from <= cs@.len(),
    ensures
        r == all_digits(cs@.subrange(from as int, cs@.len() as int)),
{
    let mut i: usize = from;
    while i < cs.len()
        invariant
            from <= i <= cs@.len(),
            all_digits(cs@.subrange(from as int, i as int)),
        decreases cs@.len() - i,
    {
        if !('0' <= cs[i] && cs[i] <= '9') {
            assert(!is_digit(cs@.subrange(from as int, cs@.len() as int)[i - from]));
            return false;
        }
        assert forall|j: int| 0 <= j < i + 1 - from implies is_digit(
            #[trigger] cs@.subrange(from as int, i + 1)[j],
        ) by {
            if j < i - from {
                assert(is_digit(cs@.subrange(from as int, i as int)[j]));
            }
        }
        i = i + 1;
    }
    true
}

/// Whether `cs` from `at` on reads `e-` and digits worth at least 3.
fn small_exponent_at(cs: &Vec<char>, at: usize) -> (r: bool)
    requires
        at <= cs@.len(),
    ensures
        r == small_exponent(cs@.subrange(at as int, cs@.len() as int)),
{
    let ghost tail = cs@.subrange(at as int, cs@.len() as int);
    if !(cs.len() - at > 2 && cs[at] == 'e' && cs[at + 1] == '-') {
        return false;
    }
    assert(tail.subrange(2, tail.len() as int) =~= cs@.subrange(at + 2, cs@.len() as int));
    let (end, v) = scan_digits(cs, at + 2, 1000);
    let ghost ds = cs@.subrange(at + 2, cs@.len() as int);
    proof {
        crate::text::lemma_leading_digits_at_least(ds, 0);
    }
    match v {
        Some(e) => {
            if end == cs.len() {
                assert(ds.subrange(0, ds.len() as int) =~= ds);
                proof {
                    lemma_all_digits_prefix(ds);
                }
                e >= 3
            } else {
                proof {
                    lemma_not_all_digits(ds);
                }
                false
            }
        },
        None => {
            if all_digits_from(cs, at + 2) {
                proof {
                    lemma_all_digits_prefix(ds);
                    assert(ds.subrange(0, ds.len() as int) =~= ds);
                }
                true
            } else {
                false
            }
        },
    }
}

/// A run of digits throughout has as many leading digits as it is long.
proof fn lemma_all_digits_prefix(s: Seq<char>)
    ensures
        all_digits(s) <==> leading_digits(s) == s.len(),
{
    if all_digits(s) {
        assert(s.subrange(0, s.len() as int) =~= s);
        crate::text::lemma_leading_digits(s, s.len() as int);
    } else {
        lemma_not_all_digits(s);
    }
}

/// Fewer leading digits than characters where some character is no digit.
proof fn lemma_not_all_digits(s: Seq<char>)
    ensures
        !all_digits(s) ==> leading_digits(s) < s.len(),
        all_digits(s) ==> leading_digits(s) == s.len(),
    decreases s.len(),
{
    if s.len() > 0 {
        lemma_not_all_digits(s.drop_first());
        if is_digit(s[0]) {
            if all_digits(s) {
                assert(all_digits(s.drop_first()));
            } else {
                let i = choose|i: int| 0 <= i < s.len() && !is_digit(#[trigger] s[i]);
                assert(!is_digit(s.drop_first()[i - 1]));
            }
        }
    }
}

/// Whether what follows a one-digit whole part at `at` is a fraction-less or
/// fractional mantissa with a small exponent.
fn small_exponent_after(cs: &Vec<char>, at: usize) -> (r: bool)
    requires
        at <= cs@.len(),
    ensures
        r == small_exponent_rest(cs@.subrange(at as int, cs@.len() as int)),
{
    let ghost rest = cs@.subrange(at as int, cs@.len() as int);
    if at < cs.len() && cs[at] == '.' {
        let ghost frac = rest.drop_first();
        assert(frac =~= cs@.subrange(at + 1, cs@.len() as int));
        let fe = digits_end(cs, at + 1);
        if fe == at + 1 {
            return false;
        }
        assert(frac.subrange(leading_digits(frac) as int, frac.len() as int) =~= cs@.subrange(
            fe as int,
            cs@.len() as int,
        ));
        small_exponent_at(cs, fe)
    } else {
        small_exponent_at(cs, at)
    }
}

/// Where the run of digits that starts at `from` ends.
fn digits_end(cs: &Vec<char>, from: usize) -> (r: usize)
    requires
        from <= cs@.len(),
    ensures
        r == from + leading_digits(cs@.subrange(from as int, cs@.len() as int)),
        r <= cs@.len(),
{
    let ghost run = cs@.subrange(from as int, cs@.len() as int);
    let mut i: usize = from;
    while i < cs.len() && '0' <= cs[i] && cs[i] <= '9'
        invariant
            from <= i <= cs@.len(),
            run == cs@.subrange(from as int, cs@.len() as int),
            all_digits(run.subrange(0, i - from)),
        decreases cs@.len() - i,
    {
        assert forall|j: int| 0 <= j < i + 1 - from implies is_digit(
            #[trigger] run.subrange(0, i + 1 - from)[j],
        ) by {
            if j < i - from {
                assert(is_digit(run.subrange(0, i - from)[j]));
            }
        }
        i = i + 1;
    }
    proof {
        crate::text::lemma_leading_digits(run, i - from);
    }
    i
}

/// Reads a JSON number's text as whole tenths.
pub fn parse_tenths(t: &String) -> (r: Option<i64>)
    ensures
        match r {
            Some(v) => tenths_of_text(t@) == Some(v as int),
            None => tenths_of_text(t@) is None,
        },
{
    let cs = chars_of(t.as_str());
    let negative = cs.len() > 0 && cs[0] == '-';
    let start: usize = if negative {
        1
    } else {
        0
    };
    let ghost u = cs@.subrange(start as int, cs@.len() as int);
    proof {
        if negative {
            assert(u =~= t@.drop_first());
        } else {
            assert(u =~= t@);
        }
    }
    let (end, v) = scan_digits(&cs, start, MAX_WHOLE);
    let whole = match v {
        Some(w) => w,
        None => {
            return None;
        },
    };
    if end == start {
        return None;
    }
    let ghost k = leading_digits(u) as int;
    proof {
        crate::text::lemma_leading_digits_at_least(u, 0);
    }
    let ghost rest = u.subrange(k, u.len() as int);
    assert(rest =~= cs@.subrange(end as int, cs@.len() as int));
    let mut m: i64 = whole as i64 * 10;
    if end < cs.len() {
        if !(cs[end] == '.' && end + 1 < cs.len() && all_digits_from(&cs, end + 1)) {
            proof {
                if cs@[end as int] == '.' {
                    assert(rest.drop_first() =~= cs@.subrange(end + 1, cs@.len() as int));
                }
            }
            if end == start + 1 && small_exponent_after(&cs, end) {
                assert(unsigned_tenths(u) == Some(0int));
                return Some(0);
            }
            return None;
        }
        assert(rest.drop_first() =~= cs@.subrange(end + 1, cs@.len() as int));
        assert(is_digit(rest.drop_first()[0]));
        m = m + (cs[end + 1] as u32 - '0' as u32) as i64;
        if end + 2 < cs.len() {
            assert(is_digit(rest.drop_first()[1]));
            if (cs[end + 2] as u32 - '0' as u32) >= 5 {
                m = m + 1;
            }
        }
    }
    assert(unsigned_tenths(u) == Some(m as int));
    if negative {
        Some(-m)
    } else {
        Some(m)
    }
}

/// The text of member `key` of `j`, where it is a string.
pub open spec fn text_field(j: Json, key: Seq<char>) -> Option<Seq<char>> {
    match field(j, key) {
        Some(Json::Str(s)) => Some(s@),
        _ => None,
    }
}

/// Member `key` of `j` as a `u32`, where it is a number that is one.
pub open spec fn u32_field(j: Json, key: Seq<char>) -> Option<u32> {
    match field(j, key) {
        Some(Json::Number(t)) => u32_of_text(t@),
        _ => None,
    }
}

/// Member `key` of `j` in tenths, where it is a number that a record holds.
pub open spec fn tenths_field(j: Json, key: Seq<char>) -> Option<int> {
    match field(j, key) {
        Some(Json::Number(t)) => tenths_of_text(t@),
        _ => None,
    }
}

/// Member `outer` of `j`, then member `key` of that, as tenths.
pub open spec fn nested_tenths(j: Json, outer: Seq<char>, key: Seq<char>) -> Option<int> {
    match field(j, outer) {
        Some(o) => tenths_field(o, key),
        None => None,
    }
}

/// Member `outer` of `j`, then member `key` of that, as a `u32`.
pub open spec fn nested_u32(j: Json, outer: Seq<char>, key: Seq<char>) -> Option<u32> {
    match field(j, outer) {
        Some(o) => u32_field(o, key),
        None => None,
    }
}

/// Member `outer` of `j`, then member `key` of that, as text.
pub open spec fn nested_text(j: Json, outer: Seq<char>, key: Seq<char>) -> Option<Seq<char>> {
    match field(j, outer) {
        Some(o) => text_field(o, key),
        None => None,
    }
}

/// A condition object: it has a text `description` and a text `main`.
pub open spec fn condition_ok(c: Json) -> bool {
    text_field(c, "description"@) is Some && text_field(c, "main"@) is Some
}

/// The conditions of a document, where `weather` is an array.
pub open spec fn condition_items(j: Json) -> Option<Seq<Json>> {
    match field(j, "weather"@) {
        Some(Json::Array(items)) => Some(items@),
        _ => None,
    }
}

/// Whether `weather` is a non-empty array of condition objects.
pub open spec fn conditions_ok(j: Json) -> bool {
    &&& condition_items(j) is Some
    &&& condition_items(j)->0.len() > 0
    &&& forall|i: int|
        0 <= i < condition_items(j)->0.len() ==> condition_ok(#[trigger] condition_items(j)->0[i])
}

/// The message of a failed decode, naming the member that was missing or of
/// the wrong kind.
pub open spec fn missing_message(what: Seq<char>) -> Seq<char> {
    "missing or invalid field: "@ + what
}

/// The first member, in the order `decode_weather` reads them, that a
/// document lacks or holds with the wrong kind.
pub open spec fn failed_member(j: Json) -> Seq<char> {
    if field(j, "main"@) is None {
        "main"@
    } else if nested_tenths(j, "main"@, "temp"@) is None {
        "main.temp"@
    } else if nested_tenths(j, "main"@, "feels_like"@) is None {
        "main.feels_like"@
    } else if nested_u32(j, "main"@, "humidity"@) is None {
        "main.humidity"@
    } else if nested_u32(j, "main"@, "pressure"@) is None {
        "main.pressure"@
    } else if !conditions_ok(j) {
        "weather"@
    } else if text_field(j, "name"@) is None {
        "name"@
    } else if field(j, "sys"@) is None {
        "sys"@
    } else if nested_text(j, "sys"@, "country"@) is None {
        "sys.country"@
    } else if field(j, "wind"@) is None {
        "wind"@
    } else if nested_tenths(j, "wind"@, "speed"@) is None {
        "wind.speed"@
    } else {
        "visibility"@
    }
}

/// Whether a document holds every member that a record needs, of the right
/// kind, with at least one condition.
pub open spec fn decodable(j: Json) -> bool {
    &&& nested_tenths(j, "main"@, "temp"@) is Some
    &&& nested_tenths(j, "main"@, "feels_like"@) is Some
    &&& nested_u32(j, "main"@, "humidity"@) is Some
    &&& nested_u32(j, "main"@, "pressure"@) is Some
    &&& conditions_ok(j)
    &&& text_field(j, "name"@) is Some
    &&& nested_text(j, "sys"@, "country"@) is Some
    &&& nested_tenths(j, "wind"@, "speed"@) is Some
    &&& u32_field(j, "visibility"@) is Some
}

/// Whether record `w` holds exactly what document `j` says.
pub open spec fn decodes_to(j: Json, w: WeatherResponse) -> bool {
    &&& nested_tenths(j, "main"@, "temp"@) == Some(w.main.temp as int)
    &&& nested_tenths(j, "main"@, "feels_like"@) == Some(w.main.feels_like as int)
    &&& nested_u32(j, "main"@, "humidity"@) == Some(w.main.humidity)
    &&& nested_u32(j, "main"@, "pressure"@) == Some(w.main.pressure)
    &&& condition_items(j) is Some
    &&& condition_items(j)->0.len() == w.weather@.len()
    &&& w.weather@.len() > 0
    &&& forall|i: int|
        0 <= i < w.weather@.len() ==> text_field(#[trigger] condition_items(j)->0[i], "description"@)
            == Some(w.weather@[i].description@) && text_field(condition_items(j)->0[i], "main"@)
            == Some(w.weather@[i].main@)
    &&& text_field(j, "name"@) == Some(w.name@)
    &&& nested_text(j, "sys"@, "country"@) == Some(w.sys.country@)
    &&& nested_tenths(j, "wind"@, "speed"@) == Some(w.wind.speed as int)
    &&& u32_field(j, "visibility"@) == Some(w.visibility)
}

/// The message of a failed decode.
fn missing(what: &str) -> (r: String)
    ensures
        r@ == missing_message(what@),
{
    let mut s = String::from_str("missing or invalid field: ");
    s.append(what);
    s
}

fn text_member(j: &Json, key: &str) -> (r: Option<String>)
    ensures
        match r {
            Some(s) => text_field(*j, key@) == Some(s@),
            None => text_field(*j, key@) is None,
        },
{
    let k = String::from_str(key);
    match get_field(j, &k) {
        Some(Json::Str(s)) => Some(s.clone()),
        _ => None,
    }
}

fn u32_member(j: &Json, key: &str) -> (r: Option<u32>)
    ensures
        r == u32_field(*j, key@),
{
    let k = String::from_str(key);
    match get_field(j, &k) {
        Some(Json::Number(t)) => parse_u32(t),
        _ => None,
    }
}

fn tenths_member(j: &Json, key: &str) -> (r: Option<i64>)
    ensures
        match r {
            Some(v) => tenths_field(*j, key@) == Some(v as int),
            None => tenths_field(*j, key@) is None,
        },
{
    let k = String::from_str(key);
    match get_field(j, &k) {
        Some(Json::Number(t)) => parse_tenths(t),
        _ => None,
    }
}

/// Reads the list of conditions.
fn decode_conditions(j: &Json) -> (r: Option<Vec<Weather>>)
    ensures
        match r {
            Some(ws) => {
                &&& condition_items(*j) is Some
                &&& condition_items(*j)->0.len() == ws@.len()
                &&& ws@.len() > 0
                &&& forall|i: int|
                    0 <= i < ws@.len() ==> text_field(#[trigger] condition_items(*j)->0[i], "description"@)
                        == Some(ws@[i].description@) && text_field(condition_items(*j)->0[i], "main"@)
                        == Some(ws@[i].main@)
            },
            None => !conditions_ok(*j),
        },
{
    let k = String::from_str("weather");
    let items = match get_field(j, &k) {
        Some(Json::Array(items)) => items,
        _ => {
            return None;
        },
    };
    assert(condition_items(*j) == Some(items@));
    if items.len() == 0 {
        return None;
    }
    let mut out: Vec<Weather> = Vec::new();
    let mut i: usize = 0;
    while i < items.len()
        invariant
            i <= items@.len(),
            condition_items(*j) == Some(items@),
            out@.len() == i,
            forall|x: int|
                0 <= x < i ==> text_field(#[trigger] items@[x], "description"@) == Some(
                    out@[x].description@,
                ) && text_field(items@[x], "main"@) == Some(out@[x].main@),
        decreases items@.len() - i,
    {
        let d = text_member(&items[i], "description");
        let m = text_member(&items[i], "main");
        match (d, m) {
            (Some(description), Some(main)) => {
                out.push(Weather { description, main });
            },
            _ => {
                assert(!condition_ok(items@[i as int]));
                return None;
            },
        }
        i = i + 1;
    }
    Some(out)
}

/// Decodes a JSON document into a record. It succeeds exactly where every
/// member that a record needs is there, of the right kind, with at least one
/// condition; the record then holds what the document says.
pub fn decode_weather(j: &Json) -> (r: Result<WeatherResponse, String>)
    ensures
        match r {
            Ok(w) => decodes_to(*j, w) && w.wf(),
            Err(e) => !decodable(*j) && e@ == missing_message(failed_member(*j)),
        },
{
    let main_key = String::from_str("main");
    let main = match get_field(j, &main_key) {
        Some(m) => m,
        None => {
            return Err(missing("main"));
        },
    };
    let temp = match tenths_member(main, "temp") {
        Some(v) => v,
        None => {
            return Err(missing("main.temp"));
        },
    };
    let feels_like = match tenths_member(main, "feels_like") {
        Some(v) => v,
        None => {
            return Err(missing("main.feels_like"));
        },
    };
    let humidity = match u32_member(main, "humidity") {
        Some(v) => v,
        None => {
            return Err(missing("main.humidity"));
        },
    };
    let pressure = match u32_member(main, "pressure") {
        Some(v) => v,
        None => {
            return Err(missing("main.pressure"));
        },
    };
    let weather = match decode_conditions(j) {
        Some(ws) => ws,
        None => {
            return Err(missing("weather"));
        },
    };
    let name = match text_member(j, "name") {
        Some(s) => s,
        None => {
            return Err(missing("name"));
        },
    };
    let sys_key = String::from_str("sys");
    let country = match get_field(j, &sys_key) {
        Some(s) => match text_member(s, "country") {
            Some(c) => c,
            None => {
                return Err(missing("sys.country"));
            },
        },
        None => {
            return Err(missing("sys"));
        },
    };
    let wind_key = String::from_str("wind");
    let speed = match get_field(j, &wind_key) {
        Some(wd) => match tenths_member(wd, "speed") {
            Some(v) => v,
            None => {
                return Err(missing("wind.speed"));
            },
        },
        None => {
            return Err(missing("wind"));
        },
    };
    let visibility = match u32_member(j, "visibility") {
        Some(v) => v,
        None => {
            return Err(missing("visibility"));
        },
    };
    Ok(
        WeatherResponse {
            main: MainWeather { temp, feels_like, humidity, pressure },
            weather,
            name,
            sys: Sys { country },
            wind: Wind { speed },
            visibility,
        },
    )
}

/// Decodes the provider's JSON text into a record: it succeeds exactly where
/// the text is JSON that `decode_weather` accepts, with the record that
/// `decode_weather` gives.
pub fn decode_weather_text(text: &str) -> (r: Result<WeatherResponse, String>)
    ensures
        r is Ok <==> (json_of_text(text@) matches Some(j) && decodable(j)),
        r matches Ok(w) ==> decodes_to(json_of_text(text@)->0, w) && w.wf(),
        r matches Err(e) ==> e@ == match json_of_text(text@) {
            Some(j) => missing_message(failed_member(j)),
            None => json_error_of_text(text@),
        },
{
    match parse_json(text) {
        Ok(j) => decode_weather(&j),
        Err(e) => Err(e),
    }
}

/// The report of a record: a header with the place, a separator line, one
/// line per measure, and a closing separator.
pub open spec fn weather_report(w: WeatherResponse) -> Seq<char>
    recommends
        w.wf(),
{
    "Weather in "@ + w.name@ + ", "@ + w.sys.country@ + ":\n━━━━━━━━━━━━━━━━━━━━━━━━━━━\n🌡️  Temperature: "@ + tenths_text(w.main.temp as int) + "°C\n🤔 Feels like: "@
        + tenths_text(w.main.feels_like as int) + "°C\n☁️  Condition: "@ + w.weather@[0].description@ + "\n💧 Humidity: "@
        + nat_text(w.main.humidity as nat) + "%\n🎚️  Pressure: "@ + nat_text(w.main.pressure as nat) + " hPa\n💨 Wind Speed: "@
        + tenths_text(w.wind.speed as int) + " m/s\n👁️  Visibility: "@ + nat_text(w.visibility as nat) + " meters\n━━━━━━━━━━━━━━━━━━━━━━━━━━━"@
}

/// Writes the report of a record.
pub fn format_weather(weather: &WeatherResponse) -> (r: String)
    requires
        weather.wf(),
    ensures
        r@ == weather_report(*weather),
{
    let mut s = String::from_str("Weather in ");
    s.append(weather.name.as_str());
    s.append(", ");
    s.append(weather.sys.country.as_str());
    s.append(":\n━━━━━━━━━━━━━━━━━━━━━━━━━━━\n🌡️  Temperature: ");
    push_tenths(&mut s, weather.main.temp);
    s.append("°C\n🤔 Feels like: ");
    push_tenths(&mut s, weather.main.feels_like);
    s.append("°C\n☁️  Condition: ");
    s.append(weather.weather[0].description.as_str());
    s.append("\n💧 Humidity: ");
    push_nat(&mut s, weather.main.humidity as u64);
    s.append("%\n🎚️  Pressure: ");
    push_nat(&mut s, weather.main.pressure as u64);
    s.append(" hPa\n💨 Wind Speed: ");
    push_tenths(&mut s, weather.wind.speed);
    s.append(" m/s\n👁️  Visibility: ");
    push_nat(&mut s, weather.visibility as u64);
    s.append(" meters\n━━━━━━━━━━━━━━━━━━━━━━━━━━━");
    s
}

/// Whether `sub` occurs in `s` as a contiguous run.
pub open spec fn contains(s: Seq<char>, sub: Seq<char>) -> bool {
    exists|i: int| 0 <= i && i + sub.len() <= s.len() && #[trigger] s.subrange(i, i + sub.len()) == sub
}

proof fn lemma_contains_end(pre: Seq<char>, sub: Seq<char>)
    ensures
        contains(pre + sub, sub),
{
    let s = pre + sub;
    assert(s.subrange(pre.len() as int, (pre.len() + sub.len()) as int) =~= sub);
}

proof fn lemma_contains_grow(s: Seq<char>, more: Seq<char>, sub: Seq<char>)
    requires
        contains(s, sub),
    ensures
        contains(s + more, sub),
{
    let i = choose|i: int| 0 <= i && i + sub.len() <= s.len() && #[trigger] s.subrange(i, i + sub.len()) == sub;
    assert((s + more).subrange(i, i + sub.len()) =~= s.subrange(i, i + sub.len()));
}

/// A record is decoded only from a document that holds every member a
/// record needs: where one is missing or of the wrong kind, decoding fails.
pub proof fn decode_needs_every_member(j: Json, w: WeatherResponse)
    requires
        decodes_to(j, w),
    ensures
        decodable(j),
{
    let items = condition_items(j)->0;
    assert forall|i: int| 0 <= i < items.len() implies condition_ok(#[trigger] items[i]) by {
        assert(text_field(items[i], "description"@) == Some(w.weather@[i].description@));
    }
}

/// A document fixes its record: two records decoded from the same document
/// hold the same values, field for field.
pub proof fn decoded_record_is_unique(j: Json, a: WeatherResponse, b: WeatherResponse)
    requires
        decodes_to(j, a),
        decodes_to(j, b),
    ensures
        a.main == b.main,
        a.wind == b.wind,
        a.visibility == b.visibility,
        a.name@ == b.name@,
        a.sys.country@ == b.sys.country@,
        a.weather@.len() == b.weather@.len(),
        forall|i: int|
            0 <= i < a.weather@.len() ==> #[trigger] a.weather@[i].description@ == b.weather@[i].description@
                && a.weather@[i].main@ == b.weather@[i].main@,
{
    assert forall|i: int| 0 <= i < a.weather@.len() implies #[trigger] a.weather@[i].description@
        == b.weather@[i].description@ && a.weather@[i].main@ == b.weather@[i].main@ by {
        let c = condition_items(j)->0[i];
        assert(text_field(c, "description"@) == Some(a.weather@[i].description@));
        assert(text_field(c, "description"@) == Some(b.weather@[i].description@));
    }
}

/// A document that lacks a member a record needs, or holds one with the
/// wrong kind, cannot be decoded: `decode_weather` fails on it and hands out
/// no record at all.
pub proof fn missing_member_is_not_decodable(j: Json)
    requires
        nested_tenths(j, "main"@, "temp"@) is None || nested_tenths(j, "main"@, "feels_like"@) is None
            || nested_u32(j, "main"@, "humidity"@) is None || nested_u32(j, "main"@, "pressure"@) is None
            || !conditions_ok(j) || text_field(j, "name"@) is None || nested_text(j, "sys"@, "country"@) is None
            || nested_tenths(j, "wind"@, "speed"@) is None || u32_field(j, "visibility"@) is None,
    ensures
        !decodable(j),
{
}

/// The report depends on the record alone: equal records give equal reports.
pub proof fn report_is_deterministic(a: WeatherResponse, b: WeatherResponse)
    requires
        a == b,
    ensures
        weather_report(a) == weather_report(b),
{
}

/// The report names the place, its country and the first condition's
/// description, each verbatim.
pub proof fn report_names_place_and_condition(w: WeatherResponse)
    requires
        w.wf(),
    ensures
        contains(weather_report(w), w.name@),
        contains(weather_report(w), w.sys.country@),
        contains(weather_report(w), w.weather@[0].description@),
{
    let pre = "Weather in "@;
    lemma_contains_end(pre, w.name@);
    let acc = pre + w.name@;
    lemma_contains_grow(acc, ", "@, w.name@);
    let acc = acc + ", "@;
    lemma_contains_grow(acc, w.sys.country@, w.name@);
    let acc = acc + w.sys.country@;
    lemma_contains_grow(acc, ":\n━━━━━━━━━━━━━━━━━━━━━━━━━━━\n🌡️  Temperature: "@, w.name@);
    let acc = acc + ":\n━━━━━━━━━━━━━━━━━━━━━━━━━━━\n🌡️  Temperature: "@;
    lemma_contains_grow(acc, tenths_text(w.main.temp as int), w.name@);
    let acc = acc + tenths_text(w.main.temp as int);
    lemma_contains_grow(acc, "°C\n🤔 Feels like: "@, w.name@);
    let acc = acc + "°C\n🤔 Feels like: "@;
    lemma_contains_grow(acc, tenths_text(w.main.feels_like as int), w.name@);
    let acc = acc + tenths_text(w.main.feels_like as int);
    lemma_contains_grow(acc, "°C\n☁️  Condition: "@, w.name@);
    let acc = acc + "°C\n☁️  Condition: "@;
    lemma_contains_grow(acc, w.weather@[0].description@, w.name@);
    let acc = acc + w.weather@[0].description@;
    lemma_contains_grow(acc, "\n💧 Humidity: "@, w.name@);
    let acc = acc + "\n💧 Humidity: "@;
    lemma_contains_grow(acc, nat_text(w.main.humidity as nat), w.name@);
    let acc = acc + nat_text(w.main.humidity as nat);
    lemma_contains_grow(acc, "%\n🎚️  Pressure: "@, w.name@);
    let acc = acc + "%\n🎚️  Pressure: "@;
    lemma_contains_grow(acc, nat_text(w.main.pressure as nat), w.name@);
    let acc = acc + nat_text(w.main.pressure as nat);
    lemma_contains_grow(acc, " hPa\n💨 Wind Speed: "@, w.name@);
    let acc = acc + " hPa\n💨 Wind Speed: "@;
    lemma_contains_grow(acc, tenths_text(w.wind.speed as int), w.name@);
    let acc = acc + tenths_text(w.wind.speed as int);
    lemma_contains_grow(acc, " m/s\n👁️  Visibility: "@, w.name@);
    let acc = acc + " m/s\n👁️  Visibility: "@;
    lemma_contains_grow(acc, nat_text(w.visibility as nat), w.name@);
    let acc = acc + nat_text(w.visibility as nat);
    lemma_contains_grow(acc, " meters\n━━━━━━━━━━━━━━━━━━━━━━━━━━━"@, w.name@);
    let acc = acc + " meters\n━━━━━━━━━━━━━━━━━━━━━━━━━━━"@;
    assert(acc == weather_report(w));
    let pre = "Weather in "@ + w.name@ + ", "@;
    lemma_contains_end(pre, w.sys.country@);
    let acc = pre + w.sys.country@;
    lemma_contains_grow(acc, ":\n━━━━━━━━━━━━━━━━━━━━━━━━━━━\n🌡️  Temperature: "@, w.sys.country@);
    let acc = acc + ":\n━━━━━━━━━━━━━━━━━━━━━━━━━━━\n🌡️  Temperature: "@;
    lemma_contains_grow(acc, tenths_text(w.main.temp as int), w.sys.country@);
    let acc = acc + tenths_text(w.main.temp as int);
    lemma_contains_grow(acc, "°C\n🤔 Feels like: "@, w.sys.country@);
    let acc = acc + "°C\n🤔 Feels like: "@;
    lemma_contains_grow(acc, tenths_text(w.main.feels_like as int), w.sys.country@);
    let acc = acc + tenths_text(w.main.feels_like as int);
    lemma_contains_grow(acc, "°C\n☁️  Condition: "@, w.sys.country@);
    let acc = acc + "°C\n☁️  Condition: "@;
    lemma_contains_grow(acc, w.weather@[0].description@, w.sys.country@);
    let acc = acc + w.weather@[0].description@;
    lemma_contains_grow(acc, "\n💧 Humidity: "@, w.sys.country@);
    let acc = acc + "\n💧 Humidity: "@;
    lemma_contains_grow(acc, nat_text(w.main.humidity as nat), w.sys.country@);
    let acc = acc + nat_text(w.main.humidity as nat);
    lemma_contains_grow(acc, "%\n🎚️  Pressure: "@, w.sys.country@);
    let acc = acc + "%\n🎚️  Pressure: "@;
    lemma_contains_grow(acc, nat_text(w.main.pressure as nat), w.sys.country@);
    let acc = acc + nat_text(w.main.pressure as nat);
    lemma_contains_grow(acc, " hPa\n💨 Wind Speed: "@, w.sys.country@);
    let acc = acc + " hPa\n💨 Wind Speed: "@;
    lemma_contains_grow(acc, tenths_text(w.wind.speed as int), w.sys.country@);
    let acc = acc + tenths_text(w.wind.speed as int);
    lemma_contains_grow(acc, " m/s\n👁️  Visibility: "@, w.sys.country@);
    let acc = acc + " m/s\n👁️  Visibility: "@;
    lemma_contains_grow(acc, nat_text(w.visibility as nat), w.sys.country@);
    let acc = acc + nat_text(w.visibility as nat);
    lemma_contains_grow(acc, " meters\n━━━━━━━━━━━━━━━━━━━━━━━━━━━"@, w.sys.country@);
    let acc = acc + " meters\n━━━━━━━━━━━━━━━━━━━━━━━━━━━"@;
    assert(acc == weather_report(w));
    let pre = "Weather in "@ + w.name@ + ", "@ + w.sys.country@ + ":\n━━━━━━━━━━━━━━━━━━━━━━━━━━━\n🌡️  Temperature: "@ + tenths_text(w.main.temp as int) + "°C\n🤔 Feels like: "@ + tenths_text(w.main.feels_like as int) + "°C\n☁️  Condition: "@;
    lemma_contains_end(pre, w.weather@[0].description@);
    let acc = pre + w.weather@[0].description@;
    lemma_contains_grow(acc, "\n💧 Humidity: "@, w.weather@[0].description@);
    let acc = acc + "\n💧 Humidity: "@;
    lemma_contains_grow(acc, nat_text(w.main.humidity as nat), w.weather@[0].description@);
    let acc = acc + nat_text(w.main.humidity as nat);
    lemma_contains_grow(acc, "%\n🎚️  Pressure: "@, w.weather@[0].description@);
    let acc = acc + "%\n🎚️  Pressure: "@;
    lemma_contains_grow(acc, nat_text(w.main.pressure as nat), w.weather@[0].description@);
    let acc = acc + nat_text(w.main.pressure as nat);
    lemma_contains_grow(acc, " hPa\n💨 Wind Speed: "@, w.weather@[0].description@);
    let acc = acc + " hPa\n💨 Wind Speed: "@;
    lemma_contains_grow(acc, tenths_text(w.wind.speed as int), w.weather@[0].description@);
    let acc = acc + tenths_text(w.wind.speed as int);
    lemma_contains_grow(acc, " m/s\n👁️  Visibility: "@, w.weather@[0].description@);
    let acc = acc + " m/s\n👁️  Visibility: "@;
    lemma_contains_grow(acc, nat_text(w.visibility as nat), w.weather@[0].description@);
    let acc = acc + nat_text(w.visibility as nat);
    lemma_contains_grow(acc, " meters\n━━━━━━━━━━━━━━━━━━━━━━━━━━━"@, w.weather@[0].description@);
    let acc = acc + " meters\n━━━━━━━━━━━━━━━━━━━━━━━━━━━"@;
    assert(acc == weather_report(w));
}

} // verus!
