//! The windowed front end as a state machine. The window calls
//! `fetch_weather` when the user asks for a fetch and runs the request it gets
//! in the background; on every frame it calls `poll` with whatever the
//! background task has delivered since.

use vstd::prelude::*;
use crate::pipeline::FetchOutcome;
use crate::cli::{trim, trim_of};

verus! {

/// A fetch to run in the background.
pub struct FetchRequest {
    pub city: String,
    pub api_key: String,
}

/// The phase of the window, as a user sees it.
pub enum Phase {
    /// Nothing fetched yet: an empty form.
    Idle,
    /// A fetch is under way.
    Loading,
    /// The outcome of the last fetch is shown.
    Displaying,
}

/// The state of the window.
pub struct WeatherApp {
    /// The text in the city field.
    pub city_input: String,
    /// The outcome of the last fetch that finished.
    pub weather_data: Option<FetchOutcome>,
    pub api_key: String,
    /// Whether a fetch is under way.
    pub is_loading: bool,
}

impl WeatherApp {
    pub open spec fn phase(&self) -> Phase {
        if self.is_loading {
            Phase::Loading
        } else if self.weather_data is Some {
            Phase::Displaying
        } else {
            Phase::Idle
        }
    }

    /// An empty form.
    pub fn new(api_key: String) -> (r: WeatherApp)
        ensures
            r.city_input@.len() == 0,
            r.weather_data is None,
            r.api_key == api_key,
            !r.is_loading,
            r.phase() is Idle,
    {
        WeatherApp { city_input: String::new(), weather_data: None, api_key, is_loading: false }
    }

    /// The user asks for a fetch. Where the city field holds only white
    /// space, or a fetch is under way, nothing happens: a blank city never
    /// reaches the network, and at most one fetch is in flight. Otherwise the
    /// window moves to `Loading` at once and the request for the city in the
    /// field is handed out to be run.
    pub fn fetch_weather(&mut self) -> (r: Option<FetchRequest>)
        ensures
            old(self).is_loading || trim_of(old(self).city_input@).len() == 0 ==> r is None
                && *final(self) == *old(self),
            !old(self).is_loading && trim_of(old(self).city_input@).len() > 0 ==> {
                &&& r matches Some(q) && q.city@ == old(self).city_input@ && q.api_key@
                    == old(self).api_key@
                &&& final(self).is_loading
                &&& final(self).phase() is Loading
                &&& final(self).city_input == old(self).city_input
                &&& final(self).api_key == old(self).api_key
                &&& final(self).weather_data == old(self).weather_data
            },
    {
        if self.is_loading {
            return None;
        }
        let city = trim(self.city_input.as_str());
        if city.as_str().is_empty() {
            return None;
        }
        self.is_loading = true;
        Some(FetchRequest { city: self.city_input.clone(), api_key: self.api_key.clone() })
    }

    /// One frame: `received` is what the background task delivered since the
    /// last frame, if anything. A delivered outcome is shown and ends the
    /// loading; otherwise nothing changes. The result says whether another
    /// frame is wanted soon, which is while a fetch is under way.
    pub fn poll(&mut self, received: Option<FetchOutcome>) -> (repaint: bool)
        ensures
            received is None ==> *final(self) == *old(self),
            received is Some ==> final(self).weather_data == received && !final(self).is_loading
                && final(self).phase() is Displaying,
            final(self).city_input == old(self).city_input,
            final(self).api_key == old(self).api_key,
            repaint == final(self).is_loading,
    {
        match received {
            Some(outcome) => {
                self.weather_data = Some(outcome);
                self.is_loading = false;
            },
            None => {},
        }
        self.is_loading
    }
}

} // verus!
