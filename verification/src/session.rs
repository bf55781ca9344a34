use vstd::prelude::*;

use crate::alerts::{alert_parse, alert_views, try_parse_alerts, AlertData};
use crate::cache::{Cache, MAX_CLOCK_NANOS, NANOS_PER_MINUTE};
use crate::forecast::{
    forecast_parse, forecast_views, forecast_warning, forecast_warning_text, try_parse_forcast,
    ForecastData,
};
use crate::location::{
    county_code, forecast_url, local_text, option_link, points_url, printlocal_text,
    try_find_county, try_get_option, Pos, ALERTURL, BASEURL,
};
use crate::menu::{menu_choice, menu_choice_of, unit_selection, unit_selection_of, MenuChoice};
use crate::observations::{
    station_parse, station_views, stations_link, try_parse_observation_stations,
    try_station_list_url, ObservationData,
};
use crate::text::{push_str_chars, str_chars, string_from_chars};

verus! {

/// Minutes a fetched forecast stays fresh.
pub const FORECAST_MINUTES: u64 = 15;

/// Minutes fetched alerts stay fresh.
pub const ALERT_MINUTES: u64 = 5;

/// Minutes a fetched station list stays fresh.
pub const STATION_MINUTES: u64 = 5;

/// What the main menu asks the program to do next.
pub enum WeatherAction {
    /// Fetch the forecast from `url`, then show the forecasts.
    FetchForecast { url: String },
    /// Show the forecasts held.
    ShowForecast,
    /// Fetch the alerts from `url`, then show the alerts.
    FetchAlerts { url: String },
    /// Show the alerts held.
    ShowAlerts,
    /// Ask for a new ZIP code (everything fetched was dropped).
    AskZip,
    /// Fetch the point again from `url` and the station list it links to,
    /// then show the stations.
    FetchStations { url: String },
    /// Show the stations held.
    ShowStations,
    /// Ask for the unit system (the forecast held was dropped).
    AskUnit,
    /// Leave the program.
    Quit,
    /// Do nothing.
    Nothing,
    /// The point payload has no forecast link that can be read.
    Unreadable,
}

/// The contents of a `WeatherAction`.
pub enum ActionView {
    FetchForecast(Seq<char>),
    ShowForecast,
    FetchAlerts(Seq<char>),
    ShowAlerts,
    AskZip,
    FetchStations(Seq<char>),
    ShowStations,
    AskUnit,
    Quit,
    Nothing,
    Unreadable,
}

impl View for WeatherAction {
    type V = ActionView;

    open spec fn view(&self) -> ActionView {
        match self {
            WeatherAction::FetchForecast { url } => ActionView::FetchForecast(url@),
            WeatherAction::ShowForecast => ActionView::ShowForecast,
            WeatherAction::FetchAlerts { url } => ActionView::FetchAlerts(url@),
            WeatherAction::ShowAlerts => ActionView::ShowAlerts,
            WeatherAction::AskZip => ActionView::AskZip,
            WeatherAction::FetchStations { url } => ActionView::FetchStations(url@),
            WeatherAction::ShowStations => ActionView::ShowStations,
            WeatherAction::AskUnit => ActionView::AskUnit,
            WeatherAction::Quit => ActionView::Quit,
            WeatherAction::Nothing => ActionView::Nothing,
            WeatherAction::Unreadable => ActionView::Unreadable,
        }
    }
}

/// What the program holds between two menu inputs: the three caches, the unit
/// system, the place, the point payload fetched for it and the point address.
pub struct Session {
    pub forecast: Cache<ForecastData>,
    pub alerts: Cache<AlertData>,
    pub stations: Cache<ObservationData>,
    pub unit: String,
    pub place: Pos,
    pub point: Vec<u8>,
    pub point_url: String,
}

/// Whether a cache has to be filled again at `now`: it is empty or outdated.
pub open spec fn stale<T>(c: Cache<T>, now: int) -> bool {
    c.recorded_length() < 1 || c.outdated_at(now)
}

/// `after` is `before` emptied by `Cache::clear`.
pub open spec fn cleared<T>(before: Cache<T>, after: Cache<T>) -> bool {
    &&& after.items() == before.items().take(
        if before.recorded_length() <= before.items().len() {
            before.items().len() - before.recorded_length()
        } else {
            0
        },
    )
    &&& after.recorded_length() == 0
    &&& after.offset() == before.offset()
    &&& after.birth_nanos() == before.birth_nanos()
    &&& after.age_limit_nanos() == before.age_limit_nanos()
}

/// The point lookup address for a place.
pub open spec fn point_address(p: Pos) -> Seq<char> {
    BASEURL@ + p.lat@ + ","@ + p.lon@
}

/// What the main menu does for the character `c` at time `now`:
/// - `F`: when the forecast cache is stale, fetch from the point's forecast
///   link with `?units=` and the unit system (unreadable when the point payload
///   has no such link); otherwise show the forecasts;
/// - `A`: when the alert cache is stale, fetch the active alerts of the
///   place's county; otherwise show the alerts;
/// - `L`: ask for a new ZIP code;
/// - `O`: when the station cache is stale, fetch the point again; otherwise
///   show the stations;
/// - `U`: ask for the unit system; `Q`: quit; anything else: nothing.
pub open spec fn session_action(s: Session, c: char, now: int) -> ActionView {
    match menu_choice_of(c) {
        MenuChoice::Forecast => if stale(s.forecast, now) {
            match option_link(1, s.point@) {
                None => ActionView::Unreadable,
                Some(link) => ActionView::FetchForecast(link + "?units="@ + s.unit@),
            }
        } else {
            ActionView::ShowForecast
        },
        MenuChoice::Alerts => if stale(s.alerts, now) {
            ActionView::FetchAlerts(ALERTURL@ + s.place.county@)
        } else {
            ActionView::ShowAlerts
        },
        MenuChoice::Location => ActionView::AskZip,
        MenuChoice::Observations => if stale(s.stations, now) {
            ActionView::FetchStations(s.point_url@)
        } else {
            ActionView::ShowStations
        },
        MenuChoice::Units => ActionView::AskUnit,
        MenuChoice::Quit => ActionView::Quit,
        MenuChoice::Nothing => ActionView::Nothing,
    }
}

/// How the menu input `c` at time `now` changes the session: `L` empties the
/// three caches and drops the point payload; `U` empties the forecast cache;
/// `O` with a stale station cache drops the point payload (it is fetched
/// again); every other input leaves the session as it was.
pub open spec fn session_next(before: Session, after: Session, c: char, now: int) -> bool {
    match menu_choice_of(c) {
        MenuChoice::Location => {
            &&& cleared(before.forecast, after.forecast)
            &&& cleared(before.alerts, after.alerts)
            &&& cleared(before.stations, after.stations)
            &&& after.point@ == Seq::<u8>::empty()
            &&& after.unit == before.unit
            &&& after.place == before.place
            &&& after.point_url == before.point_url
        },
        MenuChoice::Units => {
            &&& cleared(before.forecast, after.forecast)
            &&& after.alerts == before.alerts
            &&& after.stations == before.stations
            &&& after.point == before.point
            &&& after.unit == before.unit
            &&& after.place == before.place
            &&& after.point_url == before.point_url
        },
        MenuChoice::Observations => if stale(before.stations, now) {
            &&& after.forecast == before.forecast
            &&& after.alerts == before.alerts
            &&& after.stations == before.stations
            &&& after.point@ == Seq::<u8>::empty()
            &&& after.unit == before.unit
            &&& after.place == before.place
            &&& after.point_url == before.point_url
        } else {
            after == before
        },
        _ => after == before,
    }
}

/// `after` is `before` filled again by `Cache::set`: its count matches its
/// items, its age limit and offset are kept, and its birth is a clock reading.
pub open spec fn refilled<T>(before: Cache<T>, after: Cache<T>) -> bool {
    &&& after.well_formed()
    &&& after.age_limit_nanos() == before.age_limit_nanos()
    &&& after.offset() == before.offset()
    &&& -MAX_CLOCK_NANOS <= after.birth_nanos() <= MAX_CLOCK_NANOS
}

/// Everything but the forecast cache is unchanged.
pub open spec fn same_but_forecast(b: Session, a: Session) -> bool {
    &&& a.alerts == b.alerts
    &&& a.stations == b.stations
    &&& a.unit == b.unit
    &&& a.place == b.place
    &&& a.point == b.point
    &&& a.point_url == b.point_url
}

/// Everything but the alert cache is unchanged.
pub open spec fn same_but_alerts(b: Session, a: Session) -> bool {
    &&& a.forecast == b.forecast
    &&& a.stations == b.stations
    &&& a.unit == b.unit
    &&& a.place == b.place
    &&& a.point == b.point
    &&& a.point_url == b.point_url
}

/// Everything but the station cache is unchanged.
pub open spec fn same_but_stations(b: Session, a: Session) -> bool {
    &&& a.forecast == b.forecast
    &&& a.alerts == b.alerts
    &&& a.unit == b.unit
    &&& a.place == b.place
    &&& a.point == b.point
    &&& a.point_url == b.point_url
}

/// Everything but the place's county code is unchanged.
pub open spec fn same_but_county(b: Session, a: Session) -> bool {
    &&& a.forecast == b.forecast
    &&& a.alerts == b.alerts
    &&& a.stations == b.stations
    &&& a.unit == b.unit
    &&& a.place.is_valid == b.place.is_valid
    &&& a.place.lat == b.place.lat
    &&& a.place.lon == b.place.lon
    &&& a.point == b.point
    &&& a.point_url == b.point_url
}

/// The warning shown above the menu while the place is not valid.
pub open spec fn invalid_place_warning() -> Seq<char> {
    "WARNING : Location is not valid, attampting to get weather will fail catastrophically!!!\n"@
}

/// The main menu.
pub open spec fn menu_text() -> Seq<char> {
    "Please select an option\n[A]lerts\n[F]orecast\n[L]ocaton\n[O]bservations\n[Q]uit\n[U]nits\n[]> "@
}

/// What is shown before each menu input: the warning while the place is not
/// valid, then the menu.
pub open spec fn prompt(s: Session) -> Seq<char> {
    (if s.place.is_valid {
        Seq::empty()
    } else {
        invalid_place_warning()
    }) + menu_text()
}

/// After a new ZIP code is asked for, the next forecast, alert and station
/// requests fetch afresh, whenever they come.
pub proof fn law_new_place_fetches_again(before: Session, after: Session, now: int, later: int)
    requires
        session_next(before, after, 'L', now),
    ensures
        stale(after.forecast, later),
        stale(after.alerts, later),
        stale(after.stations, later),
        session_action(after, 'A', later) == ActionView::FetchAlerts(ALERTURL@ + after.place.county@),
        session_action(after, 'O', later) == ActionView::FetchStations(after.point_url@),
        session_action(after, 'F', later) != ActionView::ShowForecast,
{
}

/// After the unit system is asked for, the next forecast request fetches
/// afresh, whenever it comes.
pub proof fn law_new_unit_fetches_forecast(before: Session, after: Session, now: int, later: int)
    requires
        session_next(before, after, 'U', now),
    ensures
        stale(after.forecast, later),
        session_action(after, 'F', later) != ActionView::ShowForecast,
{
}

/// While the alert cache keeps its `ALERT_MINUTES` limit, `A` (or `a`)
/// fetches the active alerts of the place's county exactly when the cache is
/// empty or at least five minutes have passed since it was filled, and shows
/// the alerts held otherwise.
pub proof fn law_alerts_fetched_after_five_minutes(s: Session, now: int)
    requires
        s.alerts.age_limit_nanos() == ALERT_MINUTES * NANOS_PER_MINUTE,
    ensures
        ({
            let expected = if s.alerts.recorded_length() < 1 || now >= s.alerts.birth_nanos()
                + 5 * 60_000_000_000 {
                ActionView::FetchAlerts(ALERTURL@ + s.place.county@)
            } else {
                ActionView::ShowAlerts
            };
            session_action(s, 'A', now) == expected && session_action(s, 'a', now) == expected
        }),
{
}

/// No menu input changes how long the three caches stay fresh.
pub proof fn law_steps_keep_age_limits(before: Session, after: Session, c: char, now: int)
    requires
        session_next(before, after, c, now),
    ensures
        after.forecast.age_limit_nanos() == before.forecast.age_limit_nanos(),
        after.alerts.age_limit_nanos() == before.alerts.age_limit_nanos(),
        after.stations.age_limit_nanos() == before.stations.age_limit_nanos(),
{
}

impl Session {
    /// The session for a place just looked up: empty caches that stay fresh
    /// for `FORECAST_MINUTES`, `ALERT_MINUTES` and `STATION_MINUTES`, the unit
    /// system `us`, no point payload yet, and the place's point address.
    pub fn new(place: Pos) -> (s: Session)
        ensures
            s.forecast.items().len() == 0,
            s.forecast.recorded_length() == 0,
            s.forecast.age_limit_nanos() == FORECAST_MINUTES * NANOS_PER_MINUTE,
            s.alerts.items().len() == 0,
            s.alerts.recorded_length() == 0,
            s.alerts.age_limit_nanos() == ALERT_MINUTES * NANOS_PER_MINUTE,
            s.stations.items().len() == 0,
            s.stations.recorded_length() == 0,
            s.stations.age_limit_nanos() == STATION_MINUTES * NANOS_PER_MINUTE,
            s.unit@ == "us"@,
            s.place == place,
            s.point@ == Seq::<u8>::empty(),
            s.point_url@ == point_address(place),
    {
        let url = points_url(&place);
        Session {
            forecast: Cache::new(FORECAST_MINUTES),
            alerts: Cache::new(ALERT_MINUTES),
            stations: Cache::new(STATION_MINUTES),
            unit: string_from_chars(&str_chars("us")),
            place,
            point: Vec::new(),
            point_url: url,
        }
    }

    /// Runs the main menu for the character `c` at time `now` (nanoseconds
    /// from the Unix epoch): see `session_action` and `session_next`.
    pub fn step(&mut self, c: char, now: i128) -> (a: WeatherAction)
        ensures
            a@ == session_action(*old(self), c, now as int),
            session_next(*old(self), *final(self), c, now as int),
    {
        match menu_choice(c) {
            MenuChoice::Forecast => {
                if self.forecast.needs_refresh_at(now) {
                    match try_get_option(1, &self.point) {
                        None => WeatherAction::Unreadable,
                        Some(link) => WeatherAction::FetchForecast {
                            url: forecast_url(link.as_str(), self.unit.as_str()),
                        },
                    }
                } else {
                    WeatherAction::ShowForecast
                }
            },
            MenuChoice::Alerts => {
                if self.alerts.needs_refresh_at(now) {
                    WeatherAction::FetchAlerts {
                        url: crate::location::alerts_url(self.place.county.as_str()),
                    }
                } else {
                    WeatherAction::ShowAlerts
                }
            },
            MenuChoice::Location => {
                self.forecast.clear();
                self.alerts.clear();
                self.stations.clear();
                self.point.clear();
                WeatherAction::AskZip
            },
            MenuChoice::Observations => {
                if self.stations.needs_refresh_at(now) {
                    self.point.clear();
                    WeatherAction::FetchStations { url: self.point_url.clone() }
                } else {
                    WeatherAction::ShowStations
                }
            },
            MenuChoice::Units => {
                self.forecast.clear();
                WeatherAction::AskUnit
            },
            MenuChoice::Quit => WeatherAction::Quit,
            MenuChoice::Nothing => WeatherAction::Nothing,
        }
    }

    /// Runs the main menu for the character `c`, judged by the system clock.
    pub fn step_by_clock(&mut self, c: char) -> (a: WeatherAction)
        ensures
            exists|now: int|
                -MAX_CLOCK_NANOS <= now <= MAX_CLOCK_NANOS && a@ == #[trigger] session_action(
                    *old(self),
                    c,
                    now,
                ) && session_next(*old(self), *final(self), c, now),
    {
        let now = crate::cache::clock_nanos();
        self.step(c, now)
    }

    /// What is shown before each menu input (see `prompt`).
    pub fn prompt_text(&self) -> (r: String)
        ensures
            r@ == prompt(*self),
    {
        let mut out: Vec<char> = Vec::new();
        if !self.place.is_valid {
            push_str_chars(
                &mut out,
                "WARNING : Location is not valid, attampting to get weather will fail catastrophically!!!\n",
            );
        }
        push_str_chars(
            &mut out,
            "Please select an option\n[A]lerts\n[F]orecast\n[L]ocaton\n[O]bservations\n[Q]uit\n[U]nits\n[]> ",
        );
        assert(out@ =~= prompt(*self));
        string_from_chars(&out)
    }

    /// Moves the session to a newly looked-up place and its point address.
    pub fn relocate(&mut self, place: Pos)
        ensures
            final(self).place == place,
            final(self).point_url@ == point_address(place),
            final(self).forecast == old(self).forecast,
            final(self).alerts == old(self).alerts,
            final(self).stations == old(self).stations,
            final(self).unit == old(self).unit,
            final(self).point == old(self).point,
    {
        self.point_url = points_url(&place);
        self.place = place;
    }

    /// Keeps a fetched point payload.
    pub fn set_point(&mut self, payload: Vec<u8>)
        ensures
            final(self).point@ == payload@,
            final(self).forecast == old(self).forecast,
            final(self).alerts == old(self).alerts,
            final(self).stations == old(self).stations,
            final(self).unit == old(self).unit,
            final(self).place == old(self).place,
            final(self).point_url == old(self).point_url,
    {
        self.point = payload;
    }

    /// Reads the county code of the place from the point payload, and gives
    /// the location text of the payload; None (with the session unchanged)
    /// when the county code cannot be read.
    pub fn read_point(&mut self) -> (r: Option<String>)
        ensures
            match county_code(old(self).point@) {
                None => r is None && *final(self) == *old(self),
                Some(code) => r matches Some(t) && t@ == local_text(old(self).point@)
                    && final(self).place.county@ == code && same_but_county(*old(self), *final(self)),
            },
    {
        match try_find_county(&self.point) {
            None => None,
            Some(code) => {
                self.place.county = code;
                Some(printlocal_text(&self.point))
            },
        }
    }

    /// The line shown after a new place was read: `county : ` and the county.
    pub fn county_line(&self) -> (r: String)
        ensures
            r@ == "county : "@ + self.place.county@ + "\n"@,
    {
        let mut out: Vec<char> = Vec::new();
        push_str_chars(&mut out, "county : ");
        push_str_chars(&mut out, self.place.county.as_str());
        push_str_chars(&mut out, "\n");
        assert(out@ =~= "county : "@ + self.place.county@ + "\n"@);
        string_from_chars(&out)
    }

    /// Sets the unit system from the unit menu input and gives the
    /// confirmation text (see `unit_selection_of`).
    pub fn choose_unit(&mut self, input: &str) -> (r: String)
        ensures
            final(self).unit@ == unit_selection_of(input@, old(self).unit@).0,
            r@ == unit_selection_of(input@, old(self).unit@).1,
            final(self).forecast == old(self).forecast,
            final(self).alerts == old(self).alerts,
            final(self).stations == old(self).stations,
            final(self).place == old(self).place,
            final(self).point == old(self).point,
            final(self).point_url == old(self).point_url,
    {
        let (unit, text) = unit_selection(input, self.unit.as_str());
        self.unit = unit;
        text
    }

    /// Fills the forecast cache from a fetched forecast payload and gives the
    /// error lines for a short payload (see `forecast_warning`); None (with
    /// the session unchanged) when the payload cannot be read.
    pub fn forecast_arrived(&mut self, payload: &Vec<u8>) -> (r: Option<String>)
        ensures
            match forecast_parse(payload@) {
                None => r is None && *final(self) == *old(self),
                Some(views) => r matches Some(t) && t@ == forecast_warning(payload@)
                    && forecast_views(final(self).forecast.items()) == views
                    && refilled(old(self).forecast, final(self).forecast)
                    && same_but_forecast(*old(self), *final(self)),
            },
    {
        let text = forecast_warning_text(payload);
        match try_parse_forcast(payload) {
            None => None,
            Some(v) => {
                self.forecast.set(v);
                Some(text)
            },
        }
    }

    /// Fills the alert cache from a fetched alert payload; false (with the
    /// session unchanged) when the payload cannot be read.
    pub fn alerts_arrived(&mut self, payload: &Vec<u8>) -> (r: bool)
        ensures
            match alert_parse(payload@) {
                None => !r && *final(self) == *old(self),
                Some(views) => r && alert_views(final(self).alerts.items()) == views
                    && refilled(old(self).alerts, final(self).alerts)
                    && same_but_alerts(*old(self), *final(self)),
            },
    {
        match try_parse_alerts(payload) {
            None => false,
            Some(v) => {
                self.alerts.set(v);
                true
            },
        }
    }

    /// The station list link of the point payload, searched from its middle.
    pub fn stations_link(&self) -> (r: Option<String>)
        ensures
            match stations_link(self.point@, (self.point@.len() / 2) as int) {
                None => r is None,
                Some(t) => r matches Some(s) && s@ == t,
            },
    {
        try_station_list_url(&self.point, self.point.len() / 2)
    }

    /// Fills the station cache from a fetched station list payload; false
    /// (with the session unchanged) when the payload cannot be read.
    pub fn stations_arrived(&mut self, payload: &Vec<u8>) -> (r: bool)
        ensures
            match station_parse(payload@) {
                None => !r && *final(self) == *old(self),
                Some(views) => r && station_views(final(self).stations.items()) == views
                    && refilled(old(self).stations, final(self).stations)
                    && same_but_stations(*old(self), *final(self)),
            },
    {
        match try_parse_observation_stations(payload) {
            None => false,
            Some(v) => {
                self.stations.set(v);
                true
            },
        }
    }
}

} // verus!
