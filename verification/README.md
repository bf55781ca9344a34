# rwt

A terminal weather client for weather.gov: it looks up a ZIP code in a local
table, asks the weather service for the point, and shows forecasts, alerts and
station observations.

The library (`src/`) holds everything the client decides and computes, each
function with a contract proved by Verus:

- `cache` – a list with a fill time and an age limit (when to fetch again);
- `scan` – reading fields out of byte payloads (up to a stop byte, at fixed
  offsets from a tag);
- `location` – the ZIP table lookup, the county code, the forecast links and
  the location summary of a point payload, and the service addresses;
- `forecast`, `alerts`, `observations` – the payload scans, the texts the
  displays print, and the station menu;
- `menu` – the main menu and the unit menu;
- `session` – the main loop's decisions: for each menu letter, what to fetch
  (and from where) or show, and which caches a new place or unit empties;
- `text` – characters, trimming, decimal numbers.

`app/` is the program around it: terminal input and output, the HTTP calls
(through `curl`), and the data file. It runs the loop, performs the action
that `Session::step_by_clock` returns and hands the fetched payloads back to
the session.
