# IronTrack

Flight management and aerial survey planning: Copernicus DEM terrain,
GeoPackage output, autopilot exports (QGroundControl, DJI), flight-line
ordering, and a daemon that serves telemetry to cockpit clients.

## Layout

- `src/` — the library, written in Verus and proved against its
  contracts: DEM tile naming, cache layout and tile decoding, GeoPackage
  geometry blobs and schema SQL, reading KML boundary polygons, the datum rules and WPML
  documents of the exports, nearest-neighbour and 2-opt route ordering,
  NMEA 0183 sentence handling, authentication and CORS decisions, the
  daemon's mission state, the RTK degradation debounce, and the handling
  of the planning assistant's replies. Floating-point values travel
  through the library as IEEE-754 bit patterns and are only compared.
- `tests/` — tests of the library on concrete values.
- `app/` — the `irontrack` program around the library: the command line,
  file and network I/O, the HTTP/WebSocket daemon, the serial link, and
  the floating-point geodesy, terrain interpolation and energy models.

Flight-line generation (area, corridor and LiDAR plans) is not part of
this crate: there is no `plan` command, and the daemon has no route that
creates a mission, so its mission endpoints report that none is loaded.

Verify with Verus; run the tests and the program with Cargo.
