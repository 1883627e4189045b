# pnwfrc_live

Picks the stream link that `pnwfrc.live` redirects a viewer to: the stream of the day of an
event that is under way (`/<event>`, `/<event>/alt`) or of a given day, counted from 1
(`/<event>/<day>`, `/<event>/<day>/alt`).

- `src/` is the library, verified with Verus: the schedule (`schedule.rs`), the lookups
  (`data.rs`), the route answers (`routes.rs`), text comparison (`text.rs`) and the reading of
  the Los Angeles clock (`clock.rs`).
- `app/` is the Rocket web server around it, run on AWS Lambda when it is there.
- `tests/` exercises the library.

The schedule is a table of the library's own (`schedule::all_streams`), looked up by verified
searches over keys that are proved distinct. It is a plain table rather than a compile-time hash
map so that its contents are values the proofs can read.

Before an event's first day has begun, it has no current stream, and the routes answer "not
found"; from the first day on, its current stream is that of the last day that has begun, and
after its last day, the last day's stream.
