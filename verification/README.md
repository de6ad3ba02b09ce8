# digreg_api

Client-side logic for the Digitales Register (`digitalesregister.it`) school
platform, verified with Verus.

- `src/` is the verified library: the routes' request and response models,
  the checks every response goes through (logout detection, status codes),
  the flattening of the timetable's nested wire shape, grade strings, the
  school's URLs and the decisions around creating a school, logging in and
  the reminder mutations.
- `app/` is the networked side: HTTP requests and cookies (`reqwest`), JSON
  (`serde`), the asynchronous `Session` API, and the models that hold
  floating-point numbers or time-zone-aware timestamps.
- `tests/` exercises the library on concrete values.
