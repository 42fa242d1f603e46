# check_in_zw_v3

A client that checks in to the ZW forum every day at a configured hour.

- `src/` is the verified library: the configuration model (`config`), the choice
  of log level (`log`), moving the hour of a cron expression from local time to
  UTC (`cron`, with the string helpers in `text`), the b2_token cookie lookup
  (`b2_token_by_headless_chrome`, `b2_token`) and the check-in state machine
  (`sign`). The clock is read through `clock`.
- `app/` is the program around it: reading the configuration file, installing
  the log subscriber, driving the browser, sending the HTTP requests, and the
  cron scheduler.
- `tests/` exercises the library on concrete values.
