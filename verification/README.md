# cronframe

Cron jobs defined on functions and on the methods of objects, run by a
scheduler that honours each job's daily timeout, with a web interface and a
command-line tool.

- `src/` is the library, verified with Verus: text utilities (`text`), job and
  run identifiers (`ids`), cron expressions as the `cron` crate reads them
  (`schedule`), URL escaping of expressions (`escape`), jobs (`cronjob`),
  expressions held field by field (`cronframe_expr`), configuration
  (`config`), job descriptions (`job_builder`), the framework's state and the
  scheduler's decisions (`cronframe`), the rolling log plan (`logger`), what the
  command-line tool computes (`cli`), and laws of the scheduler and of the
  daily timeout (`laws`).
- `app/` is the runtime around it: threads and channels of the scheduler,
  the rocket web server and its templates, log files, reading
  `cronframe.toml`, and the command-line tool.
- `tests/` exercises the library.

Times are milliseconds since the Unix epoch, in UTC.
