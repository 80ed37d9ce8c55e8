# jobsearch

A job search tool that gathers postings from Upwork, NoFluffJobs,
eFinancialCareers, LinkedIn, Wellfound, Reddit and Hacker News, stores them,
and lets the user list, rate and apply to them.

This crate is its core, written in Verus: every function in `src/` carries a
contract, and Verus proves each body against it.

## Layout

- `src/` — the verified library.
  - `text`, `pattern`, `urls`, `html`, `clock`: text handling, and the calls
    into `regex`, `url`, `html2text`, `urlencoding` and `chrono`, each behind
    a small wrapper. Where a few lines can say what the call returns (the
    percent-encoding of `urlencoding`, the time range of `chrono`), the
    contract says it; where the rules take pages (HTML rendering, regular
    expressions, URL parsing), the contract gives the result a name and
    ties it to every argument, and what the library does with it is proved.
  - `budget`, `extractors`: budget strings ("$50-$100/hr", "7 069 – 9 426
    EUR") read into amounts, currency and period.
  - `models`, `classify`, `server`, `store`: jobs, filters, sorting and
    paging.
  - `upwork`, `nofluff`, `efinancialcareers`, `linkedin`, `description`,
    `wellfound`, `reddit`, `hackernews`, `fields`: per-platform URL handling
    and the jobs built from what a platform returns.
  - `fetch_state`, `display`, `messages`, `cli`, `config`, `region`:
    progress counting, terminal output, the command line and the settings.
- `tests/` — tests on concrete values, run against the compiled library.
- `app/` — the `jobsearch` program: argument parsing with clap, the settings
  file with serde and toml, and the parts that work on floating-point
  numbers (fit probabilities, rank fusion, byte sizes).

Laws that relate several functions (a region name reads back as its region,
filtering twice filters once, a canonical Upwork id stays canonical, gathered
Hacker News comments never exceed the limit, …) are stated as public proof
functions next to the functions they speak of.
