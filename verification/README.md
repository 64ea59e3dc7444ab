# mpeix

Backend of the mpeix schedule app of MPEI: a schedule service that reads the university's
schedules, caches them and searches them, and two chat bots (Telegram and VK) that answer
questions about a chosen schedule.

The decisions of all three live in the library under `src/`, written in Verus with their
contracts proved:

- `calendar`, `text`, `pattern`: dates and times, strings, regular expressions;
- `models`, `names`, `mapping`: schedules, validated names and queries, and the mapping of
  the university's answers into schedules;
- `cache`, `cooldown`, `shift`: the in-memory cache, the cooldown after server errors, the
  exceptions to the numbering of study weeks and the week of the semester;
- `service`: ranking of search results and the steps of serving a schedule and a search;
- `bot`, `renderer`: what a message asks for, how the bot answers, and the answer's text;
- `errors`, `api`, `api_macro`, `telegram`, `vk`: errors and status codes, the HTTP requests
  to prepare, the messengers' models and what the bots do with an update or a callback.

The in-memory cache is a verified least-recently-used cache over a `Vec` rather than a
wrapper of the `lru` crate: the cache is generic over its keys and values, and what a
generic outside collection holds cannot be given a name that the contracts could speak of,
so its order of use and its evictions are modelled and proved here instead. Dates, on the
other hand, are computed by `chrono`, whose answers the contracts state in terms of the
proleptic Gregorian calendar.

`app/` runs the services (HTTP server, HTTP client, database, files, clock); `tests/` holds
the tests.
