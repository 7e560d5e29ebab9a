# ai_news_pusher

The logic of a news service that collects items from RSS feeds and web
pages, summarises and assesses them with AI providers (OpenAI, MoonShot,
Gemini), keeps sources, news, tasks and settings in a local database, and
pushes news to mail, Telegram and (reserved) WeChat, QQ and Feishu channels
on a schedule.

Layout:

- `src/` — the library, verified with Verus:
  - `text`, `keyed`, `json`: characters and strings, keyed lists read as
    maps, JSON values and the framing of JSON text;
  - `engine::collector`: reading feeds and pages;
  - `engine::ai_provider`: request bodies, replies, the provider registry
    and the retry discipline of a chat;
  - `engine::processor`: prompts and the reading of summary and assessment
    replies;
  - `engine::scheduler`: which messages are due when, the jobs of each,
    and cron schedules;
  - `engine::storage`: records, their rows, and the settings as stored
    entries;
  - `adapters`: what each push channel sends and how its answer is read;
  - `commands`: the requests of the front end.
- `app/` — the program around it: HTTP, SMTP, SQLite, logging, the async
  runtime and the serde forms of the records.
- `tests/` — tests of the library against `std`, `serde_json`, `regex` and
  `cron`.
