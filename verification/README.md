# class_bot

A Telegram bot that keeps a timetable of university classes for a group
chat: moderators register classes with a short Persian command, the bot
lists them, turns their announcements on and off, and announces each class
in its topic thread a few minutes before it starts.

- `src/` is the verified library: weekday names (`date_time_helpers`),
  times and dates as plain values with the calls into chrono (`clock`), the
  class record and its texts (`class_model`), the command filters
  (`filters`), command parsing and replies (`handlers`), the announcement
  rule (`reminder`), the Persian date service's data (`persian_date`) and
  character-level text helpers (`text`).
- `app/` is the bot itself: Telegram dispatch, the PostgreSQL queries, the
  HTTP date service, logging and the reminder loop. It reads messages and
  rows, hands plain values to the library and sends what the library
  answers.
- `tests/` runs the library on concrete inputs.
