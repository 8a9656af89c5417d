# bookmark

A bookmark manager: a web application that lists bookmarks by category, tag
and keyword, lets an administrator add, edit, delete and import them, and
hands API tokens to administrators for a browser extension.

## Layout

- `src/` — the library, verified with Verus: text handling, language
  detection, the decisions behind every page and form, the authentication
  gate, password hashing and token bookkeeping, the listing query and the
  write plans of the bookmark store, and the category list of an import.
  Calls into outside crates (argon2, chrono, chrono-tz, humantime, regex,
  urlencoding, fluent-templates, sqlx's query builder, `std::path`) go
  through small trusted wrappers whose contracts are documented where they
  are declared.
- `tests/` — tests of the library on concrete values.
- `app/` — the server: configuration, database access, sessions, templates,
  JWT signing, image conversion and the HTTP router, all calling the library
  for their decisions.

## Running

The server reads `DATABASE_URL`, `APP_HOST`, `APP_PORT`,
`APP_STATIC_DIRECTORY`, `APP_UPLOAD_DIRECTORY`, `APP_IMAGE_QUALITY` and
`APP_SECURE_COOKIES` from the environment, and translated messages from
Fluent files under `./locales`.
