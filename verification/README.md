# knot

A house-events manager for a school: people, events, who supervised and who took
part, photos, bonus points and rewards, with role-based permissions.

- `src/` is the library, written in Verus: permissions, signing in and setting
  passwords, image formats, grouping people on the event pages, rewards, CSV import
  and export, the spreadsheet, the calendar file, the values every page is
  rendered with and the rendering itself, e-mail texts, and the decisions the
  background workers take. Each public function states what it
  returns in its contract, and the properties that span functions (a role allows
  at least what any lower role allows, exported people import again, a stored hash
  accepts its password, ...) are proof functions.
- `tests/` runs the library on concrete values.
- `app/` is the web server around the library: routes, the database, sessions,
  reading page templates, stored files, and the workers' loops.
