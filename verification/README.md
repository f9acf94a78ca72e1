# Wallpapy

A personalised wallpaper generator: a language model writes prompts in a
style the user chooses, an image service paints them, and the user's ratings
and comments steer what comes next. The server also serves the latest, a
favourite, or a picture suited to the time of day, for desktop extensions
that change the wallpaper.

## Layout

- `src/` is the verified library (Verus). It holds the records and the
  rules: accounts, passwords and session tokens; comment, rating, storage
  and removal of wallpapers; which picture each endpoint serves; the history
  and instructions sent to the language model and how its answer is read;
  the decoding, scaling, AVIF encoding and brightness measure of a picture; the generation events; and the
  client's requests, reply handling and screen decisions. Laws that relate
  several operations are public proof functions beside the code they speak
  of.
- `tests/` runs the library on concrete values.
- `app/` is the program around it: the HTTP server (axum), the RON record
  files, the calls to the language model and the image service, picture
  encoding that takes an `f32` quality or filter, and the HTTP client
  sender. The graphical clients (the egui desktop client and the Dioxus web
  front end) are not part of it: those crates are not available here. What
  their screens decide stands in the library.
