# wpc

A wallpaper changer for GNOME and Windows. It changes the wallpaper at a
chosen interval from a local directory, from a wallhaven.cc collection or
from a subreddit, can follow the wallpaper's brightness with a dark or light
desktop theme, can pick wallpapers by the hour from a dynamic configuration,
and can run a command after every change.

## Layout

- `src/` is the library, verified with Verus: argument handling, the file
  filters, the brightness score, the grayscale conversion of a picture's
  pixels (done by the `image` crate, with its result stated exactly), the
  dynamic-wallpaper configuration and its
  selection, the theme decision, the startup entries (systemd unit, Windows
  registry command, autostart entry), the wide paths for the Windows API, the
  web addresses of wallhaven.cc, Reddit and Bing, the decoding of their JSON
  replies (by `serde_json`) and the choice of links from them, the decisions of the main loop (when to reload, change,
  rest and refresh), and the character-level string operations these rest on.
  Each public function states its result in its contract; where the result
  rests on a clock reading or a random draw, the contract states what holds
  for every reading or draw, and a function that takes that value as an
  argument states the result exactly. The laws of the library are proof
  functions beside the code they speak of.
- `app/` is the program around it: the command line, the loop itself with its
  sleeps, the file system, the directory watcher, downloads, picture decoding, GNOME settings and the
  Windows API and registry.
- `tests/` runs the library on concrete values.
