# Webland

A Wayland desktop that lives in a browser tab. A compositor runs the applications,
captures their windows and streams them over one WebSocket; the page draws the
windows, decorates and arranges them, and sends the input back.

The logic is a verified library: the functions in `src/` carry contracts that Verus
proves, and the public proof functions state what holds across functions (that
decoding undoes encoding, that frames in flight are bounded, that damage rebuilds
the picture).

Believed rather than proved are the contracts of the few functions that call out of
the library, each of which says what it claims of the function it calls: bincode's
serialization of numbers and texts (`src/protocol/wire.rs`), miniz_oxide's deflate
and inflate (`src/protocol/deflate.rs`), png's encoder (`src/server/tray.rs`),
xcursor's parser (`src/compositor/cursors.rs`), and the standard library's
`String::push` and changes of letter case (`src/text.rs`).

## Layout

- `src/geometry.rs`, `src/text.rs`: sizes, points and rectangles; the text
  operations everything else is stated with.
- `src/protocol/`: the messages, their wire form, and the deflate codec.
- `src/compositor/`: the desktop state and what one pass of the compositor does
  with it: input, focus, popups, frame pacing, damage, streaming, the clipboard,
  cursors, and the environment of what is launched.
- `src/server/`: frame pacing per browser, the system tray, the session's audio
  sink.
- `src/apps/`: the launcher's listing, out of `.desktop` files, icons and launch
  overrides.
- `src/browser/`: the page's decisions: keyboard, pointer, shortcuts, clipboard,
  window chrome, task switching, canvas and video decoding.
- `tests/`: what the library does on concrete values.
- `app/`: the program around it. The server's half speaks Wayland (smithay),
  WebSocket (tokio-tungstenite) and D-Bus (zbus), and starts processes; `app/page`
  is the half that runs in the browser.

Positions and scroll distances are floating-point numbers, which the library
carries by their bits and `app/` computes with.

## Running

`WEBLAND_WS=127.0.0.1:9001 WEBLAND_HEADLESS=1 webland` serves the desktop to a
browser; without `WEBLAND_HEADLESS` it also opens in a window. `WEBLAND_SIZE`,
`WEBLAND_BITRATE`, `WEBLAND_RENDER_NODE`, `WEBLAND_LAYOUT`, `WEBLAND_VARIANT` and
`WEBLAND_SPAWN` configure it. `webland measure 10` connects to a running server and
reports what the stream costs.

`$XDG_CONFIG_HOME/webland/launch.conf` replaces an application's launch command, one
`Name = command` per line.

H.264 needs FFmpeg's libraries and a build with `--cfg ffmpeg`; without them every
frame is deflated. The page's video decoder needs `--cfg web_sys_unstable_apis`.
