# tablero

A status bar for Wayland compositors with one bar per output: workspaces, titles,
a clock, battery, network, volume, notifications, a tray with menus, power
profiles, and more.

The library in `src/` decides; `app/` performs. Everything the bars show, every
command a click asks for, every reading of a bus, a file or a sensor that is
turned into something to show is computed by a function of the library, and what
each of them computes is stated in its contract and proved by Verus. The program
in `app/` talks to the compositor, the buses, PipeWire and the file system, hands
the library plain values, and does what it answers.

## The library

| Module | What it decides |
| --- | --- |
| `config` | the configuration: colors, styles, zones, per-output overrides, validation, the widgets of a bar |
| `config_reload` | when an edit of the configuration has settled and counts |
| `outputs`, `surface`, `bars`, `shell`, `input` | the bars by output, their frames and buffers, popups, clicks and scrolling |
| `face`, `row`, `template` | what each widget shows of the news, where it stands, what a click on it asks for, what is painted anew |
| `popup`, `pointer`, `fixed`, `scale` | menus and tooltips, scroll steps, coordinates |
| `redraw`, `performance` | when a bar is painted, and how long it took |
| `render` | blending glyphs, caching strings and icons, the frame |
| `blit`, `icon` | pixel layouts, the built-in icons |
| `message`, `widget`, `sources` | the news, the commands, and which sources are needed |
| `upower`, `networkmanager`, `notifications`, `hypridle`, `power_profiles` | what readings of the system mean |
| `tray`, `sni` | tray items, their icons and menus, the watcher |
| `volume` | which output is the active one, and how loud it is |
| `command` | programs that a click starts |
| `text`, `order`, `table`, `indexed`, `number`, `time`, `probe` | what the others are made of |

Each module ends, or each type, with the laws that hold of it: public proof
functions whose comments state them in words.

Floating point stays outside: font shaping, outlines and the loudness of channels
are computed in `app/`, and the library takes the resulting pixels, coverage and
percentages.
