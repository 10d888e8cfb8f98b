# workplaces

Monitor profiles for the Hyprland compositor. A daemon follows the
wlr output-management protocol to learn which monitors are attached, picks
the first configured profile whose screens are all attached, and lays its
screens out as a tree of relative positions; a monitor that is detached
leaves the published configuration. Applying a profile hands back its
layout drawing and its `skripts`, which the daemon runs in order. A client asks the daemon for
the attached monitors, the profiles, the current profile, the monitors'
input sources (over DDC/CI), or to apply a profile by name.

Layout:

- `src/` — the verified library:
  - `monitor.rs`: monitor and mode descriptions and their builders;
  - `output_state.rs`: the state machine that turns protocol events into
    monitor descriptions, with its laws;
  - `configuration.rs`: profiles, screen matching, the layout tree and its
    laws;
  - `position_tree.rs`: the `id_tree` calls that the layout tree makes;
  - `input_source.rs`: input-source codes;
  - `daemon.rs`: the daemon's decisions and replies;
  - `keyed.rs`, `text.rs`: lists sorted by string key, and string order.
- `app/` — sockets, files, the Wayland event loop and DDC access.
- `tests/` — tests of the library.
