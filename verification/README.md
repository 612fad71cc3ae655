# sc2_replay_utils

Analysis library for StarCraft II replays, written in Verus: the
functions under `src/` carry contracts that Verus proves, except a few
trusted wrappers around outside calls (parsing an MPQ archive's index and
reading a member through `s2protocol`, called only on archives whose
layout a verified check has found safe to read, `String::push`, `String::from_utf8_lossy`, `str::to_lowercase`,
`std::str::from_utf8` and `Path::join`), whose contracts are assumed and
say so in their doc comments.

- `replay` — the replay data the analyses read (players, entity events,
  stats, upgrades, camera samples).
- `map_image` — minimap TGA decoding, content cropping, the `MapInfo`
  parser, start locations of the `Objects` file, and cache-handle
  decoding for the Battle.net cache.
- `production_efficiency` — worker, army and Zerg larva production models
  and the bucketed time-weighted sweep behind the efficiency chart.
- `loss_analysis` — losses, kills and their grouping into engagements.
- `timeline` — structure-attention of the camera.
- `insights`, `charts`, `tabs`, `units`, `playback`, `settings`, `watch` —
  the computations and state behind the views: timings, turning point,
  severities, sample lookups, parallel production tracks, unit names and
  sprites, display names, playback controls.
- `series`, `sorting`, `text` — loop-ordered lookups, the stable sort and
  string helpers shared by the above.

`app/` holds the parts that touch the outside world: the file system
(map folders, Battle.net cache, reading archive files), the replay-folder
watcher (`notify`) and the floating-point conversions
(loops per second, efficiency percentages, start-location coordinates).
