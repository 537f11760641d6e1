# FrameSW Companion

A plugin for OBS Studio that reports real audio levels for sources that are
only in Preview, taps and mixes monitor audio over NDI, offers small video
feeds of Preview and Program, and answers a set of obs-websocket vendor
requests for things obs-websocket cannot do, or cannot do safely.

`src/` is a Verus library: what the plugin decides, with its contracts.
`app/` is the plugin around it: the entry points OBS calls, the symbols of
libobs and NDI, threads, files and shared memory, and floating-point
arithmetic. `tests/` runs the library on concrete values.

## How the library is laid out

| module | what it holds |
| --- | --- |
| `plan` | plans: lists of calls into OBS with what is needed before, between and after them |
| `text`, `named` | texts, comma lists, maps by name |
| `response` | the fields of an answer or an event |
| `metering`, `obs_data`, `role_tap` | levels, the Program bus, scans, the taps on scenes |
| `audio_tap`, `audio_mix`, `ndi` | monitor taps, mixes and their senders |
| `shm_ring` | the shared-memory ring: layout, stamp, writing a frame |
| `feed`, `video_frames`, `video_tap`, `feed_request` | video feeds: what runs, how it is hooked in and taken down, its frames |
| `input_probe`, `probe_table` | the mic check |
| `stream_probe` | the window of samples of the stream output |
| `group`, `scenes`, `showing`, `monitoring`, `profile`, `config`, `warm` | the other requests |
| `vendor`, `platform` | the vendor's requests by name; what differs by system |

## Plans

Work that goes through libobs cannot be done by the library itself: it is a
list of operations, a `Plan`. An operation asks the host for a call, needs
something that is known beforehand, or requires that an earlier call was
answered with yes. The host carries the plan out one call at a time. For each
plan a proof says, for every way the host may answer, what stops it and which
calls are made or how they balance. So it says what becomes of the references
a plan takes: they are given back, but for the one it is there to obtain.

## License

GPL-2.0-or-later.
