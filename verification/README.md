# mamacine

The decisions and the words of Mamá Cine, a desktop app that finds films and seasons, downloads
them through a private nzbget, and keeps her shelf in order, written as a Verus library whose
contracts say what each function answers.

- `src/` is the verified library:
  - `text` — every sentence the app says, in Spanish and in English;
  - `words`, `json`, `paths`, `std_calls` — numbers, text, the values the settings window sends,
    paths, and the few standard-library calls whose results the proofs speak of;
  - `settings_file` — the stored settings, what the window sends applied to them, migrations,
    locales, and what the rest of the app is handed;
  - `library` — the records of her downloads, newest first, burned copies, ghosts released,
    records put back together with the disk, copies swapped;
  - `orchestrator`, `chase`, `starting`, `progress`, `finishing` — which copy is tried next, what
    a dead copy leads to, how a copy starts, what the window and the tray are told, which files
    in a folder are videos and subtitles, and what the subtitles came to;
  - `checks`, `messages`, `log`, `supervisor`, `updater`, `desktop_entry`, `disk` — the settings
    check report, failures in her words, the log's bookkeeping and dates, the downloader's output
    and start, the update plan and digests, the menu entry, and disk room.
- `tests/` runs the library on concrete values.
- `app/` is a command-line face for it: files, the environment and the operating system.
