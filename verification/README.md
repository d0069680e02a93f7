# fwaifu

A terminal anime-girl viewer: it shows a random SFW/NSFW picture from
[Nekos.moe](https://nekos.moe) beside fastfetch's system information, keeps a
local stock of pictures that a background daemon refills, and can crop,
save and clear pictures.

## Layout

- `src/` — the library, verified with Verus. Every decision of the program
  lives here with its contract:
  - `config` — defaults, configuration file, `FWAIFU_PROXY` and command line,
    with their order of priority;
  - `cache` — which files of the stock and used directories count, which is
    picked, where a shown picture goes, which old ones are deleted;
  - `cycle`, `refill`, `daemon`, `update`, `downloader` (retries) — state
    machines that say what to do next given what the last action gave;
  - `runner`, `image` — fastfetch, chafa and ImageMagick arguments, and the
    side-by-side layout of a picture and fastfetch's text;
  - `setting` — the settings menu and its edits of the TOML document;
  - `i18n`, `api`, `auth`, `commands`, `paths`, `text` — translations, API
    requests, tokens and password entry, command-line rules, paths and text.
- `app/` — the program around the library: command-line parsing, files,
  processes, the network and the terminal.
- `tests/` — tests of the library.

Configuration: `~/.config/fwaifu/config.toml`. Priority: command line >
`FWAIFU_PROXY` > configuration file > built-in defaults.
