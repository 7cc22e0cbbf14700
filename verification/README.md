# play-cnnee

A terminal player for CNN English Express audio files. Tracks whose names
agree once the leading track number is removed ("01 Cinema Update.mp3",
"02 Cinema Update.mp3") are listed as one entry and played one after another.

- `src/` is the verified library:
  - `names`: splitting the leading number off a file name;
  - `files`: file entries and their grouping into list entries;
  - `scan`: which directory entries are listed and in what order;
  - `player`: playback bookkeeping (mode, position, pause and resume);
  - `app`: selection, navigation and the step taken on each tick;
  - `nav`: moving up and naming directories below the root;
  - `text`, `keys`: status-line text and key bindings.
- `app/` holds the program around it: the terminal UI (ratatui, crossterm),
  reading directories, and the audio output (rodio, symphonia).
- `tests/` runs the library on concrete inputs.
