# radio

A terminal internet-radio player. The decisions it makes are a verified
library (`src/`, checked by Verus); the terminal, audio output, HTTP stream
and database live in the program under `app/`.

- `text`: decimal printing and `usize` parsing, string comparison.
- `station`: stations and the station list (lookup by title, by index, at random).
- `meta`: stream metadata and how newly arrived metadata is merged in.
- `icy`: the ICY demultiplexer that separates audio from metadata blocks and
  extracts song titles.
- `stream`: reading the stream's response headers, prefetch size.
- `player`: the player state and its reaction to keys, metadata and play results.
- `history`: which play-history row to record.
- `stats`: the decoder statistics counter.
