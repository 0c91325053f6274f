# obn_core

Core of an open broadcast network node, verified with Verus: MP4 parsing
and fragmentation for Media Source Extensions, segment formats, buffering,
quality adaptation, stream announcements and peer moderation.

- `src/` is the verified library. Each public function states its result
  in `requires`/`ensures` over spec functions and views; laws relating
  several functions are public proof functions named `lemma_*`.
  - `bytes_be`, `text`, `clock`, `crypto`: big-endian bytes, text building,
    the system clock, hashing, random bytes and signatures.
  - `media`: MP4 boxes and sample tables (`mp4_parser`, `sample_table`,
    `mp4_codec`), fragment building (`fmp4_converter`), top-level box
    reading and segment writing (`fragment_parser`, `fragment_writer`),
    segment and wire formats (`segment`, `stream_chunk`, `wire_format`),
    the samples and segments of the file readers (`video_reader`,
    `ffmpeg_reader`), buffering, quality, sources, sinks, and the codecs
    (`codec`: PCM conversion for Opus, frame checks and the decoder for
    OpenH264).
  - `discovery`: stream announcements and the announcement cache; peer
    records and events; the peers the bootstrap and hash-table services
    learn (`peer_cache`, `bootstrap`, `dht`) and the manager's view of them
    (`manager`); conversions of peer identifiers and multiaddresses.
  - `moderation`: blocked and whitelisted peers, flagged streams, and the
    lists nodes share.
- `app/` holds what Verus does not see: serialization (serde, bincode,
  JSON), files and processes, the libp2p swarms and async tasks of the
  discovery services, async locking, the Opus encoder and decoder, and what
  runs in floating point (the bandwidth figure, YUV to RGB).
- `tests/` runs the library on concrete values.
