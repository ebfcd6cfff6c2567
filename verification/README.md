# local_inference

The decisions of an in-process llama.cpp engine, verified with Verus: how large a
window a request gets, which part of a prompt is already in a cache, what is stored
of a prompt for the next cold start, and what may be taken from disk, from memory or
from a drafter without changing a single token of the answer.

The library never touches the engine. What it needs done it asks for as an action,
and what came of it it takes as an event, so that every claim holds for every answer
an engine, a disk or a clock can give.

- `src/window.rs`, `src/settings.rs`: windows, memory estimates, samplers
- `src/token.rs`, `src/fnv.rs`, `src/ladder.rs`, `src/key.rs`, `src/paths.rs`,
  `src/text.rs`: prefixes, hashes and names
- `src/index.rs`, `src/slot.rs`: stored snapshots, and what every prompt of a shape
  shares
- `src/session.rs`, `src/media.rs`: what a retained cache offers a prompt
- `src/decode.rs`, `src/prefill.rs`, `src/multimodal.rs`, `src/prepare.rs`,
  `src/generation.rs`, `src/mtp.rs`, `src/stops.rs`: the machines that fill a cache
  and generate from it
- `src/cache.rs`, `src/media_cache.rs`: a model of what the engine's caches hold, and
  the laws that every run keeps
- `app/`: the engine and the disk behind the machines
