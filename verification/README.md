# jianying_jiejin

Two small tools built on one verified library:

- **Jianying drafts**: parse copy (plain text or SRT) into captions, plan a
  timeline over local clips (trims, round-robin cutting, speed changes to
  match the narration, cover scaling), and build Jianying 5.9 plaintext
  draft documents (`draft_content.json`, `draft_meta_info.json`).
- **Lockup-expiry watch**: page through the Eastmoney data center's
  lockup-expiry report, read events and holders, rank them, and lay out an
  Obsidian-style Markdown index; a small control page takes fetch requests.

Layout:

- `src/` is the library, written in Verus. Each public function states its
  result in `ensures` over spec functions; the laws of the library (date
  arithmetic and parsing round trips, the shape of the timeline plans, the
  caption lines, the pool never reusing material) are public proof
  functions.
- `app/` is the command line and everything around the library that does
  I/O: reading files, running `ffprobe`, HTTP with `reqwest` and
  `tiny_http`, JSON with `serde_json`, and formatting `f64` amounts.
- `tests/` runs the library on concrete inputs.
