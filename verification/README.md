# uvm_core

Unity editor versions (`2019.3.0f1`), verified with Verus.

- `src/version_type.rs` — release types `Alpha < Beta < Patch < Final`, their letters and names.
- `src/version.rs` — `Version`, its constructors and getters, its order (with the laws
  that make it a total order), its text and its semantic-version forms.
- `src/pattern.rs` — reading a version out of a text: the leftmost occurrence of
  `D.D.DxD` (numbers of one to four digits, `x` one of `f p b a`), with the laws that
  the occurrence is unique and that the text of a version reads back as that version.
- `src/semantic.rs` — semantic versions and their precedence.
- `src/requirement.rs` — semantic-version requirements, through the `semver` crate.
- `src/fetch.rs` — choosing the newest version that a requirement admits.
- `src/hub.rs` — installations and the editors that the Unity Hub lists, with their bundle paths.
- `src/module.rs` — the parts of the Android SDK/NDK module for an editor version.
- `src/text.rs` — digits, decimal notation and the characters of a text.
- `app/lib.rs` — `Display`, `FromStr`, serde, `semver` and `std::io`/`std::path` glue.
