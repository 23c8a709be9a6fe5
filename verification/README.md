# aiueos

The semantic core of aiueos, verified with Verus: component manifests read
strictly from EDN, manifest signatures checked with ed25519, artifact
hashing, and the in-process topic bus.

- `src/edn.rs`: EDN values as plain data; map lookup; keyword collections,
  sorted and without repeats.
- `src/manifest.rs`: `Kind`, `Trust`, `Limits`, `Manifest::from_edn`, whose
  contract gives the exact schema error of every invalid manifest.
- `src/signing.rs`: hex decoding and `verify`, against the results of
  `ed25519-dalek`.
- `src/runtime.rs`: `sha256_hex` over `sha2`, and `strip_shebang`.
- `src/topic.rs`: `TopicBus` and the laws of publishing.
- `src/error.rs`, `src/policy.rs`, `src/text.rs`: errors and their
  rendering, violations and the signer registry (a map from signer id to
  hex key, ids unique), string helpers.
- `app/`: reading EDN text and files (through the kotoba reader) and
  compiling CLJ/Kotoba source (through the kotoba compiler).

`run_wasm` stands in `app/`: it hands the module to the host ABI and a wasm
engine, neither of which is here.
