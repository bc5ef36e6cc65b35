# voxora

A speech-to-text bridge: model sources (the Hugging Face Hub cache, a
directory on disk, a chain of both) and engines (MiniMax in the cloud,
Qwen3-ASR locally) behind one vocabulary of options, results and errors.

- `src/` is the library, verified with Verus: every decision the bridge
  makes — request validation, cache layout, download planning and
  the order of a resolve (the `.complete` marker last), the retry policy, shard
  lists, integrity checks, quantization and capability heuristics, the
  security checks of the disk source, the fallback of a chain, the
  MiniMax request and error rules, the WAV container, the Qwen3-ASR
  option rules and the `tokenizer.json` it synthesises — with contracts
  over mathematical models. `serde_json`, `sha2` and `secrecy` are
  called from the library through wrappers whose contracts are trusted.
- `app/` performs the I/O around it: HTTP (reqwest, ureq), the file
  system, environment variables, and the `qwen3-asr` inference engine.
- `tests/` exercises the library on concrete values.
