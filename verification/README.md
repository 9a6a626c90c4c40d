# beni

The logic of beni — a typed Rust wrapper over the mruby C API — as a
Verus-verified library. What the wrapper decides around mruby's own calls
stands in `src/` with its contract; the calls into mruby themselves need the
linked `libmruby.a` and its bindings, and are not part of this crate.

* `src/width.rs` — the configured integer and float widths read from the
  build metadata, and the saturating conversions into the integer width.
* `src/error.rs`, `src/parse.rs` — `Error` and `ParseMessage`, the shapes a
  failure is reported in, and their renderings.
* `src/class.rs`, `src/method.rs` — `MethodDef` and the argument spec a
  registered method carries; what a registered method's crossing raises or
  returns; how a class definition resolves a bound name.
* `src/scan_args.rs` — checking a call's positionals against a declared
  shape and parting them; taking a keyword bucket apart by name.
* `src/state/root.rs` — the free list behind releasable GC roots.
* `src/state/user_data.rs` — the embedder's one user-data slot.
* `src/state/carrier.rs` — the segments of a constant path.
* `src/state/load.rs` — the structural checks on a bytecode blob.
* `src/proc.rs`, `src/range.rs`, `src/string.rs`, `src/value.rs`,
  `src/hash.rs`, `src/array.rs`, `src/try_convert.rs` — what each handle
  decides around mruby's calls, and the messages mruby's mismatches carry.
* `app/lib.rs` — reading the width metadata from the build environment,
  the panic boundary, and the `Display` renderings.
