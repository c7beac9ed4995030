# lau_ffi_bindings

FFI building blocks with machine-checked contracts (Verus):

- `src/layout.rs` — alignment rounding, padding and a struct layout builder that
  places fields as a C compiler does; laws on non-overlap, field alignment,
  struct alignment and size.
- `src/header_gen.rs` — C header generation; the output text is specified
  exactly, and every added line is shown to occur in it.
- `src/error.rs` — FFI error codes, their numbers and descriptions, `FfiError`.
- `src/handle.rs` — opaque handles, an ID generator and a handle table whose IDs
  are never reused while the counter lasts.
- `src/wasm32_types.rs`, `src/cvec.rs`, `src/zero_copy.rs`, `src/cstring.rs`,
  `src/callback.rs` — wasm32 pointers and types, owned and borrowed buffers,
  NUL-free C strings, boxed callback closures.
- `src/text.rs` — decimal rendering used by the header and error texts.

`app/` holds what deals in raw pointers, `CString`, process-wide handle IDs and
serde: it wraps the library and is not verified.
