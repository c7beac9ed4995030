//! Cross-language FFI infrastructure: C-compatible struct layout computation,
//! error codes that cross FFI boundaries, opaque handle tables, C header
//! generation, wasm32 pointer and type helpers, and owned or borrowed buffers
//! that are handed across an FFI boundary.

pub mod layout;
pub mod text;
pub mod error;
pub mod handle;
pub mod header_gen;
pub mod header_laws;
pub mod wasm32_types;
pub mod zero_copy;
pub mod cvec;
pub mod cstring;
pub mod callback;

pub use callback::CallbackTrampoline;
pub use cstring::SafeCString;
pub use cvec::CVec;
pub use error::{ErrorCode, FfiError, FfiResult};
pub use handle::{HandleTable, OpaqueHandle};
pub use header_gen::HeaderGenerator;
pub use layout::{align_to, compute_padding, FieldLayout, StructLayout};
pub use wasm32_types::WasmPtr;
pub use zero_copy::ZeroCopySlice;
