//! WebAssembly (wasm32) pointer and value-type helpers.

use vstd::prelude::*;

use crate::layout::{is_power_of_two, lemma_pow2_low_mask};

verus! {

/// Pointer size for wasm32 targets (32-bit, 4 bytes).
pub const WASM32_POINTER_SIZE: usize = 4;

/// Memory page size for WebAssembly (64KB).
pub const WASM32_PAGE_SIZE: usize = 65536;

/// Maximum memory addressable in wasm32 (4GB linear memory); a `u64`, since
/// the value does not fit a 32-bit `usize`.
pub const WASM32_MAX_MEMORY: u64 = 4294967296;

/// A 32-bit pointer type for wasm32 targets.
#[derive(Debug, Clone, Copy, PartialEq, Eq, Structural, PartialOrd, Ord, Hash)]
pub struct WasmPtr(u32);

impl View for WasmPtr {
    type V = u32;

    closed spec fn view(&self) -> u32 {
        self.0
    }
}

/// Rounding `addr` up with the rule `(addr + align - 1) & !(align - 1)`.
pub open spec fn wasm_align_up_spec(addr: u32, align: u32) -> u32 {
    ((addr + align - 1) as u32) & !((align - 1) as u32)
}

proof fn lemma_u32_mask(y: u32, m: u32)
    ensures
        y & !m <= y,
        y - (y & !m) <= m,
        y & !m == y - (y & m),
        (y & m) as u64 == (y as u64) & (m as u64),
{
    assert(y & !m <= y && y - (y & !m) <= m && y & !m == y - (y & m)) by (bit_vector);
    assert((y & m) as u64 == (y as u64) & (m as u64)) by (bit_vector);
}

impl WasmPtr {
    /// Null pointer.
    pub fn null() -> (r: Self)
        ensures
            r@ == 0,
    {
        WasmPtr(0)
    }

    /// Create a new WasmPtr from a u32 address.
    pub fn new(addr: u32) -> (r: Self)
        ensures
            r@ == addr,
    {
        WasmPtr(addr)
    }

    /// Get the raw address.
    pub fn addr(&self) -> (r: u32)
        ensures
            r == self@,
    {
        self.0
    }

    /// Check if this is a null pointer.
    pub fn is_null(&self) -> (r: bool)
        ensures
            r == (self@ == 0),
    {
        self.0 == 0
    }

    /// Offset this pointer by `n` bytes.
    pub fn offset(&self, n: u32) -> (r: Self)
        requires
            self@ + n <= u32::MAX,
        ensures
            r@ == self@ + n,
    {
        WasmPtr(self.0 + n)
    }

    /// Align up to the given alignment.
    pub fn align_up(&self, align: u32) -> (r: Self)
        requires
            align >= 1,
            self@ + align <= u32::MAX,
        ensures
            r@ == wasm_align_up_spec(self@, align),
            self@ <= r@ < self@ + align,
            is_power_of_two(align as int) ==> r@ % align == 0,
    {
        proof {
            let y = (self.0 + align - 1) as u32;
            let m = (align - 1) as u32;
            lemma_u32_mask(y, m);
            if is_power_of_two(align as int) {
                lemma_pow2_low_mask(y as u64, align as u64);
            }
        }
        WasmPtr((self.0 + align - 1) & !(align - 1))
    }
}

/// Types mapping for wasm32 targets.
#[derive(Debug, Clone, Copy, PartialEq, Eq, Structural)]
pub enum WasmType {
    I32,
    I64,
    F32,
    F64,
    /// wasm32 pointer (i32)
    Ptr,
    /// Reference type (externref)
    ExternRef,
    /// Reference type (funcref)
    FuncRef,
}

/// Size in bytes of each wasm type: 8 for the 64-bit number types and 4 for
/// every other.
pub open spec fn wasm_type_size(t: WasmType) -> usize {
    match t {
        WasmType::I64 | WasmType::F64 => 8,
        WasmType::ExternRef | WasmType::FuncRef => WASM32_POINTER_SIZE,
        _ => 4,
    }
}

impl WasmType {
    /// Size in bytes of each wasm type.
    pub fn size(&self) -> (r: usize)
        ensures
            r == wasm_type_size(*self),
    {
        match self {
            WasmType::I32 | WasmType::F32 | WasmType::Ptr => 4,
            WasmType::I64 | WasmType::F64 => 8,
            WasmType::ExternRef | WasmType::FuncRef => WASM32_POINTER_SIZE,
        }
    }

    /// Alignment in bytes.
    pub fn alignment(&self) -> (r: usize)
        ensures
            r == wasm_type_size(*self),
    {
        self.size()
    }
}

/// wasm32 memory import descriptor.
#[derive(Debug, Clone)]
pub struct WasmMemoryImport {
    pub module_name: String,
    pub field_name: String,
    pub initial_pages: u32,
    pub maximum_pages: Option<u32>,
    pub shared: bool,
}

/// wasm32 function export descriptor.
#[derive(Debug, Clone)]
pub struct WasmFunctionExport {
    pub name: String,
    pub params: Vec<WasmType>,
    pub results: Vec<WasmType>,
}

} // verus!
