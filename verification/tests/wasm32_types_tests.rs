use lau_ffi_bindings::wasm32_types::{
    WasmFunctionExport, WasmMemoryImport, WasmType, WASM32_MAX_MEMORY, WASM32_PAGE_SIZE,
    WASM32_POINTER_SIZE,
};
use lau_ffi_bindings::WasmPtr;

#[test]
fn test_wasm_ptr_null() {
    assert!(WasmPtr::null().is_null());
    assert!(WasmPtr::new(0).is_null());
    assert!(!WasmPtr::new(1).is_null());
}

#[test]
fn test_wasm_ptr_offset() {
    let p = WasmPtr::new(100);
    assert_eq!(p.offset(10).addr(), 110);
}

#[test]
fn test_wasm_ptr_align_up() {
    let p = WasmPtr::new(5);
    assert_eq!(p.align_up(4).addr(), 8);
    assert_eq!(p.align_up(1).addr(), 5);
}

#[test]
fn test_wasm_type_sizes() {
    assert_eq!(WasmType::I32.size(), 4);
    assert_eq!(WasmType::I64.size(), 8);
    assert_eq!(WasmType::F32.size(), 4);
    assert_eq!(WasmType::F64.size(), 8);
    assert_eq!(WasmType::Ptr.size(), 4);
}

#[test]
fn test_wasm32_constants() {
    assert_eq!(WASM32_POINTER_SIZE, 4);
    assert_eq!(WASM32_PAGE_SIZE, 65536);
    assert_eq!(WASM32_MAX_MEMORY, 4 * 1024 * 1024 * 1024);
}

#[test]
fn test_wasm_function_export() {
    let exp = WasmFunctionExport {
        name: "add".to_string(),
        params: vec![WasmType::I32, WasmType::I32],
        results: vec![WasmType::I32],
    };
    assert_eq!(exp.params.len(), 2);
    assert_eq!(exp.results.len(), 1);
}

#[test]
fn test_wasm_memory_import() {
    let imp = WasmMemoryImport {
        module_name: "env".to_string(),
        field_name: "memory".to_string(),
        initial_pages: 1,
        maximum_pages: Some(10),
        shared: false,
    };
    assert_eq!(imp.initial_pages, 1);
}

#[test]
fn reference_types_are_pointer_sized() {
    assert_eq!(WasmType::ExternRef.size(), 4);
    assert_eq!(WasmType::FuncRef.size(), 4);
    assert_eq!(WasmType::I64.alignment(), 8);
    assert_eq!(WasmType::FuncRef.alignment(), 4);
}

#[test]
fn align_up_of_aligned_pointer_is_unchanged() {
    assert_eq!(WasmPtr::new(64).align_up(16).addr(), 64);
    assert_eq!(WasmPtr::new(65).align_up(16).addr(), 80);
    assert_eq!(WasmPtr::new(0).align_up(8).addr(), 0);
}

#[test]
fn wasm_ptrs_compare_by_address() {
    assert!(WasmPtr::new(1) < WasmPtr::new(2));
    assert_eq!(WasmPtr::new(3), WasmPtr::new(3));
}
