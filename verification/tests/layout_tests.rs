use lau_ffi_bindings::layout::StructLayoutBuilder;
use lau_ffi_bindings::{align_to, compute_padding};

#[test]
fn test_align_to() {
    assert_eq!(align_to(0, 4), 0);
    assert_eq!(align_to(1, 4), 4);
    assert_eq!(align_to(4, 4), 4);
    assert_eq!(align_to(5, 8), 8);
    assert_eq!(align_to(8, 8), 8);
}

#[test]
fn test_compute_padding() {
    assert_eq!(compute_padding(0, 4), 0);
    assert_eq!(compute_padding(1, 4), 3);
    assert_eq!(compute_padding(5, 8), 3);
}

#[test]
fn test_struct_layout_matches_rust() {
    // The C layout of `struct { uint8_t a; uint32_t b; uint16_t c; }` is
    // 12 bytes with alignment 4.
    let mut builder = StructLayoutBuilder::new("TestStruct");
    builder.add_field("a", "u8", std::mem::size_of::<u8>(), std::mem::align_of::<u8>());
    builder.add_field("b", "u32", std::mem::size_of::<u32>(), std::mem::align_of::<u32>());
    builder.add_field("c", "u16", std::mem::size_of::<u16>(), std::mem::align_of::<u16>());
    let layout = builder.build();

    assert_eq!(layout.fields[0].offset, 0);
    assert_eq!(layout.fields[1].offset, 4);
    assert_eq!(layout.fields[2].offset, 8);
    assert_eq!(layout.total_size, 12);
    assert_eq!(layout.alignment, 4);
}

#[test]
fn test_struct_layout_size() {
    let mut builder = StructLayoutBuilder::new("TestStruct");
    builder.add_field("a", "u8", 1, 1);
    builder.add_field("b", "u32", 4, 4);
    builder.add_field("c", "u16", 2, 2);
    assert_eq!(builder.build().total_size, 12);
}

#[test]
fn test_empty_struct_layout() {
    let layout = StructLayoutBuilder::new("Empty").build();
    assert_eq!(layout.total_size, 0);
    assert_eq!(layout.fields.len(), 0);
    assert!(layout.padding == 0);
}

#[test]
fn test_layout_all_basic_types() {
    assert_eq!(std::mem::size_of::<u8>(), 1);
    assert_eq!(std::mem::size_of::<u16>(), 2);
    assert_eq!(std::mem::size_of::<u32>(), 4);
    assert_eq!(std::mem::size_of::<u64>(), 8);
    assert_eq!(std::mem::size_of::<f32>(), 4);
    assert_eq!(std::mem::size_of::<f64>(), 8);
}

#[test]
fn align_to_zero_alignment_keeps_offset() {
    assert_eq!(align_to(7, 0), 7);
    assert_eq!(compute_padding(7, 0), 0);
}

#[test]
fn align_to_one_keeps_offset() {
    assert_eq!(align_to(13, 1), 13);
    assert_eq!(compute_padding(13, 1), 0);
}

#[test]
fn align_to_is_idempotent() {
    let once = align_to(17, 16);
    assert_eq!(once, 32);
    assert_eq!(align_to(once, 16), once);
}

#[test]
fn align_to_non_power_of_two_uses_the_mask_rule() {
    // (5 + 2) & !2 == 5 and (6 + 2) & !2 == 8
    assert_eq!(align_to(5, 3), 5);
    assert_eq!(align_to(6, 3), 8);
}

#[test]
fn layout_fields_do_not_overlap_and_are_aligned() {
    let mut builder = StructLayoutBuilder::new("Particle");
    builder.add_field("x", "f64", 8, 8);
    builder.add_field("y", "f64", 8, 8);
    builder.add_field("mass", "f32", 4, 4);
    builder.add_field("active", "bool", 1, 1);
    let layout = builder.build();
    assert_eq!(layout.fields[0].offset, 0);
    assert_eq!(layout.fields[1].offset, 8);
    assert_eq!(layout.fields[2].offset, 16);
    assert_eq!(layout.fields[3].offset, 20);
    for i in 0..layout.fields.len() {
        let f = &layout.fields[i];
        assert_eq!(f.offset % f.alignment, 0);
        if i + 1 < layout.fields.len() {
            assert!(f.offset + f.size <= layout.fields[i + 1].offset);
        }
    }
    assert_eq!(layout.total_size, 24);
    assert_eq!(layout.alignment, 8);
    assert_eq!(layout.padding, 3);
    assert_eq!(layout.total_size % layout.alignment, 0);
}

#[test]
fn layout_keeps_names_and_types() {
    let mut builder = StructLayoutBuilder::new("Point");
    builder.add_field("x", "int32_t", 4, 4);
    let layout = builder.build();
    assert_eq!(layout.name, "Point");
    assert_eq!(layout.fields[0].name, "x");
    assert_eq!(layout.fields[0].field_type, "int32_t");
    assert_eq!(layout.fields[0].size, 4);
    assert_eq!(layout.fields[0].alignment, 4);
}

#[test]
fn layout_padding_counts_inner_and_trailing_padding() {
    let mut builder = StructLayoutBuilder::new("Mixed");
    builder.add_field("flag", "uint8_t", 1, 1);
    builder.add_field("value", "uint64_t", 8, 8);
    builder.add_field("tag", "uint8_t", 1, 1);
    let layout = builder.build();
    assert_eq!(layout.fields[1].offset, 8);
    assert_eq!(layout.fields[2].offset, 16);
    assert_eq!(layout.total_size, 24);
    assert_eq!(layout.padding, 14);
}
