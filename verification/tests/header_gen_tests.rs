use lau_ffi_bindings::layout::StructLayoutBuilder;
use lau_ffi_bindings::HeaderGenerator;

#[test]
fn test_basic_header_generation() {
    let mut gen = HeaderGenerator::new();
    gen.add_include("stdint.h");
    gen.add_typedef("int32_t", "my_int");
    let content = gen.generate("TEST_H");
    assert!(content.contains("#include <stdint.h>"));
    assert!(content.contains("typedef int32_t my_int;"));
    assert!(content.contains("#ifndef TEST_H"));
    assert!(content.contains("#endif"));
    assert!(content.contains("extern \"C\""));
}

#[test]
fn test_struct_header_generation() {
    let mut builder = StructLayoutBuilder::new("Point");
    builder.add_field("x", "int32_t", 4, 4);
    builder.add_field("y", "int32_t", 4, 4);
    let layout = builder.build();

    let mut gen = HeaderGenerator::new();
    gen.add_include("stdint.h");
    gen.add_struct(&layout);
    let content = gen.generate("POINT_H");

    assert!(content.contains("struct Point {"));
    assert!(content.contains("int32_t x;"));
    assert!(content.contains("int32_t y;"));
    assert!(content.contains("_Static_assert"));
}

#[test]
fn test_function_declaration() {
    let mut gen = HeaderGenerator::new();
    gen.add_function("int32_t", "add", &[
        ("int32_t".to_string(), "a".to_string()),
        ("int32_t".to_string(), "b".to_string()),
    ]);
    let content = gen.generate("FUNC_H");
    assert!(content.contains("int32_t add(int32_t a, int32_t b);"));
}

#[test]
fn test_void_params() {
    let mut gen = HeaderGenerator::new();
    gen.add_function("void", "init", &[]);
    let content = gen.generate("INIT_H");
    assert!(content.contains("void init(void);"));
}

#[test]
fn test_forward_declaration() {
    let mut gen = HeaderGenerator::new();
    gen.add_forward_declaration("Agent");
    let content = gen.generate("AGENT_H");
    assert!(content.contains("struct Agent;"));
}

#[test]
fn empty_header_is_exact() {
    let gen = HeaderGenerator::new();
    let content = gen.generate("E_H");
    assert_eq!(
        content,
        "#ifndef E_H\n#define E_H\n\n#ifdef __cplusplus\nextern \"C\" {\n#endif\n\n#ifdef __cplusplus\n}\n#endif\n\n#endif /* E_H */\n"
    );
}

#[test]
fn full_header_is_exact() {
    let mut builder = StructLayoutBuilder::new("Point");
    builder.add_field("x", "int32_t", 4, 4);
    builder.add_field("flag", "uint8_t", 1, 1);
    let layout = builder.build();

    let mut gen = HeaderGenerator::default();
    gen.add_include("stdint.h");
    gen.add_typedef("int32_t", "AgentId");
    gen.add_forward_declaration("Agent");
    gen.add_struct(&layout);
    gen.add_function("void", "agent_init", &[("AgentId".to_string(), "id".to_string())]);
    let content = gen.generate("AGENT_H");
    let expected = "#ifndef AGENT_H\n#define AGENT_H\n\n\
#include <stdint.h>\n\n\
#ifdef __cplusplus\nextern \"C\" {\n#endif\n\n\
typedef int32_t AgentId;\n\n\
struct Agent;\n\n\
struct Point {\n    int32_t x;\n    uint8_t flag;\n};\n\
_Static_assert(sizeof(struct Point) == 8, \"size mismatch\");\n\
_Static_assert(_Alignof(struct Point) == 4, \"alignment mismatch\");\n\n\
void agent_init(AgentId id);\n\n\
#ifdef __cplusplus\n}\n#endif\n\n\
#endif /* AGENT_H */\n";
    assert_eq!(content, expected);
}

#[test]
fn struct_sizes_render_in_decimal() {
    let mut builder = StructLayoutBuilder::new("Big");
    builder.add_field("data", "uint8_t", 1234, 1);
    builder.add_field("tail", "uint64_t", 8, 8);
    let layout = builder.build();
    let mut gen = HeaderGenerator::new();
    gen.add_struct(&layout);
    let content = gen.generate("BIG_H");
    assert!(content.contains("_Static_assert(sizeof(struct Big) == 1248, \"size mismatch\");"));
    assert!(content.contains("_Static_assert(_Alignof(struct Big) == 8, \"alignment mismatch\");"));
}

#[test]
fn items_keep_their_order() {
    let mut gen = HeaderGenerator::new();
    gen.add_include("a.h");
    gen.add_include("b.h");
    let content = gen.generate("O_H");
    let a = content.find("#include <a.h>").unwrap();
    let b = content.find("#include <b.h>").unwrap();
    assert!(a < b);
}
