use plugin_bridge::bridge::{
    extract_type_block, forwarding_call, generate_bridge, parameter_names, render_header,
    render_source, BridgeError,
};
use plugin_bridge::signature::{
    extract_signatures, find_malformed_exports, parse_parameters, FunctionSignature,
};

const INTERFACE_LINES: [&str; 19] = [
    "#pragma once",
    "",
    "#include <cstdint>",
    "",
    "namespace Rust {",
    "",
    "struct Params {",
    "  float gain;",
    "};",
    "",
    "extern \"C\" {",
    "",
    "EXPORT float compute_gain(float input, int channel);",
    "",
    "EXPORT void reset_state(void);",
    "",
    "} // extern \"C\"",
    "",
    "} // namespace Rust",
];

fn interface() -> String {
    INTERFACE_LINES.join("\n") + "\n"
}

fn sig(ret: &str, name: &str, params: &[&str]) -> FunctionSignature {
    FunctionSignature {
        return_type: ret.to_string(),
        name: name.to_string(),
        parameters: params.iter().map(|p| p.to_string()).collect(),
    }
}

#[test]
fn extracts_each_export_line() {
    let sigs = extract_signatures(&interface());
    assert_eq!(sigs.len(), 2);
    assert_eq!(sigs[0].return_type, "float");
    assert_eq!(sigs[0].name, "compute_gain");
    assert_eq!(sigs[0].parameters, vec!["float input", "int channel"]);
    assert_eq!(sigs[1].return_type, "void");
    assert_eq!(sigs[1].name, "reset_state");
    assert_eq!(sigs[1].parameters, vec!["void"]);
}

#[test]
fn parameter_count_is_commas_plus_one() {
    let sigs = extract_signatures("EXPORT int f(int a,  int   b , const char *c);\n");
    assert_eq!(sigs.len(), 1);
    assert_eq!(sigs[0].parameters, vec!["int a", "int b", "const char *c"]);
    let sigs = extract_signatures("EXPORT int g( );\n");
    assert_eq!(sigs.len(), 1);
    assert!(sigs[0].parameters.is_empty());
}

#[test]
fn pointer_and_qualified_return_types() {
    let sigs = extract_signatures("  EXPORT const   char *get_name(void);\r\nEXPORT uint8_t * buf(size_t n);\n");
    assert_eq!(sigs.len(), 2);
    assert_eq!(sigs[0].return_type, "const char *");
    assert_eq!(sigs[0].name, "get_name");
    assert_eq!(sigs[1].return_type, "uint8_t *");
    assert_eq!(sigs[1].name, "buf");
    assert_eq!(sigs[1].parameters, vec!["size_t n"]);
}

#[test]
fn lines_that_are_not_exports_are_skipped() {
    let text = "// EXPORT void commented(void)\nEXPORT void two(int a)(int b);\nEXPORT f(int a);\nvoid plain(int a);\nEXPORT void kept(int a);\n";
    let sigs = extract_signatures(text);
    assert_eq!(sigs.len(), 1);
    assert_eq!(sigs[0].name, "kept");
}

#[test]
fn declarations_follow_input_order() {
    let text = "namespace Rust {\nstruct A {};\nextern \"C\" {\nEXPORT int zeta(int a);\nEXPORT int alpha(int b);\nEXPORT int mid(int c);\n";
    let files = generate_bridge(text).ok().unwrap();
    let z = files.header.find("int zeta(int a);").unwrap();
    let a = files.header.find("int alpha(int b);").unwrap();
    let m = files.header.find("int mid(int c);").unwrap();
    assert!(z < a && a < m);
    let z = files.source.find("int zeta(int a) {").unwrap();
    let a = files.source.find("int alpha(int b) {").unwrap();
    let m = files.source.find("int mid(int c) {").unwrap();
    assert!(z < a && a < m);
}

#[test]
fn regeneration_is_byte_identical() {
    let first = generate_bridge(&interface()).ok().unwrap();
    let second = generate_bridge(&interface()).ok().unwrap();
    assert_eq!(first.header, second.header);
    assert_eq!(first.source, second.source);
}

#[test]
fn compute_gain_example() {
    let files = generate_bridge(&interface()).ok().unwrap();
    assert!(files.header.contains("    float compute_gain(float input, int channel);\n"));
    assert!(files
        .source
        .contains("    typedef float (*compute_gain_t)(float input, int channel);\n"));
    assert!(files.source.contains("    float compute_gain(float input, int channel) {\n"));
    assert!(files.source.contains("        auto rust = Rust::loadRustDll();\n"));
    assert!(files
        .source
        .contains("        auto fn = (compute_gain_t)rust->findFunction(\"compute_gain\");\n"));
    assert!(files.source.contains("        return fn(input, channel);\n"));
}

#[test]
fn void_call_discards_result() {
    let sigs = vec![sig("void", "reset_state", &["void"])];
    let source = render_source(&sigs);
    assert!(source.contains("    typedef void (*reset_state_t)(void);\n"));
    assert!(source.contains("        fn();\n"));
    assert!(!source.contains("return fn"));
}

#[test]
fn missing_namespace_aborts() {
    let text = "extern \"C\" {\nEXPORT void reset_state(void);\n}\n";
    assert!(matches!(generate_bridge(text), Err(BridgeError::MissingNamespace)));
    assert!(extract_type_block(text).is_none());
}

#[test]
fn empty_type_block_aborts() {
    let text = "namespace Rust {\nextern \"C\" {\nEXPORT void reset_state(void);\n";
    assert!(matches!(generate_bridge(text), Err(BridgeError::EmptyTypeBlock)));
}

#[test]
fn no_exports_aborts() {
    let text = "namespace Rust {\nstruct A {};\nextern \"C\" {\n}\n";
    assert!(matches!(generate_bridge(text), Err(BridgeError::NoExports)));
}

#[test]
fn duplicate_name_aborts() {
    let text = "namespace Rust {\nstruct A {};\nextern \"C\" {\nEXPORT int f(int a);\nEXPORT void g(void);\nEXPORT float f(float b);\n";
    match generate_bridge(text) {
        Err(BridgeError::DuplicateName(n)) => assert_eq!(n, "f"),
        _ => panic!("expected a duplicate name"),
    }
}

#[test]
fn call_forwards_names_only() {
    let params = parse_parameters("float input, int channel");
    assert_eq!(params, vec!["float input", "int channel"]);
    assert_eq!(parameter_names(&params), vec!["input", "channel"]);
    assert_eq!(forwarding_call(&params), "fn(input, channel)");
    let params = parse_parameters("const char *name,int   *out");
    assert_eq!(forwarding_call(&params), "fn(name, out)");
    assert_eq!(forwarding_call(&parse_parameters("void")), "fn()");
    assert!(parse_parameters("  ").is_empty());
}

#[test]
fn absent_symbol_fails_explicitly() {
    let files = generate_bridge(&interface()).ok().unwrap();
    assert!(files.source.contains("#include <stdexcept>\n"));
    assert!(files.source.contains(
        "        if (fn == nullptr) {\n            throw std::runtime_error(\"Rust symbol not found: compute_gain\");\n        }\n"
    ));
    assert!(files.source.contains(
        "        if (rust == nullptr) {\n            throw std::runtime_error(\"Rust library could not be loaded\");\n        }\n"
    ));
}

#[test]
fn type_block_is_verbatim() {
    assert_eq!(
        extract_type_block(&interface()).unwrap(),
        "\nstruct Params {\n  float gain;\n};\n"
    );
    let text = "namespace Rust {\nstruct A {};\nstruct B {};\n";
    assert_eq!(extract_type_block(text).unwrap(), "struct A {};\nstruct B {};");
}

#[test]
fn whole_header_and_source() {
    let files = generate_bridge(&interface()).ok().unwrap();
    let header = [
        "#pragma once",
        "#include <choc/platform/choc_DynamicLibrary.h>",
        "",
        "namespace Rust {",
        "",
        "struct Params {",
        "  float gain;",
        "};",
        "",
        "    choc::file::DynamicLibrary* loadRustDll();",
        "    float compute_gain(float input, int channel);",
        "",
        "    void reset_state(void);",
        "",
        "}",
        "",
    ]
    .join("\n");
    assert_eq!(files.header, header);
    let source = [
        "#include \"rust_bridge.generated.hpp\"",
        "#include <stdexcept>",
        "",
        "namespace Rust {",
        "    typedef void (*reset_state_t)(void);",
        "    void reset_state(void) {",
        "        auto rust = Rust::loadRustDll();",
        "        if (rust == nullptr) {",
        "            throw std::runtime_error(\"Rust library could not be loaded\");",
        "        }",
        "        auto fn = (reset_state_t)rust->findFunction(\"reset_state\");",
        "        if (fn == nullptr) {",
        "            throw std::runtime_error(\"Rust symbol not found: reset_state\");",
        "        }",
        "        fn();",
        "    }",
        "",
        "}",
        "",
    ]
    .join("\n");
    assert_eq!(render_source(&vec![sig("void", "reset_state", &["void"])]), source);
    assert_eq!(
        render_header("struct A {};", &vec![]),
        "#pragma once\n#include <choc/platform/choc_DynamicLibrary.h>\n\nnamespace Rust {\nstruct A {};\n    choc::file::DynamicLibrary* loadRustDll();\n}\n"
    );
}

#[test]
fn export_like_lines_that_do_not_parse_are_reported() {
    let text = "EXPORT void ok(int a);\nEXPORT void split(int a,\n                int b);\n  EXPORT f(int a);\n// EXPORT void c(void);\nEXPORTS\n";
    assert_eq!(find_malformed_exports(text), vec![1, 3, 5]);
    assert!(find_malformed_exports(&interface()).is_empty());
}
