use shelly::executor::{exit_code_or_default, join_lines, line_delta};
use shelly::runtime::{create_script, handler_export_name, matches_script,
    module_plan_for_extension, passthrough_summary, prepare_script, summarize_script,
    wrapper_module_source, ModuleKind};

#[test]
fn scripts_escape_embedded_quotes() {
    let script = matches_script("say \"hi\"", &vec!["a\nb".to_string()]);
    assert_eq!(script, "handler.matches(\"say \\\"hi\\\"\", [\"a\\nb\"])");
}

#[test]
fn matches_script_embeds_encoded_arguments() {
    let script = matches_script("cargo", &vec!["build".to_string()]);
    assert_eq!(script, "handler.matches(\"cargo\", [\"build\"])");
}

#[test]
fn create_script_embeds_settings_json() {
    let script = create_script("cargo", &vec!["build".to_string()], "{}");
    assert_eq!(script, "globalThis.__handler = handler.create(\"cargo\", [\"build\"], {})");
}

#[test]
fn prepare_script_is_fixed() {
    assert_eq!(prepare_script(), "JSON.stringify(globalThis.__handler.prepare())");
}

#[test]
fn summarize_script_renders_exit_code_or_null() {
    assert_eq!(summarize_script("out", "err", Some(1)),
        "JSON.stringify(globalThis.__handler.summarize(\"out\", \"err\", 1))");
    assert_eq!(summarize_script("", "Compiling...\n", None),
        "JSON.stringify(globalThis.__handler.summarize(\"\", \"Compiling...\\n\", null))");
    assert_eq!(summarize_script("", "", Some(-1)),
        "JSON.stringify(globalThis.__handler.summarize(\"\", \"\", -1))");
}

#[test]
fn export_name_turns_kebab_into_lower_camel() {
    assert_eq!(handler_export_name("cargo"), "cargoHandler");
    assert_eq!(handler_export_name("brazil-build"), "brazilBuildHandler");
    assert_eq!(handler_export_name("shelly-test"), "shellyTestHandler");
}

#[test]
fn wrapper_module_binds_the_export() {
    let src = wrapper_module_source("file:///tmp/cargo.ts", "cargoHandler");
    assert_eq!(src,
        "import { cargoHandler } from \"file:///tmp/cargo.ts\";\nglobalThis.handler = cargoHandler;\n");
}

#[test]
fn module_plan_transpiles_typescript_only() {
    assert_eq!(module_plan_for_extension("js"), Some((ModuleKind::JavaScript, false)));
    assert_eq!(module_plan_for_extension("cjs"), Some((ModuleKind::JavaScript, false)));
    assert_eq!(module_plan_for_extension("ts"), Some((ModuleKind::JavaScript, true)));
    assert_eq!(module_plan_for_extension("tsx"), Some((ModuleKind::JavaScript, true)));
    assert_eq!(module_plan_for_extension("jsx"), Some((ModuleKind::JavaScript, true)));
    assert_eq!(module_plan_for_extension("json"), Some((ModuleKind::Json, false)));
    assert_eq!(module_plan_for_extension("wasm"), None);
}

#[test]
fn passthrough_concatenates_both_streams() {
    let s = passthrough_summary("out\n", "err\n");
    assert_eq!(s.summary, Some("out\nerr\n".to_string()));
    assert!(s.truncation.is_none());
}

#[test]
fn line_delta_restores_the_newline() {
    assert_eq!(line_delta("hello"), "hello\n");
    assert_eq!(line_delta(""), "\n");
}

#[test]
fn join_lines_separates_with_newlines() {
    assert_eq!(join_lines(&vec![]), "");
    assert_eq!(join_lines(&vec!["a".to_string()]), "a");
    assert_eq!(join_lines(&vec!["a".to_string(), "b".to_string(), "c".to_string()]), "a\nb\nc");
}

#[test]
fn missing_exit_status_becomes_minus_one() {
    assert_eq!(exit_code_or_default(Some(3)), 3);
    assert_eq!(exit_code_or_default(None), -1);
}
