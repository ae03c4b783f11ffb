use js_engine::driver::JsCode;
use js_engine::error::{unwrap_known_error, ErrorValue, JsError};
use js_engine::hashing::hex_upper;
use js_engine::json::JsonValue;
use js_engine::modules::{str_contains, ModsLoader, ModuleCode, ModuleError};
use js_engine::text::{ascii_ci_eq, sort_strings, str_eq, str_le, u64_dec};

fn loader() -> ModsLoader {
    ModsLoader { code: JsCode("export const getConfig = () => ({});".to_owned()) }
}

#[test]
fn only_three_module_urls_exist() {
    let loader = loader();
    match loader.load("file:///deno_global.js", None, false).unwrap() {
        ModuleCode::DenoGlobalShim(code) => {
            assert_eq!(code, "const old_deno = Deno; Deno = null; export default old_deno");
        }
        _ => panic!("expected the hiding shim"),
    }
    assert!(matches!(
        loader.load("file:///loadModule.js", None, false).unwrap(),
        ModuleCode::Loader
    ));
    match loader.load("file:///embassy.js", None, false).unwrap() {
        ModuleCode::Package(code) => {
            assert_eq!(code, "export const getConfig = () => ({});");
        }
        _ => panic!("expected the package script"),
    }
    let err = loader
        .load("https://example.com/evil.js", None, false)
        .unwrap_err();
    assert_eq!(err.message(), "Not allowed to import: https://example.com/evil.js");
}

#[test]
fn dynamic_imports_are_refused() {
    let err = loader()
        .load("file:///loadModule.js", None, true)
        .unwrap_err();
    assert_eq!(err.message(), "Will not import dynamic");
}

#[test]
fn the_package_script_may_import_nothing() {
    let err = loader()
        .load("file:///deno_global.js", Some("file:///embassy.js"), false)
        .unwrap_err();
    assert_eq!(err.message(), "Embassy is not allowed to import");
    assert!(matches!(
        ModsLoader::resolve("file:///embassy.js"),
        Err(ModuleError::EmbassyImport)
    ));
    assert_eq!(
        ModuleError::EmbassyImport.message(),
        "Embassy.js cannot import anything else"
    );
    assert!(ModsLoader::resolve("file:///loadModule.js").is_ok());
}

#[test]
fn unwrap_known_error_covers_the_answer_shapes() {
    assert!(unwrap_known_error(None).unwrap().is_null());
    match unwrap_known_error(Some(ErrorValue::Error("oops".to_owned()))) {
        Err((JsError::Javascript, message)) => assert_eq!(message, "oops"),
        _ => panic!("expected a javascript error"),
    }
    match unwrap_known_error(Some(ErrorValue::ErrorCode(2, "Not setup".to_owned()))) {
        Err((JsError::Code(2), message)) => assert_eq!(message, "Not setup"),
        _ => panic!("expected the script's code"),
    }
    match unwrap_known_error(Some(ErrorValue::Result(JsonValue::Int(7)))) {
        Ok(JsonValue::Int(7)) => {}
        _ => panic!("expected the result value"),
    }
}

#[test]
fn string_utilities() {
    assert!(str_eq("abc", "abc"));
    assert!(!str_eq("abc", "abd"));
    assert!(ascii_ci_eq("GeT", "gEt"));
    assert!(!ascii_ci_eq("GET", "PUT"));
    assert!(str_le("alpha", "beta"));
    assert!(str_le("a", "ab"));
    assert!(!str_le("b", "ab"));
    assert!(str_contains("file:///embassy.js", "embassy"));
    assert!(!str_contains("file:///loadModule.js", "embassy"));
    assert_eq!(u64_dec(0), "0");
    assert_eq!(u64_dec(14302), "14302");
    assert_eq!(hex_upper(&[0xbe, 0xef, 0x00]), "BEEF00");
}

#[test]
fn sort_strings_orders_ascending() {
    let sorted = sort_strings(vec![
        "pear".to_owned(),
        "apple".to_owned(),
        "apple".to_owned(),
        "fig".to_owned(),
    ]);
    assert_eq!(sorted, vec!["apple", "apple", "fig", "pear"]);
}
