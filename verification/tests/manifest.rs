//! Manifest synthesis: determinism, whitespace insensitivity, and exact
//! output.

use codegen_pipeline::manifest::{contains_sub, synthesize};

const HEADER: &str =
    "[package]\nname = \"generated_project\"\nversion = \"0.1.0\"\nedition = \"2021\"\n\n[dependencies]\n";

#[test]
fn synthesize_is_idempotent() {
    let text = "use serde::Serialize;\nfn main() { tokio::spawn(async {}); }";
    assert_eq!(synthesize(text), synthesize(text));
}

#[test]
fn synthesize_ignores_whitespace_only_edits() {
    let a = "use serde;fn main(){reqwest;}";
    let b = "use  serde ;\n\nfn main( )  {\n    reqwest ;\n}\n";
    assert_eq!(synthesize(a), synthesize(b));
}

#[test]
fn synthesize_exact_output_for_known_uses() {
    let text = "fn main() { tokio::spawn(x); serde_json::json!(1); }";
    let expected = format!(
        "{}{}{}",
        HEADER,
        "tokio = { version = \"1\", features = [\"full\"] }\n",
        "serde = { version = \"1\", features = [\"derive\"] }\n",
    );
    assert_eq!(synthesize(text), expected);
}

#[test]
fn synthesize_unknown_libraries_are_omitted() {
    let text = "use left_pad::pad; fn main() {}";
    assert_eq!(synthesize(text), HEADER);
}

#[test]
fn synthesize_all_table_entries() {
    let text = "tokio:: serde chrono reqwest rand";
    let expected = format!(
        "{}{}{}{}{}{}",
        HEADER,
        "tokio = { version = \"1\", features = [\"full\"] }\n",
        "serde = { version = \"1\", features = [\"derive\"] }\n",
        "chrono = \"0.4\"\n",
        "reqwest = { version = \"0.11\", features = [\"json\"] }\n",
        "rand = \"0.8\"\n",
    );
    assert_eq!(synthesize(text), expected);
}

#[test]
fn tokio_needs_path_separator() {
    // The table matches `tokio::`, not the bare word.
    assert_eq!(synthesize("I like tokio a lot"), HEADER);
}

#[test]
fn contains_sub_finds_substrings() {
    assert!(contains_sub("hello world", "lo wo"));
    assert!(contains_sub("hello", "hello"));
    assert!(contains_sub("hello", ""));
    assert!(!contains_sub("hello", "world"));
    assert!(!contains_sub("ab", "abc"));
}
