use agent_core::fs_embed::{
    generate, must_write, package_version, rerun_line, string_literal, EmbeddedEntry, FsEmbed,
};

#[test]
fn literals_are_escaped() {
    assert_eq!(string_literal("a"), "\"a\"");
    assert_eq!(string_literal("a\"b\\c"), "\"a\\\"b\\\\c\"");
}

#[test]
fn source_is_generated_for_each_file() {
    let embed = FsEmbed {
        struct_name: "Assets".to_string(),
        crate_path: "::util::__rust_embed".to_string(),
        crate_relative: "../../assets".to_string(),
        includes: Vec::new(),
        excludes: Vec::new(),
    };
    let files = vec![EmbeddedEntry {
        rel_path: "a/b.md".to_string(),
        full_path: "C:\\x\\a\\b.md".to_string(),
    }];
    let (name, body) = generate(&embed, &files);
    assert_eq!(name, "Assets_fs_embed_impl.rs");
    let expected = concat_lines(&[
        "impl Assets {",
        "    pub fn get(file_path: &str) -> ::core::option::Option<::util::__rust_embed::EmbeddedFile> {",
        "        match file_path {",
        "            \"a/b.md\" => ::core::option::Option::Some(::util::__rust_embed::EmbeddedFile {",
        "                data: ::std::borrow::Cow::Borrowed(include_bytes!(\"C:/x/a/b.md\")),",
        "                metadata: ::util::__rust_embed::Metadata::__rust_embed_new([0u8; 32], ::core::option::Option::None, ::core::option::Option::None),",
        "            }),",
        "            _ => ::core::option::Option::None,",
        "        }",
        "    }",
        "",
        "    pub fn iter() -> impl ::core::iter::Iterator<Item = ::std::borrow::Cow<'static, str>> + 'static {",
        "        [\"a/b.md\", ].into_iter().map(::std::borrow::Cow::Borrowed)",
        "    }",
        "}",
        "",
        "impl ::util::__rust_embed::RustEmbed for Assets {",
        "    fn get(file_path: &str) -> ::core::option::Option<::util::__rust_embed::EmbeddedFile> {",
        "        Assets::get(file_path)",
        "    }",
        "",
        "    fn iter() -> impl ::core::iter::Iterator<Item = ::std::borrow::Cow<'static, str>> + 'static {",
        "        Assets::iter()",
        "    }",
        "}",
    ]);
    assert_eq!(body, expected);
}

fn concat_lines(lines: &[&str]) -> String {
    let mut text = String::new();
    for line in lines {
        text.push_str(line);
        text.push('\n');
    }
    text
}

#[test]
fn a_file_is_written_only_where_it_differs() {
    assert!(must_write(None, "a"));
    assert!(must_write(Some("b"), "a"));
    assert!(!must_write(Some("a"), "a"));
    assert_eq!(rerun_line("/x"), "cargo:rerun-if-changed=/x");
}

#[test]
fn the_version_of_a_package_is_read() {
    let manifest = "[package]\r\nname = \"zed\"\r\nversion = \"1.2.3\"\r\n[x]\nversion = \"2\"\n";
    assert_eq!(package_version(manifest).as_deref(), Some("1.2.3"));
    assert_eq!(package_version("version = 7").as_deref(), Some("7"));
    assert_eq!(package_version("version = \"a\" = b").as_deref(), Some("a"));
    assert_eq!(package_version(" version = \"1\""), None);
    assert_eq!(package_version(""), None);
}
