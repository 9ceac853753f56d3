use docs_mcp::cache::{cache_file_name, cache_key, decompress_zstd, CacheEntry, CACHE_TTL_SECS};
use docs_mcp::error::DocsError;
use docs_mcp::json::Json;
use docs_mcp::readme::{decode_html_entities, extract_attr, html_to_text};
use docs_mcp::signature::struct_fields;
use docs_mcp::sparse_index::{
    compute_path, find_latest_stable, is_all_ascii, ndjson_records, pick_latest, resolve_version,
    IndexLine,
};
use docs_mcp::text::{contains, join_strings, split_text, starts_with};
use docs_mcp::types::{summarize, Item, PathEntry, RustdocJson};

fn text(s: &str) -> Json {
    Json::Text(s.to_string())
}

fn num(s: &str) -> Json {
    Json::Number(s.to_string())
}

fn arr(v: Vec<Json>) -> Json {
    Json::Array(v)
}

fn obj(v: Vec<(&str, Json)>) -> Json {
    Json::Object(v.into_iter().map(|(k, j)| (k.to_string(), j)).collect())
}

fn ids(v: &[u32]) -> Json {
    arr(v.iter().map(|n| num(&n.to_string())).collect())
}

fn item(id: u32, name: Option<&str>, docs: Option<&str>, inner: Json) -> (String, Item) {
    (
        id.to_string(),
        Item {
            id: num(&id.to_string()),
            name: name.map(|n| n.to_string()),
            docs: docs.map(|d| d.to_string()),
            attrs: vec![],
            deprecation: None,
            inner,
            span: None,
            visibility: None,
            links: None,
        },
    )
}

fn path(id: u32, kind: &str, parts: &[&str]) -> (String, PathEntry) {
    (
        id.to_string(),
        PathEntry {
            kind: kind.to_string(),
            path: parts.iter().map(|p| p.to_string()).collect(),
            summary: None,
        },
    )
}

fn module(item_ids: &[u32]) -> Json {
    obj(vec![("module", obj(vec![("is_crate", Json::Bool(false)), ("items", ids(item_ids))]))])
}

fn no_generics() -> Json {
    obj(vec![("params", arr(vec![])), ("where_predicates", arr(vec![]))])
}

fn function(inputs: Json, output: Json) -> Json {
    obj(vec![(
        "function",
        obj(vec![
            ("generics", no_generics()),
            (
                "header",
                obj(vec![
                    ("is_async", Json::Bool(false)),
                    ("is_const", Json::Bool(false)),
                    ("is_unsafe", Json::Bool(false)),
                ]),
            ),
            ("sig", obj(vec![("inputs", inputs), ("output", output)])),
        ]),
    )])
}

fn self_ref() -> Json {
    arr(vec![
        text("self"),
        obj(vec![(
            "borrowed_ref",
            obj(vec![
                ("lifetime", Json::Null),
                ("mutable", Json::Bool(false)),
                ("type", obj(vec![("generic", text("Self"))])),
            ]),
        )]),
    ])
}

fn direct(id: u32, name: &str, args: Json) -> Json {
    obj(vec![("args", args), ("id", num(&id.to_string())), ("path", text(name))])
}

fn one_type_arg(ty: Json) -> Json {
    obj(vec![(
        "angle_bracketed",
        obj(vec![("args", arr(vec![obj(vec![("type", ty)])])), ("constraints", arr(vec![]))]),
    )])
}

fn impl_block(trait_: Json, for_: Json, items: &[u32], synthetic: bool) -> Json {
    obj(vec![(
        "impl",
        obj(vec![
            ("for", for_),
            ("generics", no_generics()),
            ("is_synthetic", Json::Bool(synthetic)),
            ("items", ids(items)),
            ("trait", trait_),
        ]),
    )])
}

fn child_process_type() -> Json {
    obj(vec![(
        "resolved_path",
        obj(vec![("args", Json::Null), ("id", num("9410")), ("path", text("TokioChildProcess"))]),
    )])
}

fn generic_param(name: &str, kind: Json) -> Json {
    obj(vec![("kind", kind), ("name", text(name))])
}

fn const_bool() -> Json {
    obj(vec![(
        "const",
        obj(vec![("default", Json::Null), ("type", obj(vec![("primitive", text("bool"))]))]),
    )])
}

fn struct_with(params: Vec<Json>, impls: &[u32]) -> Json {
    obj(vec![(
        "struct",
        obj(vec![
            (
                "generics",
                obj(vec![("params", arr(params)), ("where_predicates", arr(vec![]))]),
            ),
            ("impls", ids(impls)),
            ("kind", obj(vec![("plain", obj(vec![("fields", arr(vec![]))]))])),
        ]),
    )])
}

/// A small document in the shape of the `rmcp` crate's: a few modules, the
/// struct `TokioChildProcess` with one inherent impl of six methods and
/// five trait impls, two structs with generics, a trait, a free function
/// and a re-export.
fn load_rmcp() -> RustdocJson {
    let methods = ["new", "builder", "id", "graceful_shutdown", "into_inner", "split"];
    let method_ids = [12015u32, 12018, 12020, 12021, 12022, 12024];
    let mut index = vec![
        item(0, Some("rmcp"), Some("A crate for the Model Context Protocol."), module(&[1, 2, 50, 60])),
        item(1, Some("transport"), Some("Transports between client and server."), module(&[3, 61])),
        item(2, Some("model"), Some("Protocol types."), module(&[1101, 10184, 70])),
        item(3, Some("child_process"), None, module(&[9410])),
        item(
            9410,
            Some("TokioChildProcess"),
            Some("A child process that speaks the protocol over its standard streams."),
            struct_with(vec![], &[12027, 12028, 12029, 12030, 12031, 12032]),
        ),
        item(12027, None, None, impl_block(Json::Null, child_process_type(), &method_ids, false)),
        item(
            12028,
            None,
            None,
            impl_block(direct(1, "Send", Json::Null), child_process_type(), &[], true),
        ),
        item(
            12029,
            None,
            None,
            impl_block(direct(2, "Sync", Json::Null), child_process_type(), &[], true),
        ),
        item(
            12030,
            None,
            None,
            impl_block(
                direct(3, "From", one_type_arg(obj(vec![("generic", text("T"))]))),
                child_process_type(),
                &[],
                false,
            ),
        ),
        item(12031, None, None, impl_block(direct(4, "Any", Json::Null), child_process_type(), &[], false)),
        item(
            12032,
            None,
            None,
            impl_block(
                direct(
                    5,
                    "Transport",
                    one_type_arg(obj(vec![(
                        "resolved_path",
                        obj(vec![("args", Json::Null), ("id", num("6")), ("path", text("RoleClient"))]),
                    )])),
                ),
                child_process_type(),
                &[],
                false,
            ),
        ),
        item(
            1101,
            Some("ClientCapabilitiesBuilderState"),
            None,
            struct_with(
                vec![
                    generic_param("EXPERIMENTAL", const_bool()),
                    generic_param("ROOTS", const_bool()),
                ],
                &[],
            ),
        ),
        item(
            10184,
            Some("PromptContext"),
            None,
            struct_with(
                vec![
                    generic_param(
                        "'a",
                        obj(vec![("lifetime", obj(vec![("outlives", arr(vec![]))]))]),
                    ),
                    generic_param(
                        "S",
                        obj(vec![(
                            "type",
                            obj(vec![
                                ("bounds", arr(vec![])),
                                ("default", Json::Null),
                                ("is_synthetic", Json::Bool(false)),
                            ]),
                        )]),
                    ),
                ],
                &[],
            ),
        ),
        item(
            70,
            Some("serve_client"),
            Some("Serves a client over a transport."),
            function(arr(vec![]), Json::Null),
        ),
        item(
            50,
            Some("ServerHandler"),
            Some("Handles the requests of a client."),
            obj(vec![(
                "trait",
                obj(vec![("generics", no_generics()), ("items", ids(&[]))]),
            )]),
        ),
        item(
            60,
            Some("Error"),
            None,
            obj(vec![("use", obj(vec![("source", text("rmcp_core::Error"))]))]),
        ),
        item(
            61,
            Some("io"),
            None,
            obj(vec![("use", obj(vec![("source", text("tokio::io"))]))]),
        ),
    ];
    for (name, id) in methods.iter().zip(method_ids.iter()) {
        let inputs = if *name == "new" || *name == "builder" {
            arr(vec![])
        } else {
            arr(vec![self_ref()])
        };
        index.push(item(*id, Some(name), Some("A method of the child process."), function(inputs, Json::Null)));
    }
    RustdocJson {
        format_version: 57,
        root: num("0"),
        index,
        paths: vec![
            path(0, "module", &["rmcp"]),
            path(1, "module", &["rmcp", "transport"]),
            path(2, "module", &["rmcp", "model"]),
            path(3, "module", &["rmcp", "transport", "child_process"]),
            path(9410, "struct", &["rmcp", "transport", "child_process", "TokioChildProcess"]),
            path(1101, "struct", &["rmcp", "model", "ClientCapabilitiesBuilderState"]),
            path(10184, "struct", &["rmcp", "model", "PromptContext"]),
            path(70, "function", &["rmcp", "model", "serve_client"]),
            path(50, "trait", &["rmcp", "ServerHandler"]),
        ],
        external_crates: vec![],
        crate_version: Some("0.16.0".to_string()),
    }
}

fn strings(list: &[&str]) -> Vec<String> {
    list.iter().map(|s| s.to_string()).collect()
}

#[test]
fn kind_is_the_first_key_of_inner() {
    let (_, function_item) = item(1, Some("f"), None, function(arr(vec![]), Json::Null));
    assert_eq!(function_item.kind(), Some("function"));
    assert!(function_item.is_kind("function"));
    assert!(!function_item.is_kind("struct"));
    assert!(function_item.inner_for("function").is_some());
    assert!(function_item.inner_for("struct").is_none());
    let (_, empty) = item(2, None, None, obj(vec![]));
    assert_eq!(empty.kind(), None);
    let (_, malformed) = item(3, None, None, text("function"));
    assert_eq!(malformed.kind(), None);
    assert!(malformed.inner_for("function").is_none());
}

#[test]
fn attr_strings_are_the_texts_under_other() {
    let (_, mut it) = item(1, Some("f"), None, obj(vec![]));
    it.attrs = vec![
        obj(vec![("other", text("#[inline]"))]),
        text("must_use"),
        obj(vec![("other", num("3"))]),
        obj(vec![("must_use", Json::Null)]),
        obj(vec![("other", text("#[cold]"))]),
    ];
    assert_eq!(it.attr_strings(), strings(&["#[inline]", "#[cold]"]));
}

#[test]
fn doc_summary_is_the_first_line_that_is_not_blank() {
    assert_eq!(summarize("First line.\nSecond line."), "First line.");
    assert_eq!(summarize("\n \t \n  Indented.\nNext."), "  Indented.");
    assert_eq!(summarize("Windows line.\r\nNext."), "Windows line.");
    assert_eq!(summarize("\u{a0}\u{2003}\nAfter wide spaces."), "After wide spaces.");
    assert_eq!(summarize(" \n\n"), "");
    assert_eq!(summarize(""), "");
    assert_eq!(summarize("Only line"), "Only line");
    let (_, with_docs) = item(1, None, Some("\nSummary here.\n\nDetails."), obj(vec![]));
    assert_eq!(with_docs.doc_summary(), "Summary here.");
    let (_, without) = item(1, None, None, obj(vec![]));
    assert_eq!(without.doc_summary(), "");
}

#[test]
fn root_id_is_read_from_numbers_and_strings() {
    let mut doc = load_rmcp();
    assert_eq!(doc.root_id(), "0");
    doc.root = text("0:0:1234");
    assert_eq!(doc.root_id(), "0:0:1234");
    doc.root = Json::Null;
    assert_eq!(doc.root_id(), "null");
    doc.root = arr(vec![num("1")]);
    assert_eq!(doc.root_id(), "[1]");
}

#[test]
fn documents_below_the_format_floor_are_refused() {
    let mut doc = load_rmcp();
    assert!(doc.is_supported());
    assert!(doc.check_format().is_ok());
    doc.format_version = 33;
    assert!(doc.check_format().is_ok());
    doc.format_version = 32;
    assert!(!doc.is_supported());
    match doc.check_format() {
        Err(DocsError::UnsupportedFormat(32)) => {}
        other => panic!("unexpected: {other:?}"),
    }
    assert_eq!(
        DocsError::UnsupportedFormat(32).message(),
        "Unsupported rustdoc JSON format version: 32. Expected >= 33."
    );
}

#[test]
fn root_docs_are_those_of_the_root_item() {
    let mut doc = load_rmcp();
    assert_eq!(doc.root_docs(), "A crate for the Model Context Protocol.");
    doc.root = num("3");
    assert_eq!(doc.root_docs(), "");
    doc.root = num("4040");
    assert_eq!(doc.root_docs(), "");
}

#[test]
fn path_entries_join_with_double_colons() {
    let (_, entry) = path(1, "struct", &["tokio", "sync", "Mutex"]);
    assert_eq!(entry.full_path(), "tokio::sync::Mutex");
    assert_eq!(entry.kind_name(), "struct");
    let (_, single) = path(1, "module", &["tokio"]);
    assert_eq!(single.full_path(), "tokio");
    let (_, empty) = path(1, "module", &[]);
    assert_eq!(empty.full_path(), "");
}

#[test]
fn struct_fields_mark_fields_with_string_ids() {
    let plain = |fields: Json| {
        item(1, Some("S"), None, obj(vec![("struct", obj(vec![("kind", obj(vec![("plain", obj(vec![("fields", fields)]))]))]))])).1
    };
    assert_eq!(
        struct_fields(&plain(arr(vec![text("0:1"), num("2"), text("0:3")]))),
        strings(&["/* field */", "/* field */"])
    );
    assert!(struct_fields(&plain(arr(vec![num("1")]))).is_empty());
    let (_, unit) = item(1, Some("S"), None, obj(vec![("struct", obj(vec![("kind", obj(vec![("unit", Json::Null)]))]))]));
    assert!(struct_fields(&unit).is_empty());
    let (_, function_item) = item(1, Some("f"), None, function(arr(vec![]), Json::Null));
    assert!(struct_fields(&function_item).is_empty());
}

#[test]
fn error_messages_name_what_went_wrong() {
    assert_eq!(
        DocsError::NoStableVersion("serde".into()).message(),
        "No stable version found for serde"
    );
    assert_eq!(DocsError::Other("plain".into()).message(), "plain");
}

#[test]
fn cache_keys_are_sha256_in_hex() {
    assert_eq!(
        cache_key("abc"),
        "ba7816bf8f01cfea414140de5dae2223b00361a396177a9cb410ff61f20015ad"
    );
    assert_eq!(
        cache_key(""),
        "e3b0c44298fc1c149afbf4c8996fb92427ae41e4649b934ca495991b7852b855"
    );
    assert_eq!(cache_file_name("ba78"), "ba78.json");
}

#[test]
fn cache_entries_expire_after_a_day() {
    let entry = CacheEntry { cached_at: 1000, url: "u".into(), body: "b".into() };
    assert_eq!(CACHE_TTL_SECS, 86400);
    assert!(!entry.is_expired(1000));
    assert!(!entry.is_expired(1000 + 86400));
    assert!(entry.is_expired(1000 + 86401));
    assert!(!entry.is_expired(0));
    assert!(entry.is_expired(u64::MAX));
}

#[test]
fn decompress_keeps_text_beyond_ascii() {
    let text = "{\"name\":\"héllo → wörld\"}";
    let packed = zstd::encode_all(std::io::Cursor::new(text.as_bytes()), 0).unwrap();
    assert_eq!(decompress_zstd(&packed).unwrap(), text);
    let failure = decompress_zstd(b"plain").unwrap_err().message();
    assert!(failure.starts_with("Zstd decompression failed: "), "{failure}");
    let packed = zstd::encode_all(std::io::Cursor::new(&[0xC3u8][..]), 0).unwrap();
    let failure = decompress_zstd(&packed).unwrap_err().message();
    assert!(failure.starts_with("Decompressed content is not valid UTF-8: "), "{failure}");
}

fn line(vers: &str, yanked: bool) -> IndexLine {
    IndexLine {
        name: "test".to_string(),
        vers: vers.to_string(),
        deps: vec![],
        cksum: "abc".to_string(),
        features: vec![],
        yanked,
        rust_version: None,
        features2: None,
    }
}

#[test]
fn latest_stable_orders_versions_by_number_not_by_text() {
    let lines = vec![line("1.9.0", false), line("1.10.0", false), line("1.2.0", false)];
    assert_eq!(find_latest_stable(&lines).unwrap().vers, "1.10.0");
    assert_eq!(pick_latest(&lines, true), Some(1));
    let lines = vec![line("2.0.0-rc.1", false), line("1.0.0", false), line("2.0.0-alpha", false)];
    assert_eq!(find_latest_stable(&lines).unwrap().vers, "1.0.0");
    assert_eq!(pick_latest(&lines, false), Some(0));
    // a text that is no version stands below every version
    let lines = vec![line("not a version", false), line("0.0.1", false)];
    assert_eq!(find_latest_stable(&lines).unwrap().vers, "0.0.1");
    // of equal versions the later line wins
    let lines = vec![line("1.0.0", false), line("1.0.0", false)];
    assert_eq!(pick_latest(&lines, true), Some(1));
    let lines = vec![line("3.0.0", true), line("2.0.0-beta", false)];
    assert_eq!(pick_latest(&lines, true), None);
    assert_eq!(find_latest_stable(&lines).unwrap().vers, "2.0.0-beta");
}

#[test]
fn versions_are_resolved_from_the_request_or_the_index() {
    let lines = vec![line("1.0.0", false), line("1.1.0", false)];
    assert_eq!(resolve_version("x", Some("0.9.0"), &lines).unwrap(), "0.9.0");
    assert_eq!(resolve_version("x", Some("latest"), &lines).unwrap(), "1.1.0");
    assert_eq!(resolve_version("x", Some(""), &lines).unwrap(), "1.1.0");
    assert_eq!(resolve_version("x", None, &lines).unwrap(), "1.1.0");
    match resolve_version("x", None, &vec![line("1.0.0", true)]) {
        Err(DocsError::NoStableVersion(name)) => assert_eq!(name, "x"),
        other => panic!("unexpected: {other:?}"),
    }
}

#[test]
fn features_of_both_tables_are_merged() {
    let mut l = line("1.0.0", false);
    l.features = vec![
        ("default".to_string(), strings(&["std"])),
        ("std".to_string(), strings(&[])),
    ];
    l.features2 = Some(vec![
        ("serde".to_string(), strings(&["dep:serde"])),
        ("default".to_string(), strings(&["std", "serde"])),
    ]);
    let mut merged = l.all_features();
    merged.sort();
    assert_eq!(
        merged,
        vec![
            ("default".to_string(), strings(&["std", "serde"])),
            ("serde".to_string(), strings(&["dep:serde"])),
            ("std".to_string(), strings(&[])),
        ]
    );
    l.features2 = None;
    assert_eq!(l.all_features().len(), 2);
}

#[test]
fn index_paths_follow_the_length_of_the_name() {
    assert_eq!(compute_path("A"), "1/a");
    assert_eq!(compute_path("Io"), "2/io");
    assert_eq!(compute_path("URL"), "3/u/url");
    assert_eq!(compute_path("Tokio-Util"), "to/ki/tokio-util");
    assert_eq!(compute_path("a_b1"), "a_/b1/a_b1");
    assert!(is_all_ascii("tokio-util_2"));
    assert!(is_all_ascii(""));
    assert!(!is_all_ascii("tokió"));
}

#[test]
fn ndjson_records_are_the_lines_that_are_not_blank() {
    assert_eq!(ndjson_records("{\"a\":1}\n\n  \n{\"b\":2}\r\n{\"c\":3}"), strings(&["{\"a\":1}", "{\"b\":2}", "{\"c\":3}"]));
    assert_eq!(ndjson_records("one\n"), strings(&["one"]));
    assert!(ndjson_records("").is_empty());
    assert!(ndjson_records("\n\n").is_empty());
}

#[test]
fn html_entities_are_decoded_in_turn() {
    assert_eq!(decode_html_entities("a &lt; b &amp;&amp; c &gt; d"), "a < b && c > d");
    assert_eq!(decode_html_entities("&quot;x&quot; &#39;y&#39; &apos;z&apos;"), "\"x\" 'y' 'z'");
    assert_eq!(decode_html_entities("a&nbsp;b &#x27;c&#x27; d&#x2F;e &#x60;f&#x60; g&#x3D;h"), "a b 'c' d/e `f` g=h");
    // `&amp;` goes first, so what it leaves is decoded again
    assert_eq!(decode_html_entities("&amp;lt;"), "<");
    assert_eq!(decode_html_entities("&unknown; & ;"), "&unknown; & ;");
    assert_eq!(decode_html_entities(""), "");
}

#[test]
fn html_becomes_text_with_its_structure() {
    assert_eq!(html_to_text("<h1>Title</h1><p>Body &amp; more</p>"), "\nTitle\n\n\nBody & more\n");
    assert_eq!(html_to_text("<ul><li>one</li><li>two</li></ul>"), "\n- one\n- two\n");
    assert_eq!(html_to_text("<pre><code>let x = 1;</code></pre>"), "\n```\nlet x = 1;\n```\n");
    assert_eq!(html_to_text("a <CODE>b</CODE> c"), "a `b` c\n");
    assert_eq!(html_to_text("<tr><td>a</td><th>b</th></tr>"), "  a  b\n");
    assert_eq!(html_to_text("x<br>y<br/>z"), "x\ny\nz\n");
    assert_eq!(html_to_text("<IMG SRC='b.png' ALT='Badge'>"), "[badge]\n");
    assert_eq!(html_to_text("<img alt=\"\">none"), "none\n");
    assert_eq!(html_to_text("keep<style>p { }</style> this<script>no()</script>!"), "keep this!\n");
    assert_eq!(html_to_text("1 > 0 <b\n>bold"), "1 > 0 bold\n");
    assert_eq!(html_to_text("a\n\n\n\n\nb"), "a\n\n\nb\n");
    assert_eq!(html_to_text(""), "");
    assert_eq!(html_to_text("unclosed <tag"), "unclosed \n");
}

#[test]
fn attributes_are_read_in_either_quote() {
    assert_eq!(extract_attr("a href=\"x\" title='y'", "title"), Some("y".to_string()));
    assert_eq!(extract_attr("a href=\"x\" title='y'", "href"), Some("x".to_string()));
    assert_eq!(extract_attr("img alt=\"\"", "alt"), Some(String::new()));
    // an unclosed double quote leaves the single-quoted form to be tried
    assert_eq!(extract_attr("img alt=\"open alt='closed'", "alt"), Some("closed".to_string()));
    assert_eq!(extract_attr("img alt=\"open", "alt"), None);
    assert_eq!(extract_attr("img alt=plain", "alt"), None);
    assert_eq!(extract_attr("", "alt"), None);
}

#[test]
fn text_helpers_work_on_characters() {
    assert!(starts_with("héllo", "hé"));
    assert!(!starts_with("héllo", "he"));
    assert!(starts_with("abc", ""));
    assert!(!starts_with("ab", "abc"));
    assert!(contains("tokio::sync::Mutex", "sync"));
    assert!(contains("abc", ""));
    assert!(contains("", ""));
    assert!(!contains("abc", "abd"));
    assert!(contains("aab", "ab"));
    assert_eq!(join_strings(&strings(&["a", "b", "c"]), ", "), "a, b, c");
    assert_eq!(join_strings(&strings(&["a"]), ", "), "a");
    assert_eq!(join_strings(&strings(&[]), ", "), "");
    assert_eq!(split_text("a::b::c", "::"), strings(&["a", "b", "c"]));
    assert_eq!(split_text("a:::b", "::"), strings(&["a", ":b"]));
    assert_eq!(split_text("::a::", "::"), strings(&["", "a", ""]));
    assert_eq!(split_text("abc", "::"), strings(&["abc"]));
    assert_eq!(split_text("", "::"), strings(&[""]));
}

#[test]
fn json_values_answer_for_their_shape() {
    let value = obj(vec![("a", num("1")), ("b", text("two")), ("a", num("3"))]);
    assert_eq!(value.get("a"), Some(&num("1")));
    assert_eq!(value.get("b").and_then(|b| b.as_str()), Some("two"));
    assert_eq!(value.get("c"), None);
    assert_eq!(text("x").get("a"), None);
    assert_eq!(Json::Bool(true).as_bool(), Some(true));
    assert_eq!(num("1").as_bool(), None);
    assert_eq!(arr(vec![Json::Null]).as_array().map(|a| a.len()), Some(1));
    assert!(Json::Null.is_null());
    assert!(!Json::Bool(false).is_null());
    assert_eq!(Json::Bool(true).id_string(), None);
}

#[test]
fn a_document_is_well_formed_when_no_id_stands_twice() {
    let mut doc = load_rmcp();
    assert!(doc.is_well_formed());
    doc.paths.push(path(70, "function", &["rmcp", "again"]));
    assert!(!doc.is_well_formed());
    let mut doc = load_rmcp();
    doc.index.push(item(0, None, None, obj(vec![])));
    assert!(!doc.is_well_formed());
}
