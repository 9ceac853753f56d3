use docs_mcp::json::Json;
use docs_mcp::module_tree::build_module_tree;
use docs_mcp::types::{Item, PathEntry, RustdocJson};

fn text(s: &str) -> Json {
    Json::Text(s.to_string())
}

fn num(s: &str) -> Json {
    Json::Number(s.to_string())
}

fn arr(v: Vec<Json>) -> Json {
    Json::Array(v)
}

fn obj(v: Vec<(&str, Json)>) -> Json {
    Json::Object(v.into_iter().map(|(k, j)| (k.to_string(), j)).collect())
}

fn ids(v: &[u32]) -> Json {
    arr(v.iter().map(|n| num(&n.to_string())).collect())
}

fn item(id: u32, name: Option<&str>, docs: Option<&str>, inner: Json) -> (String, Item) {
    (
        id.to_string(),
        Item {
            id: num(&id.to_string()),
            name: name.map(|n| n.to_string()),
            docs: docs.map(|d| d.to_string()),
            attrs: vec![],
            deprecation: None,
            inner,
            span: None,
            visibility: None,
            links: None,
        },
    )
}

fn path(id: u32, kind: &str, parts: &[&str]) -> (String, PathEntry) {
    (
        id.to_string(),
        PathEntry {
            kind: kind.to_string(),
            path: parts.iter().map(|p| p.to_string()).collect(),
            summary: None,
        },
    )
}

fn module(item_ids: &[u32]) -> Json {
    obj(vec![("module", obj(vec![("is_crate", Json::Bool(false)), ("items", ids(item_ids))]))])
}

fn no_generics() -> Json {
    obj(vec![("params", arr(vec![])), ("where_predicates", arr(vec![]))])
}

fn function(inputs: Json, output: Json) -> Json {
    obj(vec![(
        "function",
        obj(vec![
            ("generics", no_generics()),
            (
                "header",
                obj(vec![
                    ("is_async", Json::Bool(false)),
                    ("is_const", Json::Bool(false)),
                    ("is_unsafe", Json::Bool(false)),
                ]),
            ),
            ("sig", obj(vec![("inputs", inputs), ("output", output)])),
        ]),
    )])
}

fn self_ref() -> Json {
    arr(vec![
        text("self"),
        obj(vec![(
            "borrowed_ref",
            obj(vec![
                ("lifetime", Json::Null),
                ("mutable", Json::Bool(false)),
                ("type", obj(vec![("generic", text("Self"))])),
            ]),
        )]),
    ])
}

fn direct(id: u32, name: &str, args: Json) -> Json {
    obj(vec![("args", args), ("id", num(&id.to_string())), ("path", text(name))])
}

fn one_type_arg(ty: Json) -> Json {
    obj(vec![(
        "angle_bracketed",
        obj(vec![("args", arr(vec![obj(vec![("type", ty)])])), ("constraints", arr(vec![]))]),
    )])
}

fn impl_block(trait_: Json, for_: Json, items: &[u32], synthetic: bool) -> Json {
    obj(vec![(
        "impl",
        obj(vec![
            ("for", for_),
            ("generics", no_generics()),
            ("is_synthetic", Json::Bool(synthetic)),
            ("items", ids(items)),
            ("trait", trait_),
        ]),
    )])
}

fn child_process_type() -> Json {
    obj(vec![(
        "resolved_path",
        obj(vec![("args", Json::Null), ("id", num("9410")), ("path", text("TokioChildProcess"))]),
    )])
}

fn generic_param(name: &str, kind: Json) -> Json {
    obj(vec![("kind", kind), ("name", text(name))])
}

fn const_bool() -> Json {
    obj(vec![(
        "const",
        obj(vec![("default", Json::Null), ("type", obj(vec![("primitive", text("bool"))]))]),
    )])
}

fn struct_with(params: Vec<Json>, impls: &[u32]) -> Json {
    obj(vec![(
        "struct",
        obj(vec![
            (
                "generics",
                obj(vec![("params", arr(params)), ("where_predicates", arr(vec![]))]),
            ),
            ("impls", ids(impls)),
            ("kind", obj(vec![("plain", obj(vec![("fields", arr(vec![]))]))])),
        ]),
    )])
}

/// A small document in the shape of the `rmcp` crate's: a few modules, the
/// struct `TokioChildProcess` with one inherent impl of six methods and
/// five trait impls, two structs with generics, a trait, a free function
/// and a re-export.
fn load_rmcp() -> RustdocJson {
    let methods = ["new", "builder", "id", "graceful_shutdown", "into_inner", "split"];
    let method_ids = [12015u32, 12018, 12020, 12021, 12022, 12024];
    let mut index = vec![
        item(0, Some("rmcp"), Some("A crate for the Model Context Protocol."), module(&[1, 2, 50, 60])),
        item(1, Some("transport"), Some("Transports between client and server."), module(&[3, 61])),
        item(2, Some("model"), Some("Protocol types."), module(&[1101, 10184, 70])),
        item(3, Some("child_process"), None, module(&[9410])),
        item(
            9410,
            Some("TokioChildProcess"),
            Some("A child process that speaks the protocol over its standard streams."),
            struct_with(vec![], &[12027, 12028, 12029, 12030, 12031, 12032]),
        ),
        item(12027, None, None, impl_block(Json::Null, child_process_type(), &method_ids, false)),
        item(
            12028,
            None,
            None,
            impl_block(direct(1, "Send", Json::Null), child_process_type(), &[], true),
        ),
        item(
            12029,
            None,
            None,
            impl_block(direct(2, "Sync", Json::Null), child_process_type(), &[], true),
        ),
        item(
            12030,
            None,
            None,
            impl_block(
                direct(3, "From", one_type_arg(obj(vec![("generic", text("T"))]))),
                child_process_type(),
                &[],
                false,
            ),
        ),
        item(12031, None, None, impl_block(direct(4, "Any", Json::Null), child_process_type(), &[], false)),
        item(
            12032,
            None,
            None,
            impl_block(
                direct(
                    5,
                    "Transport",
                    one_type_arg(obj(vec![(
                        "resolved_path",
                        obj(vec![("args", Json::Null), ("id", num("6")), ("path", text("RoleClient"))]),
                    )])),
                ),
                child_process_type(),
                &[],
                false,
            ),
        ),
        item(
            1101,
            Some("ClientCapabilitiesBuilderState"),
            None,
            struct_with(
                vec![
                    generic_param("EXPERIMENTAL", const_bool()),
                    generic_param("ROOTS", const_bool()),
                ],
                &[],
            ),
        ),
        item(
            10184,
            Some("PromptContext"),
            None,
            struct_with(
                vec![
                    generic_param(
                        "'a",
                        obj(vec![("lifetime", obj(vec![("outlives", arr(vec![]))]))]),
                    ),
                    generic_param(
                        "S",
                        obj(vec![(
                            "type",
                            obj(vec![
                                ("bounds", arr(vec![])),
                                ("default", Json::Null),
                                ("is_synthetic", Json::Bool(false)),
                            ]),
                        )]),
                    ),
                ],
                &[],
            ),
        ),
        item(
            70,
            Some("serve_client"),
            Some("Serves a client over a transport."),
            function(arr(vec![]), Json::Null),
        ),
        item(
            50,
            Some("ServerHandler"),
            Some("Handles the requests of a client."),
            obj(vec![(
                "trait",
                obj(vec![("generics", no_generics()), ("items", ids(&[]))]),
            )]),
        ),
        item(
            60,
            Some("Error"),
            None,
            obj(vec![("use", obj(vec![("source", text("rmcp_core::Error"))]))]),
        ),
        item(
            61,
            Some("io"),
            None,
            obj(vec![("use", obj(vec![("source", text("tokio::io"))]))]),
        ),
    ];
    for (name, id) in methods.iter().zip(method_ids.iter()) {
        let inputs = if *name == "new" || *name == "builder" {
            arr(vec![])
        } else {
            arr(vec![self_ref()])
        };
        index.push(item(*id, Some(name), Some("A method of the child process."), function(inputs, Json::Null)));
    }
    RustdocJson {
        format_version: 57,
        root: num("0"),
        index,
        paths: vec![
            path(0, "module", &["rmcp"]),
            path(1, "module", &["rmcp", "transport"]),
            path(2, "module", &["rmcp", "model"]),
            path(3, "module", &["rmcp", "transport", "child_process"]),
            path(9410, "struct", &["rmcp", "transport", "child_process", "TokioChildProcess"]),
            path(1101, "struct", &["rmcp", "model", "ClientCapabilitiesBuilderState"]),
            path(10184, "struct", &["rmcp", "model", "PromptContext"]),
            path(70, "function", &["rmcp", "model", "serve_client"]),
            path(50, "trait", &["rmcp", "ServerHandler"]),
        ],
        external_crates: vec![],
        crate_version: Some("0.16.0".to_string()),
    }
}

fn load_clap() -> RustdocJson {
    RustdocJson {
        format_version: 57,
        root: num("0"),
        index: vec![
            item(0, Some("clap"), Some("Command line argument parsing."), module(&[1, 2])),
            item(1, Some("builder"), None, module(&[])),
            item(2, Some("Parser"), None, obj(vec![("use", obj(vec![("source", text("clap_derive::Parser"))]))])),
        ],
        paths: vec![path(0, "module", &["clap"]), path(1, "module", &["clap", "builder"])],
        external_crates: vec![],
        crate_version: None,
    }
}


#[test]
fn fixture_rmcp_module_tree_is_nonempty() {
    let doc = load_rmcp();
    let tree = build_module_tree(&doc);
    assert!(!tree.is_empty(), "rmcp module tree should not be empty");
}


#[test]
fn fixture_rmcp_module_tree_nodes_have_paths() {
    let doc = load_rmcp();
    let tree = build_module_tree(&doc);
    for node in &tree {
        assert!(!node.path.is_empty(), "module tree node should have a path");
        assert!(node.path.starts_with("rmcp"), "module path should start with crate name, got: {}", node.path);
    }
}


#[test]
fn fixture_rmcp_module_tree_has_item_counts() {
    let doc = load_rmcp();
    let tree = build_module_tree(&doc);
    // At least one node should have non-empty item counts (has structs, fns, etc.)
    let any_with_counts = tree.iter().any(|n| !n.item_counts.is_empty());
    assert!(any_with_counts, "at least one module node should have item counts");
}


#[test]
fn fixture_clap_module_tree_reflects_format_version() {
    // clap fixture is stripped (only module/use items), so tree may be minimal
    // but must not panic and must return a valid result
    let doc = load_clap();
    let tree = build_module_tree(&doc);
    // Result can be empty for stripped fixtures — just ensure it doesn't panic
    let _ = tree;
}
