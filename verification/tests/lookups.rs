use docs_mcp::impls::{
    collect_methods, collect_trait_impls, get_impl_ids, id_strings, is_ubiquitous_blanket,
};
use docs_mcp::impls_list::{find_implementations, find_implementors, last_segment_of, ImplsError};
use docs_mcp::json::Json;
use docs_mcp::lookup::{
    declare, describe_item, find_by_path, find_reexport_sources, path_answers, ItemError,
};
use docs_mcp::methods::{build_method_parent_map, resolve_owner_path, type_item_id};
use docs_mcp::tools::CrateItemGetParams;
use docs_mcp::types::{Deprecation, Item, PathEntry, RustdocJson};

fn text(s: &str) -> Json {
    Json::Text(s.to_string())
}

fn num(s: &str) -> Json {
    Json::Number(s.to_string())
}

fn arr(v: Vec<Json>) -> Json {
    Json::Array(v)
}

fn obj(v: Vec<(&str, Json)>) -> Json {
    Json::Object(v.into_iter().map(|(k, j)| (k.to_string(), j)).collect())
}

fn ids(v: &[u32]) -> Json {
    arr(v.iter().map(|n| num(&n.to_string())).collect())
}

fn item(id: u32, name: Option<&str>, docs: Option<&str>, inner: Json) -> (String, Item) {
    (
        id.to_string(),
        Item {
            id: num(&id.to_string()),
            name: name.map(|n| n.to_string()),
            docs: docs.map(|d| d.to_string()),
            attrs: vec![],
            deprecation: None,
            inner,
            span: None,
            visibility: None,
            links: None,
        },
    )
}

fn path(id: u32, kind: &str, parts: &[&str]) -> (String, PathEntry) {
    (
        id.to_string(),
        PathEntry {
            kind: kind.to_string(),
            path: parts.iter().map(|p| p.to_string()).collect(),
            summary: None,
        },
    )
}

fn module(item_ids: &[u32]) -> Json {
    obj(vec![("module", obj(vec![("is_crate", Json::Bool(false)), ("items", ids(item_ids))]))])
}

fn no_generics() -> Json {
    obj(vec![("params", arr(vec![])), ("where_predicates", arr(vec![]))])
}

fn function(inputs: Json, output: Json) -> Json {
    obj(vec![(
        "function",
        obj(vec![
            ("generics", no_generics()),
            (
                "header",
                obj(vec![
                    ("is_async", Json::Bool(false)),
                    ("is_const", Json::Bool(false)),
                    ("is_unsafe", Json::Bool(false)),
                ]),
            ),
            ("sig", obj(vec![("inputs", inputs), ("output", output)])),
        ]),
    )])
}

fn self_ref() -> Json {
    arr(vec![
        text("self"),
        obj(vec![(
            "borrowed_ref",
            obj(vec![
                ("lifetime", Json::Null),
                ("mutable", Json::Bool(false)),
                ("type", obj(vec![("generic", text("Self"))])),
            ]),
        )]),
    ])
}

fn direct(id: u32, name: &str, args: Json) -> Json {
    obj(vec![("args", args), ("id", num(&id.to_string())), ("path", text(name))])
}

fn one_type_arg(ty: Json) -> Json {
    obj(vec![(
        "angle_bracketed",
        obj(vec![("args", arr(vec![obj(vec![("type", ty)])])), ("constraints", arr(vec![]))]),
    )])
}

fn impl_block(trait_: Json, for_: Json, items: &[u32], synthetic: bool) -> Json {
    obj(vec![(
        "impl",
        obj(vec![
            ("for", for_),
            ("generics", no_generics()),
            ("is_synthetic", Json::Bool(synthetic)),
            ("items", ids(items)),
            ("trait", trait_),
        ]),
    )])
}

fn child_process_type() -> Json {
    obj(vec![(
        "resolved_path",
        obj(vec![("args", Json::Null), ("id", num("9410")), ("path", text("TokioChildProcess"))]),
    )])
}

fn generic_param(name: &str, kind: Json) -> Json {
    obj(vec![("kind", kind), ("name", text(name))])
}

fn const_bool() -> Json {
    obj(vec![(
        "const",
        obj(vec![("default", Json::Null), ("type", obj(vec![("primitive", text("bool"))]))]),
    )])
}

fn struct_with(params: Vec<Json>, impls: &[u32]) -> Json {
    obj(vec![(
        "struct",
        obj(vec![
            (
                "generics",
                obj(vec![("params", arr(params)), ("where_predicates", arr(vec![]))]),
            ),
            ("impls", ids(impls)),
            ("kind", obj(vec![("plain", obj(vec![("fields", arr(vec![]))]))])),
        ]),
    )])
}

/// A small document in the shape of the `rmcp` crate's: a few modules, the
/// struct `TokioChildProcess` with one inherent impl of six methods and
/// five trait impls, two structs with generics, a trait, a free function
/// and a re-export.
fn load_rmcp() -> RustdocJson {
    let methods = ["new", "builder", "id", "graceful_shutdown", "into_inner", "split"];
    let method_ids = [12015u32, 12018, 12020, 12021, 12022, 12024];
    let mut index = vec![
        item(0, Some("rmcp"), Some("A crate for the Model Context Protocol."), module(&[1, 2, 50, 60])),
        item(1, Some("transport"), Some("Transports between client and server."), module(&[3, 61])),
        item(2, Some("model"), Some("Protocol types."), module(&[1101, 10184, 70])),
        item(3, Some("child_process"), None, module(&[9410])),
        item(
            9410,
            Some("TokioChildProcess"),
            Some("A child process that speaks the protocol over its standard streams."),
            struct_with(vec![], &[12027, 12028, 12029, 12030, 12031, 12032]),
        ),
        item(12027, None, None, impl_block(Json::Null, child_process_type(), &method_ids, false)),
        item(
            12028,
            None,
            None,
            impl_block(direct(1, "Send", Json::Null), child_process_type(), &[], true),
        ),
        item(
            12029,
            None,
            None,
            impl_block(direct(2, "Sync", Json::Null), child_process_type(), &[], true),
        ),
        item(
            12030,
            None,
            None,
            impl_block(
                direct(3, "From", one_type_arg(obj(vec![("generic", text("T"))]))),
                child_process_type(),
                &[],
                false,
            ),
        ),
        item(12031, None, None, impl_block(direct(4, "Any", Json::Null), child_process_type(), &[], false)),
        item(
            12032,
            None,
            None,
            impl_block(
                direct(
                    5,
                    "Transport",
                    one_type_arg(obj(vec![(
                        "resolved_path",
                        obj(vec![("args", Json::Null), ("id", num("6")), ("path", text("RoleClient"))]),
                    )])),
                ),
                child_process_type(),
                &[],
                false,
            ),
        ),
        item(
            1101,
            Some("ClientCapabilitiesBuilderState"),
            None,
            struct_with(
                vec![
                    generic_param("EXPERIMENTAL", const_bool()),
                    generic_param("ROOTS", const_bool()),
                ],
                &[],
            ),
        ),
        item(
            10184,
            Some("PromptContext"),
            None,
            struct_with(
                vec![
                    generic_param(
                        "'a",
                        obj(vec![("lifetime", obj(vec![("outlives", arr(vec![]))]))]),
                    ),
                    generic_param(
                        "S",
                        obj(vec![(
                            "type",
                            obj(vec![
                                ("bounds", arr(vec![])),
                                ("default", Json::Null),
                                ("is_synthetic", Json::Bool(false)),
                            ]),
                        )]),
                    ),
                ],
                &[],
            ),
        ),
        item(
            70,
            Some("serve_client"),
            Some("Serves a client over a transport."),
            function(arr(vec![]), Json::Null),
        ),
        item(
            50,
            Some("ServerHandler"),
            Some("Handles the requests of a client."),
            obj(vec![(
                "trait",
                obj(vec![("generics", no_generics()), ("items", ids(&[]))]),
            )]),
        ),
        item(
            60,
            Some("Error"),
            None,
            obj(vec![("use", obj(vec![("source", text("rmcp_core::Error"))]))]),
        ),
        item(
            61,
            Some("io"),
            None,
            obj(vec![("use", obj(vec![("source", text("tokio::io"))]))]),
        ),
    ];
    for (name, id) in methods.iter().zip(method_ids.iter()) {
        let inputs = if *name == "new" || *name == "builder" {
            arr(vec![])
        } else {
            arr(vec![self_ref()])
        };
        index.push(item(*id, Some(name), Some("A method of the child process."), function(inputs, Json::Null)));
    }
    RustdocJson {
        format_version: 57,
        root: num("0"),
        index,
        paths: vec![
            path(0, "module", &["rmcp"]),
            path(1, "module", &["rmcp", "transport"]),
            path(2, "module", &["rmcp", "model"]),
            path(3, "module", &["rmcp", "transport", "child_process"]),
            path(9410, "struct", &["rmcp", "transport", "child_process", "TokioChildProcess"]),
            path(1101, "struct", &["rmcp", "model", "ClientCapabilitiesBuilderState"]),
            path(10184, "struct", &["rmcp", "model", "PromptContext"]),
            path(70, "function", &["rmcp", "model", "serve_client"]),
            path(50, "trait", &["rmcp", "ServerHandler"]),
        ],
        external_crates: vec![],
        crate_version: Some("0.16.0".to_string()),
    }
}

fn strings(list: &[&str]) -> Vec<String> {
    list.iter().map(|s| s.to_string()).collect()
}

#[test]
fn paths_answer_through_reexports() {
    let answers = |stored: &[&str], target: &[&str]| path_answers(&strings(stored), &strings(target));
    assert!(answers(&["tokio", "sync", "mutex", "Mutex"], &["tokio", "sync", "Mutex"]));
    assert!(answers(&["tokio", "sync", "mutex", "Mutex"], &["tokio", "Mutex"]));
    assert!(answers(&["tokio", "sync", "Mutex"], &["tokio", "sync", "Mutex"]));
    assert!(!answers(&["tokio", "sync", "mutex", "Mutex"], &["tokio", "Mutex", "sync"]));
    assert!(!answers(&["tokio", "sync", "Mutex"], &["serde", "sync", "Mutex"]));
    assert!(!answers(&["tokio", "sync", "Mutex"], &["tokio"]));
    assert!(!answers(&["tokio"], &["tokio", "Mutex"]));
    assert!(!answers(&[], &["tokio", "Mutex"]));
    assert!(!answers(&["tokio", "Mutex"], &[]));
    assert!(answers(&["a", "x", "x"], &["a", "x", "x"]));
    assert!(!answers(&["a", "x"], &["a", "x", "x"]));
}

#[test]
fn items_are_found_by_their_path() {
    let doc = load_rmcp();
    assert_eq!(find_by_path(&doc, "rmcp::transport::child_process::TokioChildProcess"), Some(4));
    assert_eq!(find_by_path(&doc, "rmcp::transport::TokioChildProcess"), Some(4));
    assert_eq!(find_by_path(&doc, "rmcp::TokioChildProcess"), Some(4));
    assert_eq!(find_by_path(&doc, "rmcp"), Some(0));
    assert_eq!(find_by_path(&doc, "rmcp::model"), Some(2));
    assert_eq!(find_by_path(&doc, "TokioChildProcess"), None);
    assert_eq!(find_by_path(&doc, "tokio::TokioChildProcess"), None);
    assert_eq!(find_by_path(&doc, "rmcp::Missing"), None);
    assert_eq!(find_by_path(&doc, ""), None);
}

#[test]
fn an_item_is_told_with_its_methods_and_traits() {
    let doc = load_rmcp();
    let report = describe_item(&doc, "rmcp::transport::TokioChildProcess", true, "filtered", &vec![])
        .unwrap();
    assert_eq!(report.kind, "struct");
    assert_eq!(report.signature, "struct TokioChildProcess");
    assert_eq!(
        report.docs.as_deref(),
        Some("A child process that speaks the protocol over its standard streams.")
    );
    assert!(report.deprecated.is_none());
    assert!(report.feature_requirements.is_empty());
    let names: Vec<&str> = report.methods.iter().filter_map(|m| m.name.as_deref()).collect();
    assert_eq!(names, vec!["new", "builder", "id", "graceful_shutdown", "into_inner", "split"]);
    assert_eq!(report.methods[2].signature, "fn id(&self)");
    assert_eq!(report.methods[2].doc_summary, "A method of the child process.");
    assert_eq!(report.trait_impls, strings(&["Transport<RoleClient>"]));

    let all = describe_item(&doc, "rmcp::TokioChildProcess", false, "all", &vec![]).unwrap();
    assert!(all.methods.is_empty());
    assert_eq!(all.trait_impls, strings(&["From<T>", "Any", "Transport<RoleClient>"]));
    let none = describe_item(&doc, "rmcp::TokioChildProcess", false, "none", &vec![]).unwrap();
    assert!(none.trait_impls.is_empty());

    let function = describe_item(&doc, "rmcp::model::serve_client", true, "filtered", &vec![]).unwrap();
    assert_eq!(function.kind, "function");
    assert_eq!(function.signature, "fn serve_client()");
    let with_generics =
        describe_item(&doc, "rmcp::model::PromptContext", true, "filtered", &vec![]).unwrap();
    assert_eq!(with_generics.signature, "struct PromptContext<'a, S>");
}

#[test]
fn parameters_default_to_methods_and_filtered_traits() {
    let doc = load_rmcp();
    let params = |include_methods, include_trait_impls: Option<&str>| CrateItemGetParams {
        name: "rmcp".into(),
        version: None,
        item_path: "rmcp::TokioChildProcess".into(),
        include_methods,
        include_trait_impls: include_trait_impls.map(Into::into),
    };
    let report = params(None, None).run(&doc, &vec![]).unwrap();
    assert_eq!(report.methods.len(), 6);
    assert_eq!(report.trait_impls.len(), 1);
    let report = params(Some(false), Some("all")).run(&doc, &vec![]).unwrap();
    assert_eq!(report.methods.len(), 0);
    assert_eq!(report.trait_impls.len(), 3);
}

#[test]
fn deprecation_and_features_are_told() {
    let mut doc = load_rmcp();
    let at = doc.index.iter().position(|(id, _)| id == "70").unwrap();
    doc.index[at].1.deprecation =
        Some(Deprecation { since: Some("0.15.0".into()), note: Some("use serve".into()) });
    doc.index[at].1.attrs = vec![obj(vec![(
        "other",
        text(r#"#[attr = CfgTrace([NameValue { name: "feature", value: Some("client"), span: None }])]"#),
    )])];
    let report = describe_item(&doc, "rmcp::model::serve_client", true, "filtered", &strings(&["client"]))
        .unwrap();
    let deprecated = report.deprecated.unwrap();
    assert_eq!(deprecated.since.as_deref(), Some("0.15.0"));
    assert_eq!(deprecated.note.as_deref(), Some("use serve"));
    assert_eq!(report.feature_requirements, strings(&["client"]));
    let report = describe_item(&doc, "rmcp::model::serve_client", true, "filtered", &strings(&["server"]))
        .unwrap();
    assert!(report.feature_requirements.is_empty());
}

#[test]
fn a_missing_item_is_told_apart_by_its_cause() {
    let mut doc = load_rmcp();
    match describe_item(&doc, "rmcp::Error", true, "filtered", &vec![]) {
        Err(ItemError::ReExported { sources }) => assert_eq!(sources, strings(&["rmcp_core::Error"])),
        other => panic!("unexpected: {other:?}"),
    }
    match describe_item(&doc, "rmcp::transport::Missing", true, "filtered", &vec![]) {
        Err(ItemError::NotFound { last }) => assert_eq!(last, "Missing"),
        other => panic!("unexpected: {other:?}"),
    }
    doc.paths.push(path(4242, "trait", &["rmcp", "stream", "Stream"]));
    match describe_item(&doc, "rmcp::Stream", true, "filtered", &vec![]) {
        Err(ItemError::DefinedElsewhere { path }) => assert_eq!(path, "rmcp::stream::Stream"),
        other => panic!("unexpected: {other:?}"),
    }
}

#[test]
fn reexport_sources_are_three_at_most() {
    let mut doc = load_rmcp();
    assert_eq!(find_reexport_sources(&doc, "io"), strings(&["tokio::io"]));
    assert!(find_reexport_sources(&doc, "serve_client").is_empty());
    assert!(find_reexport_sources(&doc, "nothing").is_empty());
    for n in 0..4u32 {
        let source = format!("other{n}::Error");
        doc.index.push(item(
            500 + n,
            Some("Error"),
            None,
            obj(vec![("use", obj(vec![("source", text(&source))]))]),
        ));
    }
    assert_eq!(
        find_reexport_sources(&doc, "Error"),
        strings(&["rmcp_core::Error", "other0::Error", "other1::Error"])
    );
}

#[test]
fn declarations_are_written_by_kind() {
    let doc = load_rmcp();
    assert_eq!(declare(doc.item("9410").unwrap(), "struct"), "struct TokioChildProcess");
    assert_eq!(
        declare(doc.item("1101").unwrap(), "struct"),
        "struct ClientCapabilitiesBuilderState<const EXPERIMENTAL: bool, const ROOTS: bool>"
    );
    assert_eq!(declare(doc.item("50").unwrap(), "trait"), "trait ServerHandler");
    assert_eq!(declare(doc.item("70").unwrap(), "function"), "fn serve_client()");
    assert_eq!(declare(doc.item("12027").unwrap(), "impl"), "impl _");
}

#[test]
fn impl_ids_are_those_of_the_first_kind_that_lists_them() {
    let doc = load_rmcp();
    assert_eq!(
        get_impl_ids(doc.item("9410").unwrap()),
        strings(&["12027", "12028", "12029", "12030", "12031", "12032"])
    );
    assert!(get_impl_ids(doc.item("1101").unwrap()).is_empty());
    assert!(get_impl_ids(doc.item("0").unwrap()).is_empty());
    assert_eq!(
        id_strings(&vec![num("1"), Json::Null, text("0:2"), Json::Bool(true), num("3")]),
        strings(&["1", "0:2", "3"])
    );
    let (_, an_enum) = item(
        1,
        Some("E"),
        None,
        obj(vec![("enum", obj(vec![("impls", arr(vec![num("8"), num("9")]))]))]),
    );
    assert_eq!(get_impl_ids(&an_enum), strings(&["8", "9"]));
}

#[test]
fn a_trait_tells_the_functions_it_lists() {
    let mut doc = load_rmcp();
    let at = doc.index.iter().position(|(id, _)| id == "50").unwrap();
    doc.index[at].1.inner =
        obj(vec![("trait", obj(vec![("items", ids(&[12015, 9410, 77777, 12020]))]))]);
    let methods = collect_methods(&doc, doc.item("50").unwrap(), &vec![]);
    let names: Vec<&str> = methods.iter().filter_map(|m| m.name.as_deref()).collect();
    assert_eq!(names, vec!["new", "id"]);
    assert!(collect_methods(&doc, doc.item("70").unwrap(), &vec![]).is_empty());
    assert!(collect_trait_impls(&doc, doc.item("70").unwrap(), false).is_empty());
}

#[test]
fn blanket_traits_are_told_apart() {
    for name in ["Any", "Freeze", "Instrument", "RefUnwindSafe", "UnwindSafe", "WithSubscriber"] {
        assert!(is_ubiquitous_blanket(name), "{name}");
    }
    assert!(is_ubiquitous_blanket("core::any::Any"));
    assert!(is_ubiquitous_blanket("From<T>"));
    assert!(is_ubiquitous_blanket("std::convert::Into<U>"));
    assert!(is_ubiquitous_blanket("Borrow< T >"));
    assert!(is_ubiquitous_blanket("TryFrom<never>"));
    assert!(is_ubiquitous_blanket("From<!>"));
    assert!(is_ubiquitous_blanket("Any<Something>"));
    assert!(!is_ubiquitous_blanket("From<t>"));
    assert!(!is_ubiquitous_blanket("From<io::Error>"));
    assert!(!is_ubiquitous_blanket("From<TU>"));
    assert!(!is_ubiquitous_blanket("From<É>"));
    assert!(!is_ubiquitous_blanket("From<T"));
    assert!(!is_ubiquitous_blanket("Send"));
    assert!(!is_ubiquitous_blanket("Anything"));
    assert!(!is_ubiquitous_blanket(""));
    assert!(!is_ubiquitous_blanket(" From<T>"));
}

#[test]
fn methods_are_owned_by_the_type_of_their_inherent_impl() {
    let mut doc = load_rmcp();
    let owners = build_method_parent_map(&doc);
    assert_eq!(owners.len(), 6);
    assert!(owners
        .iter()
        .all(|(_, owner)| owner == "rmcp::transport::child_process::TokioChildProcess"));
    assert_eq!(owners[0].0, "12015");
    // a later impl that lists the same method decides
    doc.index.push(item(
        600,
        None,
        None,
        impl_block(Json::Null, obj(vec![("primitive", text("u8"))]), &[12015], false),
    ));
    let owners = build_method_parent_map(&doc);
    assert_eq!(owners.len(), 6);
    assert_eq!(owners.iter().find(|(id, _)| id == "12015").unwrap().1, "u8");
    assert_eq!(resolve_owner_path(&doc, &child_process_type()), "rmcp::transport::child_process::TokioChildProcess");
    assert_eq!(resolve_owner_path(&doc, &direct(424242, "Unknown", Json::Null)), "Unknown");
    assert_eq!(type_item_id(&child_process_type()), Some("9410".to_string()));
    assert_eq!(type_item_id(&direct(5, "T", Json::Null)), Some("5".to_string()));
    assert_eq!(type_item_id(&obj(vec![("id", num("5"))])), None);
    assert_eq!(type_item_id(&obj(vec![("resolved_path", obj(vec![("id", Json::Null)])), ("id", num("5")), ("path", text("x"))])), None);
    assert_eq!(type_item_id(&Json::Null), None);
}

#[test]
fn implementors_of_a_trait_are_listed() {
    let mut doc = load_rmcp();
    doc.index.push(item(
        700,
        None,
        None,
        obj(vec![(
            "impl",
            obj(vec![
                ("for", obj(vec![("generic", text("T"))])),
                (
                    "generics",
                    obj(vec![("params", arr(vec![generic_param("T", obj(vec![])), generic_param("'a", obj(vec![]))]))]),
                ),
                ("is_synthetic", Json::Bool(false)),
                ("items", arr(vec![])),
                ("trait", direct(5, "Transport", Json::Null)),
            ]),
        )]),
    ));
    let found = find_implementors(&doc, "rmcp::transport::Transport", None, 50);
    let told: Vec<(&str, Option<Vec<String>>)> =
        found.iter().map(|i| (i.for_type.as_str(), i.impl_generics.clone())).collect();
    assert_eq!(
        told,
        vec![("TokioChildProcess", None), ("T", Some(strings(&["T", "'a"])))]
    );
    assert_eq!(find_implementors(&doc, "Transport", None, 1).len(), 1);
    assert_eq!(find_implementors(&doc, "Transport", None, 0).len(), 0);
    assert_eq!(find_implementors(&doc, "Transport", Some("tokio"), 50).len(), 1);
    assert_eq!(find_implementors(&doc, "Transport", Some("nothing"), 50).len(), 0);
    assert_eq!(find_implementors(&doc, "Send", None, 50).len(), 0);
    assert_eq!(find_implementors(&doc, "Sized", None, 50).len(), 0);
    assert_eq!(find_implementors(&doc, "core::any::Any", None, 50).len(), 1);
    assert_eq!(last_segment_of("a::b::C"), "C");
    assert_eq!(last_segment_of("C"), "C");
    assert_eq!(last_segment_of("a::"), "");
}

#[test]
fn implementations_of_a_type_are_listed() {
    let mut doc = load_rmcp();
    let told = |doc: &RustdocJson, search: Option<&str>, limit: usize| -> Vec<(Option<String>, bool)> {
        find_implementations(doc, "rmcp::TokioChildProcess", search, limit)
            .unwrap()
            .into_iter()
            .map(|i| (i.trait_path, i.is_inherent))
            .collect()
    };
    assert_eq!(
        told(&doc, None, 50),
        vec![
            (None, true),
            (Some("From<T>".to_string()), false),
            (Some("Any".to_string()), false),
            (Some("Transport<RoleClient>".to_string()), false),
        ]
    );
    assert_eq!(told(&doc, None, 2).len(), 2);
    assert_eq!(told(&doc, Some("inherent"), 50), vec![(None, true)]);
    assert_eq!(told(&doc, Some("transport"), 50).len(), 1);
    assert!(told(&doc, Some("Transport"), 50).is_empty());
    match find_implementations(&doc, "rmcp::Missing", None, 50) {
        Err(ImplsError::TypeNotFound) => {}
        other => panic!("unexpected: {other:?}"),
    }
    doc.paths.push(path(4242, "struct", &["rmcp", "Elsewhere"]));
    match find_implementations(&doc, "rmcp::Elsewhere", None, 50) {
        Err(ImplsError::NotInIndex { id }) => assert_eq!(id, "4242"),
        other => panic!("unexpected: {other:?}"),
    }
}
