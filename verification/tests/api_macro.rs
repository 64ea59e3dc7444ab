use mpeix::api_macro::{
    get_query_rename_rules, MethodAttr, argument_kind, check_query_argument, create_fn_block, get_arguments, get_endpoint_url, ident, query_key, query_value,
    unraw, ArgKind, Args, Param,
};

fn segs(s: &[&str]) -> Vec<String> {
    s.iter().map(|x| x.to_string()).collect()
}

fn typed(name: &str, ty: &[&str]) -> Param {
    Param::Typed { name: Some(name.to_string()), type_path: Some(segs(ty)) }
}

fn receiver() -> Param {
    Param::Receiver { mutable: false, reference: true }
}

#[test]
fn raw_prefixes_are_removed() {
    assert_eq!(unraw("r#type"), "type");
    assert_eq!(unraw("r#r#x"), "x");
    assert_eq!(unraw("name"), "name");
    let i = ident("r#type");
    assert!(i.raw);
    assert_eq!(i.text, "type");
    assert!(!ident("name").raw);
}

#[test]
fn endpoints_start_with_a_slash() {
    assert_eq!(get_endpoint_url("/v1/search").unwrap(), "/v1/search");
    assert_eq!(get_endpoint_url("v1/search").unwrap_err(), "Url part should start with a '/'");
}

#[test]
fn argument_kinds() {
    assert_eq!(argument_kind(&segs(&["Path"])), Some(ArgKind::Path));
    assert_eq!(argument_kind(&segs(&["common_api_macro", "Query"])), Some(ArgKind::Query));
    assert_eq!(argument_kind(&segs(&["other", "Body"])), None);
    assert_eq!(argument_kind(&segs(&["String"])), None);
}

#[test]
fn arguments_are_sorted() {
    let params = vec![receiver(), typed("name", &["Path"]), typed("r#type", &["Query"]), typed("q", &["Query"]), typed("payload", &["Body"])];
    let args = get_arguments(&params).unwrap();
    assert_eq!(args.paths, segs(&["name"]));
    assert_eq!(args.queries, segs(&["r#type", "q"]));
    assert_eq!(args.body, Some("payload".to_string()));
}

#[test]
fn arguments_are_refused() {
    assert_eq!(get_arguments(&vec![typed("a", &["Path"])]).unwrap_err(), "&self should be the first paramter");
    assert_eq!(
        get_arguments(&vec![Param::Receiver { mutable: true, reference: true }]).unwrap_err(),
        "Parameter &self should be immutable"
    );
    assert_eq!(
        get_arguments(&vec![Param::Receiver { mutable: false, reference: false }]).unwrap_err(),
        "Parameter &self should be a reference"
    );
    assert_eq!(
        get_arguments(&vec![receiver(), typed("a", &["Body"]), typed("b", &["Body"])]).unwrap_err(),
        "Request can have only one body"
    );
    assert_eq!(
        get_arguments(&vec![receiver(), typed("a", &["String"])]).unwrap_err(),
        "Argument `a` has unsupported type.\nMust be one of the following types: Path, Query, Body"
    );
    assert_eq!(
        get_arguments(&vec![receiver(), Param::Typed { name: None, type_path: None }]).unwrap_err(),
        "Only identifier arguments are supported"
    );
}

#[test]
fn call_plan() {
    let args = Args { paths: segs(&["r#type", "name"]), queries: segs(&["query", "r#type"]), body: None };
    let rules = vec![("query".to_string(), "q".to_string())];
    let plan = create_fn_block("get", "/v1/{type}/{name}", &args, &rules);
    assert_eq!(plan.method, "get");
    assert_eq!(plan.url_template, "{base_url}/v1/{type}/{name}");
    assert_eq!(plan.paths[0].key, "type");
    assert!(plan.paths[0].value.raw);
    assert_eq!(plan.paths[1].key, "name");
    let queries = plan.queries.unwrap();
    assert_eq!(queries[0].key, "q");
    assert_eq!(queries[0].value.text, "query");
    assert_eq!(queries[1].key, "type");
    assert!(plan.body.is_none());
    let no_queries = Args { paths: vec![], queries: vec![], body: Some("b".to_string()) };
    let plan = create_fn_block("get", "/", &no_queries, &vec![]);
    assert!(plan.queries.is_none());
    assert_eq!(plan.body.unwrap().text, "b");
}

#[test]
fn query_attributes() {
    assert_eq!(query_key(Some(&segs(&["q"]))).unwrap(), "q");
    assert!(query_key(Some(&segs(&["a", "b"]))).is_err());
    assert!(query_key(None).is_err());
    assert_eq!(query_value(Some("query")).unwrap(), "query");
    assert!(query_value(None).is_err());
    let params = vec![receiver(), typed("q", &["Query"])];
    assert!(check_query_argument("q", &params).is_ok());
    assert_eq!(check_query_argument("x", &params).unwrap_err(), "Cannot find argument with name `x`");
}

#[test]
fn rename_rules_from_attributes() {
    let attrs = vec![
        MethodAttr { name: Some("get".to_string()), assignment: None },
        MethodAttr { name: Some("query".to_string()), assignment: Some((Some(segs(&["query"])), Some("q".to_string()))) },
        MethodAttr { name: Some("query".to_string()), assignment: Some((Some(segs(&["query"])), Some("term".to_string()))) },
    ];
    let rules = get_query_rename_rules(&attrs).unwrap();
    assert_eq!(rules, vec![("query".to_string(), "q".to_string()), ("query".to_string(), "term".to_string())]);
    let args = Args { paths: vec![], queries: segs(&["query"]), body: None };
    let plan = create_fn_block("get", "/search", &args, &rules);
    assert_eq!(plan.queries.unwrap()[0].key, "term");
    let bad = vec![MethodAttr { name: Some("query".to_string()), assignment: None }];
    assert_eq!(get_query_rename_rules(&bad).unwrap_err(), "Expected `key = \"value\"` in query attribute");
}
