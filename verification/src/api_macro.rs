//! The plan of the HTTP call that the `get` attribute of the API description generates
//! for a method: which parameters fill the URL's path, which become query pairs and which
//! is the body, checked the way the attribute checks them.
use vstd::prelude::*;
use crate::text::{chars_of, copy_string, push_str, str_equals, string_from_chars};

verus! {

/// `s` with every leading `r#` removed, as `trim_start_matches("r#")` does.
pub open spec fn unraw_spec(s: Seq<char>) -> Seq<char>
    decreases s.len(),
{
    if s.len() >= 2 && s[0] == 'r' && s[1] == '#' {
        unraw_spec(s.skip(2))
    } else {
        s
    }
}

/// Removes every leading `r#`.
pub fn unraw(s: &str) -> (r: String)
    ensures
        r@ == unraw_spec(s@),
{
    let v = chars_of(s);
    let mut i: usize = 0;
    assert(v@.skip(0) =~= v@);
    while v.len() - i >= 2 && v[i] == 'r' && v[i + 1] == '#'
        invariant
            i <= v@.len(),
            unraw_spec(v@) == unraw_spec(v@.skip(i as int)),
        decreases v@.len() - i,
    {
        assert(v@.skip(i as int).skip(2) =~= v@.skip(i + 2));
        i = i + 2;
    }
    let rest = v.as_slice().split_at(i).1;
    assert(rest@ =~= v@.skip(i as int));
    string_from_chars(rest)
}

/// An identifier in generated code: its text and whether it is written raw (`r#...`).
#[derive(Debug)]
pub struct GeneratedIdent {
    pub text: String,
    pub raw: bool,
}

/// A name starting with `r#` becomes a raw identifier of the name without it.
pub open spec fn ident_raw(name: Seq<char>) -> bool {
    name.len() >= 2 && name[0] == 'r' && name[1] == '#'
}

pub open spec fn ident_text(name: Seq<char>) -> Seq<char> {
    if ident_raw(name) { unraw_spec(name) } else { name }
}

/// The identifier a parameter name is written as.
pub fn ident(name: &str) -> (r: GeneratedIdent)
    ensures
        r.raw == ident_raw(name@),
        r.text@ == ident_text(name@),
{
    let v = chars_of(name);
    if v.len() >= 2 && v[0] == 'r' && v[1] == '#' {
        GeneratedIdent { text: unraw(name), raw: true }
    } else {
        GeneratedIdent { text: copy_string(name), raw: false }
    }
}

/// The URL of an endpoint must start with a slash.
pub fn get_endpoint_url(url: &str) -> (r: Result<String, String>)
    ensures
        url@.len() > 0 && url@[0] == '/' ==> (r matches Ok(u) && u@ == url@),
        !(url@.len() > 0 && url@[0] == '/') ==> (r matches Err(m) && m@ == "Url part should start with a '/'"@),
{
    let v = chars_of(url);
    if v.len() > 0 && v[0] == '/' {
        Ok(copy_string(url))
    } else {
        Err(copy_string("Url part should start with a '/'"))
    }
}

/// Kind of a parameter of an API method.
#[derive(Clone, Copy, PartialEq, Eq, Structural, Debug)]
pub enum ArgKind {
    Path,
    Query,
    Body,
}

/// The kind a parameter's type names: `Path`, `Query` or `Body`, alone or behind
/// `common_api_macro::`.
pub open spec fn arg_kind_spec(segments: Seq<Seq<char>>) -> Option<ArgKind> {
    let name = if segments.len() == 2 && segments[0] == "common_api_macro"@ {
        Some(segments[1])
    } else if segments.len() == 1 {
        Some(segments[0])
    } else {
        None
    };
    match name {
        Some(n) => if n == "Path"@ {
            Some(ArgKind::Path)
        } else if n == "Query"@ {
            Some(ArgKind::Query)
        } else if n == "Body"@ {
            Some(ArgKind::Body)
        } else {
            None
        },
        None => None,
    }
}

pub open spec fn segments_view(s: Seq<String>) -> Seq<Seq<char>> {
    s.map_values(|x: String| x@)
}

pub fn argument_kind(segments: &Vec<String>) -> (r: Option<ArgKind>)
    ensures
        r == arg_kind_spec(segments_view(segments@)),
{
    let ghost sv = segments_view(segments@);
    let name: Option<&String> = if segments.len() == 2 && str_equals(segments[0].as_str(), "common_api_macro") {
        Some(&segments[1])
    } else if segments.len() == 1 {
        Some(&segments[0])
    } else {
        None
    };
    proof {
        if segments@.len() >= 1 {
            assert(sv[0] == segments@[0]@);
        }
        if segments@.len() >= 2 {
            assert(sv[1] == segments@[1]@);
        }
    }
    match name {
        Some(n) => if str_equals(n.as_str(), "Path") {
            Some(ArgKind::Path)
        } else if str_equals(n.as_str(), "Query") {
            Some(ArgKind::Query)
        } else if str_equals(n.as_str(), "Body") {
            Some(ArgKind::Body)
        } else {
            None
        },
        None => None,
    }
}

/// A parameter of an API method, as far as the attribute reads it.
#[derive(Debug)]
pub enum Param {
    /// The `self` parameter.
    Receiver { mutable: bool, reference: bool },
    /// A typed parameter: its name where the pattern is an identifier, and the segments of
    /// its type where the type is a path.
    Typed { name: Option<String>, type_path: Option<Vec<String>> },
}

/// The parameters of an API method, sorted by what they fill.
#[derive(Debug)]
pub struct Args {
    pub paths: Vec<String>,
    pub queries: Vec<String>,
    pub body: Option<String>,
}

/// Abstract value of [Args].
pub struct ArgsView {
    pub paths: Seq<Seq<char>>,
    pub queries: Seq<Seq<char>>,
    pub body: Option<Seq<char>>,
}

impl View for Args {
    type V = ArgsView;

    open spec fn view(&self) -> ArgsView {
        ArgsView {
            paths: segments_view(self.paths@),
            queries: segments_view(self.queries@),
            body: match self.body { Some(b) => Some(b@), None => None },
        }
    }
}

pub open spec fn first_param_message() -> Seq<char> {
    "&self should be the first paramter"@
}

/// The message for a parameter of a type the attribute cannot use.
pub open spec fn unsupported_type_message(name: Seq<char>) -> Seq<char> {
    "Argument `"@ + name + "` has unsupported type.\nMust be one of the following types: Path, Query, Body"@
}

/// Reads the parameter at position `i` into the parameters read so far.
pub open spec fn param_step(args: ArgsView, i: int, p: Param) -> Result<ArgsView, Seq<char>> {
    match p {
        Param::Receiver { mutable, reference } => if i != 0 {
            Err(first_param_message())
        } else if mutable {
            Err("Parameter &self should be immutable"@)
        } else if !reference {
            Err("Parameter &self should be a reference"@)
        } else {
            Ok(args)
        },
        Param::Typed { name, type_path } => if i == 0 {
            Err(first_param_message())
        } else {
            match name {
                None => Err("Only identifier arguments are supported"@),
                Some(n) => match type_path {
                    None => Err(unsupported_type_message(n@)),
                    Some(segments) => match arg_kind_spec(segments_view(segments@)) {
                        Some(ArgKind::Path) => Ok(ArgsView { paths: args.paths.push(n@), ..args }),
                        Some(ArgKind::Query) => Ok(ArgsView { queries: args.queries.push(n@), ..args }),
                        Some(ArgKind::Body) => if args.body is None {
                            Ok(ArgsView { body: Some(n@), ..args })
                        } else {
                            Err("Request can have only one body"@)
                        },
                        None => Err(unsupported_type_message(n@)),
                    },
                },
            }
        },
    }
}

/// Reads the parameters in order; the first refusal wins.
pub open spec fn args_spec(params: Seq<Param>) -> Result<ArgsView, Seq<char>>
    decreases params.len(),
{
    if params.len() == 0 {
        Ok(ArgsView { paths: Seq::empty(), queries: Seq::empty(), body: None })
    } else {
        match args_spec(params.drop_last()) {
            Err(m) => Err(m),
            Ok(a) => param_step(a, params.len() - 1, params.last()),
        }
    }
}

proof fn lemma_args_refused(params: Seq<Param>, k: int, m: Seq<char>)
    requires
        0 <= k <= params.len(),
        args_spec(params.take(k)) == Err::<ArgsView, Seq<char>>(m),
    ensures
        args_spec(params) == Err::<ArgsView, Seq<char>>(m),
    decreases params.len() - k,
{
    if k == params.len() {
        assert(params.take(k) =~= params);
    } else {
        assert(params.take(k + 1).drop_last() =~= params.take(k));
        lemma_args_refused(params, k + 1, m);
    }
}

fn unsupported_type(name: &str) -> (r: String)
    ensures
        r@ == unsupported_type_message(name@),
{
    let mut m = String::new();
    push_str(&mut m, "Argument `");
    push_str(&mut m, name);
    push_str(&mut m, "` has unsupported type.\nMust be one of the following types: Path, Query, Body");
    assert(m@ =~= unsupported_type_message(name@));
    m
}

/// Sorts the parameters of an API method into path, query and body parameters, refusing a
/// `self` that is not first, mutable or not a reference, a parameter that is not an
/// identifier, a type other than `Path`, `Query` or `Body`, and a second body.
pub fn get_arguments(params: &Vec<Param>) -> (r: Result<Args, String>)
    ensures
        match args_spec(params@) {
            Ok(a) => r matches Ok(x) && x@ == a,
            Err(m) => r matches Err(x) && x@ == m,
        },
{
    let mut args = Args { paths: Vec::new(), queries: Vec::new(), body: None };
    let mut i: usize = 0;
    assert(params@.take(0) =~= Seq::<Param>::empty());
    assert(args@.paths =~= Seq::<Seq<char>>::empty());
    assert(args@.queries =~= Seq::<Seq<char>>::empty());
    while i < params.len()
        invariant
            i <= params@.len(),
            args_spec(params@.take(i as int)) == Ok::<ArgsView, Seq<char>>(args@),
        decreases params@.len() - i,
    {
        assert(params@.take(i + 1).drop_last() =~= params@.take(i as int));
        assert(params@.take(i + 1).last() == params@[i as int]);
        let step: Result<(), String> = match &params[i] {
            Param::Receiver { mutable, reference } => {
                if i != 0 {
                    Err(copy_string("&self should be the first paramter"))
                } else if *mutable {
                    Err(copy_string("Parameter &self should be immutable"))
                } else if !*reference {
                    Err(copy_string("Parameter &self should be a reference"))
                } else {
                    Ok(())
                }
            },
            Param::Typed { name, type_path } => {
                if i == 0 {
                    Err(copy_string("&self should be the first paramter"))
                } else {
                    match name {
                        None => Err(copy_string("Only identifier arguments are supported")),
                        Some(n) => match type_path {
                            None => Err(unsupported_type(n.as_str())),
                            Some(segments) => match argument_kind(segments) {
                                Some(ArgKind::Path) => {
                                    let ghost before = args@;
                                    args.paths.push(copy_string(n.as_str()));
                                    assert(args@.paths =~= before.paths.push(n@));
                                    Ok(())
                                },
                                Some(ArgKind::Query) => {
                                    let ghost before = args@;
                                    args.queries.push(copy_string(n.as_str()));
                                    assert(args@.queries =~= before.queries.push(n@));
                                    Ok(())
                                },
                                Some(ArgKind::Body) => {
                                    if args.body.is_none() {
                                        args.body = Some(copy_string(n.as_str()));
                                        Ok(())
                                    } else {
                                        Err(copy_string("Request can have only one body"))
                                    }
                                },
                                None => Err(unsupported_type(n.as_str())),
                            },
                        },
                    }
                }
            },
        };
        match step {
            Err(m) => {
                proof {
                    lemma_args_refused(params@, i + 1, m@);
                }
                return Err(m);
            },
            Ok(()) => {},
        }
        i = i + 1;
    }
    assert(params@.take(i as int) =~= params@);
    Ok(args)
}

/// The value the rename rules give `key`: the last rule for it wins.
pub open spec fn rule_for(rules: Seq<(Seq<char>, Seq<char>)>, key: Seq<char>) -> Option<Seq<char>>
    decreases rules.len(),
{
    if rules.len() == 0 {
        None
    } else if rules.last().0 == key {
        Some(rules.last().1)
    } else {
        rule_for(rules.drop_last(), key)
    }
}

pub open spec fn rules_view(rules: Seq<(String, String)>) -> Seq<(Seq<char>, Seq<char>)> {
    rules.map_values(|r: (String, String)| (r.0@, r.1@))
}

fn find_rule<'a>(rules: &'a Vec<(String, String)>, key: &str) -> (r: Option<&'a String>)
    ensures
        match r {
            Some(v) => rule_for(rules_view(rules@), key@) == Some(v@),
            None => rule_for(rules_view(rules@), key@) is None,
        },
{
    let ghost rv = rules_view(rules@);
    let mut i: usize = rules.len();
    assert(rv.take(i as int) =~= rv);
    while i > 0
        invariant
            i <= rules@.len(),
            rv == rules_view(rules@),
            rule_for(rv, key@) == rule_for(rv.take(i as int), key@),
        decreases i,
    {
        assert(rv.take(i as int).last() == rv[i - 1]);
        assert(rv.take(i as int).drop_last() =~= rv.take(i - 1));
        if str_equals(rules[i - 1].0.as_str(), key) {
            return Some(&rules[i - 1].1);
        }
        i = i - 1;
    }
    None
}

/// A query pair of the generated call: the query key and the parameter passed as value.
#[derive(Debug)]
pub struct QueryPair {
    pub key: String,
    pub value: GeneratedIdent,
}

/// A path substitution of the generated call: the placeholder and the parameter filling it.
#[derive(Debug)]
pub struct PathSubstitution {
    pub key: String,
    pub value: GeneratedIdent,
}

/// The HTTP call a method of the API description makes.
#[derive(Debug)]
pub struct RequestPlan {
    pub method: String,
    /// The URL format: `{base_url}` followed by the endpoint.
    pub url_template: String,
    pub paths: Vec<PathSubstitution>,
    /// `None` for a method without query parameters.
    pub queries: Option<Vec<QueryPair>>,
    pub body: Option<GeneratedIdent>,
}

/// The key of the query pair of parameter `name`: its renamed key where a rule renames it,
/// else its name, without leading `r#`.
pub open spec fn query_key_spec(rules: Seq<(Seq<char>, Seq<char>)>, name: Seq<char>) -> Seq<char> {
    match rule_for(rules, name) {
        Some(k) => unraw_spec(k),
        None => unraw_spec(name),
    }
}

/// Plans the call a method makes: the URL format from the endpoint, a path substitution per
/// path parameter, a query pair per query parameter (none at all when there is none), and
/// the body parameter.
pub fn create_fn_block(method: &str, endpoint_url: &str, args: &Args, rules: &Vec<(String, String)>) -> (r: RequestPlan)
    ensures
        r.method@ == method@,
        r.url_template@ == "{base_url}"@ + endpoint_url@,
        r.paths@.len() == args.paths@.len(),
        forall|i: int| 0 <= i < args.paths@.len() ==> {
            &&& (#[trigger] r.paths@[i]).key@ == unraw_spec(args.paths@[i]@)
            &&& r.paths@[i].value.text@ == ident_text(args.paths@[i]@)
            &&& r.paths@[i].value.raw == ident_raw(args.paths@[i]@)
        },
        args.queries@.len() == 0 ==> r.queries is None,
        args.queries@.len() > 0 ==> (r.queries matches Some(qs) && qs@.len() == args.queries@.len()
            && forall|i: int| 0 <= i < args.queries@.len() ==> {
                &&& (#[trigger] qs@[i]).key@ == query_key_spec(rules_view(rules@), args.queries@[i]@)
                &&& qs@[i].value.text@ == ident_text(args.queries@[i]@)
                &&& qs@[i].value.raw == ident_raw(args.queries@[i]@)
            }),
        match args.body {
            Some(b) => r.body matches Some(i) && i.text@ == ident_text(b@) && i.raw == ident_raw(b@),
            None => r.body is None,
        },
{
    let mut paths: Vec<PathSubstitution> = Vec::new();
    let mut i: usize = 0;
    while i < args.paths.len()
        invariant
            i <= args.paths@.len(),
            paths@.len() == i,
            forall|j: int| 0 <= j < i ==> {
                &&& (#[trigger] paths@[j]).key@ == unraw_spec(args.paths@[j]@)
                &&& paths@[j].value.text@ == ident_text(args.paths@[j]@)
                &&& paths@[j].value.raw == ident_raw(args.paths@[j]@)
            },
        decreases args.paths@.len() - i,
    {
        let name = args.paths[i].as_str();
        paths.push(PathSubstitution { key: unraw(name), value: ident(name) });
        i = i + 1;
    }
    let queries = if args.queries.len() == 0 {
        None
    } else {
        let mut qs: Vec<QueryPair> = Vec::new();
        let mut k: usize = 0;
        while k < args.queries.len()
            invariant
                k <= args.queries@.len(),
                qs@.len() == k,
                forall|j: int| 0 <= j < k ==> {
                    &&& (#[trigger] qs@[j]).key@ == query_key_spec(rules_view(rules@), args.queries@[j]@)
                    &&& qs@[j].value.text@ == ident_text(args.queries@[j]@)
                    &&& qs@[j].value.raw == ident_raw(args.queries@[j]@)
                },
            decreases args.queries@.len() - k,
        {
            let name = args.queries[k].as_str();
            let key = match find_rule(rules, name) {
                Some(renamed) => unraw(renamed.as_str()),
                None => unraw(name),
            };
            qs.push(QueryPair { key, value: ident(name) });
            k = k + 1;
        }
        Some(qs)
    };
    let mut url_template = String::new();
    push_str(&mut url_template, "{base_url}");
    push_str(&mut url_template, endpoint_url);
    let body = match &args.body {
        Some(b) => Some(ident(b.as_str())),
        None => None,
    };
    RequestPlan { method: copy_string(method), url_template, paths, queries, body }
}

/// The key of a `key = "value"` query attribute: its left side must be a path of one
/// segment (given here as the path's segments, or `None` for any other expression).
pub fn query_key(left: Option<&Vec<String>>) -> (r: Result<String, String>)
    ensures
        match left {
            Some(segments) => if segments@.len() == 1 {
                r matches Ok(k) && k@ == segments@[0]@
            } else {
                r matches Err(m) && m@ == "Left part of query attribute should be identifier"@
            },
            None => r matches Err(m) && m@ == "Left part of query attribute should be identifier"@,
        },
{
    match left {
        Some(segments) => if segments.len() == 1 {
            Ok(copy_string(segments[0].as_str()))
        } else {
            Err(copy_string("Left part of query attribute should be identifier"))
        },
        None => Err(copy_string("Left part of query attribute should be identifier")),
    }
}

/// The value of a `key = "value"` query attribute: its right side must be a string literal
/// (given here as the literal's value, or `None` for any other expression).
pub fn query_value(right: Option<&str>) -> (r: Result<String, String>)
    ensures
        match right {
            Some(v) => r matches Ok(x) && x@ == v@,
            None => r matches Err(m) && m@ == "Right part of query attribute should be identifier string literal"@,
        },
{
    match right {
        Some(v) => Ok(copy_string(v)),
        None => Err(copy_string("Right part of query attribute should be identifier string literal")),
    }
}

/// A method has a typed parameter named `key`.
pub open spec fn has_param_named(params: Seq<Param>, key: Seq<char>) -> bool {
    exists|i: int| 0 <= i < params.len() && (#[trigger] params[i] matches Param::Typed { name: Some(n), .. } && n@ == key)
}

/// The `query` attribute requires a parameter with the name it renames.
pub fn check_query_argument(key: &str, params: &Vec<Param>) -> (r: Result<(), String>)
    ensures
        has_param_named(params@, key@) ==> r is Ok,
        !has_param_named(params@, key@) ==> (r matches Err(m) && m@ == "Cannot find argument with name `"@ + key@ + "`"@),
{
    let mut i: usize = 0;
    while i < params.len()
        invariant
            i <= params@.len(),
            forall|j: int| 0 <= j < i ==> !(#[trigger] params@[j] matches Param::Typed { name: Some(n), .. } && n@ == key@),
        decreases params@.len() - i,
    {
        match &params[i] {
            Param::Typed { name: Some(n), .. } => {
                if str_equals(n.as_str(), key) {
                    return Ok(());
                }
            },
            _ => {},
        }
        i = i + 1;
    }
    let mut m = String::new();
    push_str(&mut m, "Cannot find argument with name `");
    push_str(&mut m, key);
    push_str(&mut m, "`");
    assert(m@ =~= "Cannot find argument with name `"@ + key@ + "`"@);
    Err(m)
}

/// An attribute of an API method, as far as the rename rules read it: its name where its
/// path is one identifier, and, where its arguments parse as `(key = value)`, the segments of
/// the key's path (`None` for another expression) and the value's string literal (`None` for
/// another expression).
#[derive(Debug)]
pub struct MethodAttr {
    pub name: Option<String>,
    pub assignment: Option<(Option<Vec<String>>, Option<String>)>,
}

pub open spec fn assignment_message() -> Seq<char> {
    "Expected `key = \"value\"` in query attribute"@
}

pub open spec fn left_message() -> Seq<char> {
    "Left part of query attribute should be identifier"@
}

pub open spec fn right_message() -> Seq<char> {
    "Right part of query attribute should be identifier string literal"@
}

/// The rename rule a `query` attribute gives, or why it is refused; `None` for another attribute.
pub open spec fn attr_rule(a: MethodAttr) -> Option<Result<(Seq<char>, Seq<char>), Seq<char>>> {
    match a.name {
        Some(n) => if n@ == "query"@ {
            Some(match a.assignment {
                None => Err(assignment_message()),
                Some((left, right)) => match left {
                    Some(segments) => if segments@.len() == 1 {
                        match right {
                            Some(v) => Ok((segments@[0]@, v@)),
                            None => Err(right_message()),
                        }
                    } else {
                        Err(left_message())
                    },
                    None => Err(left_message()),
                },
            })
        } else {
            None
        },
        None => None,
    }
}

/// The rename rules of the attributes in order; the first refusal wins.
pub open spec fn rules_spec(attrs: Seq<MethodAttr>) -> Result<Seq<(Seq<char>, Seq<char>)>, Seq<char>>
    decreases attrs.len(),
{
    if attrs.len() == 0 {
        Ok(Seq::empty())
    } else {
        match rules_spec(attrs.drop_last()) {
            Err(m) => Err(m),
            Ok(rules) => match attr_rule(attrs.last()) {
                None => Ok(rules),
                Some(Err(m)) => Err(m),
                Some(Ok(rule)) => Ok(rules.push(rule)),
            },
        }
    }
}

proof fn lemma_rules_refused(attrs: Seq<MethodAttr>, k: int, m: Seq<char>)
    requires
        0 <= k <= attrs.len(),
        rules_spec(attrs.take(k)) == Err::<Seq<(Seq<char>, Seq<char>)>, Seq<char>>(m),
    ensures
        rules_spec(attrs) == Err::<Seq<(Seq<char>, Seq<char>)>, Seq<char>>(m),
    decreases attrs.len() - k,
{
    if k == attrs.len() {
        assert(attrs.take(k) =~= attrs);
    } else {
        assert(attrs.take(k + 1).drop_last() =~= attrs.take(k));
        lemma_rules_refused(attrs, k + 1, m);
    }
}

/// The query rename rules of a method's `query` attributes, in order (where a key repeats,
/// the last rule for it is the one [rule_for] finds).
pub fn get_query_rename_rules(attrs: &Vec<MethodAttr>) -> (r: Result<Vec<(String, String)>, String>)
    ensures
        match rules_spec(attrs@) {
            Ok(rules) => r matches Ok(v) && rules_view(v@) == rules,
            Err(m) => r matches Err(x) && x@ == m,
        },
{
    let mut rules: Vec<(String, String)> = Vec::new();
    let mut i: usize = 0;
    assert(attrs@.take(0) =~= Seq::<MethodAttr>::empty());
    assert(rules_view(rules@) =~= Seq::<(Seq<char>, Seq<char>)>::empty());
    while i < attrs.len()
        invariant
            i <= attrs@.len(),
            rules_spec(attrs@.take(i as int)) == Ok::<Seq<(Seq<char>, Seq<char>)>, Seq<char>>(rules_view(rules@)),
        decreases attrs@.len() - i,
    {
        assert(attrs@.take(i + 1).drop_last() =~= attrs@.take(i as int));
        assert(attrs@.take(i + 1).last() == attrs@[i as int]);
        let a = &attrs[i];
        let is_query = match &a.name {
            Some(n) => str_equals(n.as_str(), "query"),
            None => false,
        };
        if is_query {
            let step: Result<(String, String), String> = match &a.assignment {
                None => Err(copy_string("Expected `key = \"value\"` in query attribute")),
                Some((left, right)) => match query_key(left.as_ref()) {
                    Err(m) => Err(m),
                    Ok(k) => match query_value(match right { Some(v) => Some(v.as_str()), None => None }) {
                        Err(m) => Err(m),
                        Ok(v) => Ok((k, v)),
                    },
                },
            };
            match step {
                Err(m) => {
                    proof {
                        lemma_rules_refused(attrs@, i + 1, m@);
                    }
                    return Err(m);
                },
                Ok(rule) => {
                    let ghost before = rules_view(rules@);
                    rules.push(rule);
                    assert(rules_view(rules@) =~= before.push((rules@.last().0@, rules@.last().1@)));
                },
            }
        }
        i = i + 1;
    }
    assert(attrs@.take(i as int) =~= attrs@);
    Ok(rules)
}

} // verus!
