//! End-to-end runs of the engine over representative containers: plain
//! methods, renames, explicit names, generic and impl-trait arguments,
//! mutable-reference arguments, and destructuring-pattern arguments.

use fluent_impl::impl_block::transform;
use fluent_impl::model::{
    Binding, Container, GenKind, GenParam, MetaItem, MethodBody, MethodDecl, Param, ReceiverKind,
    Visibility,
};

fn kv(k: &str, v: &str) -> MetaItem {
    MetaItem::NameStr(k.to_string(), v.to_string())
}

fn ident_param(name: &str, ty: &str) -> Param {
    Param { binding: Binding::Ident(name.to_string()), ty: ty.to_string() }
}

fn pattern_param(pat: &str, ty: &str) -> Param {
    Param { binding: Binding::Pattern(pat.to_string()), ty: ty.to_string() }
}

fn method(
    name: &str,
    vis: Visibility,
    receiver: ReceiverKind,
    ret: Option<&str>,
    params: Vec<Param>,
    generics: Vec<GenParam>,
    attrs: Vec<Vec<MetaItem>>,
) -> MethodDecl {
    MethodDecl {
        name: name.to_string(),
        vis,
        receiver,
        params,
        generics,
        ret: ret.map(|t| t.to_string()),
        doc: None,
        attrs,
        body: MethodBody::Text(String::new()),
    }
}

fn container(self_ty: &str, generics: Vec<GenParam>, methods: Vec<MethodDecl>) -> Container {
    Container {
        self_ty: self_ty.to_string(),
        generics,
        methods,
        doc: None,
        trait_impl: false,
    }
}

fn forward(m: &MethodDecl) -> (&String, &Vec<String>, &Vec<String>) {
    match &m.body {
        MethodBody::Forward(f) => (&f.callee, &f.generics, &f.args),
        MethodBody::Text(_) => panic!("expected a forwarding body"),
    }
}

fn names(ms: &[MethodDecl]) -> Vec<&str> {
    ms.iter().map(|m| m.name.as_str()).collect()
}

#[test]
fn compile_test_run_pass() {
    // Case: explicit name with a container-level prefix override.
    let c = container(
        "Simple",
        vec![],
        vec![
            method(
                "new",
                Visibility::Public,
                ReceiverKind::NoReceiver,
                Some("Self"),
                vec![ident_param("n", "i32")],
                vec![],
                vec![],
            ),
            method(
                "get_num",
                Visibility::Public,
                ReceiverKind::ByRef,
                Some("i32"),
                vec![],
                vec![],
                vec![],
            ),
            method(
                "add_1",
                Visibility::Public,
                ReceiverKind::ByMutRef,
                None,
                vec![],
                vec![],
                vec![vec![kv("name", "ret_with_added_1")]],
            ),
        ],
    );
    let (updated, fresh) = transform(&c, &vec![kv("prefix", "whatever_")]).unwrap();
    assert_eq!(names(&updated.methods), vec!["new", "get_num", "add_1"]);
    let fresh = fresh.unwrap();
    assert_eq!(names(&fresh.methods), vec!["ret_with_added_1"]);
    let gen = &fresh.methods[0];
    assert_eq!(gen.receiver, ReceiverKind::ByValue);
    assert_eq!(gen.ret.as_deref(), Some("Self"));
    let (callee, generics, args) = forward(gen);
    assert_eq!(callee, "add_1");
    assert!(generics.is_empty());
    assert!(args.is_empty());
    assert_eq!(fresh.doc.as_deref(), Some("Chaining (fluent) methods for [`Simple`]."));

    // Case: a trait-bounded generic argument, renamed.
    let c = container(
        "St",
        vec![],
        vec![
            method(
                "get_text",
                Visibility::Public,
                ReceiverKind::ByRef,
                Some("&str"),
                vec![],
                vec![],
                vec![],
            ),
            method(
                "append",
                Visibility::Public,
                ReceiverKind::ByMutRef,
                None,
                vec![ident_param("arg", "S")],
                vec![GenParam { kind: GenKind::Type, ident: "S".to_string() }],
                vec![vec![kv("rename", "appended")]],
            ),
        ],
    );
    let (updated, fresh) = transform(&c, &vec![]).unwrap();
    assert_eq!(names(&updated.methods), vec!["get_text", "append"]);
    let fresh = fresh.unwrap();
    assert_eq!(names(&fresh.methods), vec!["with_appended"]);
    let gen = &fresh.methods[0];
    assert_eq!(gen.generics.len(), 1);
    assert_eq!(gen.generics[0].ident, "S");
    let (callee, generics, args) = forward(gen);
    assert_eq!(callee, "append");
    assert_eq!(generics, &vec!["S".to_string()]);
    assert_eq!(args, &vec!["arg".to_string()]);

    // Case: an impl-trait argument (no named generic parameter).
    let c = container(
        "St",
        vec![],
        vec![method(
            "append",
            Visibility::Public,
            ReceiverKind::ByMutRef,
            None,
            vec![ident_param("arg", "impl Borrow<str>")],
            vec![],
            vec![vec![kv("rename", "appended")]],
        )],
    );
    let (_, fresh) = transform(&c, &vec![]).unwrap();
    let fresh = fresh.unwrap();
    assert_eq!(names(&fresh.methods), vec!["with_appended"]);
    let (callee, generics, args) = forward(&fresh.methods[0]);
    assert_eq!(callee, "append");
    assert!(generics.is_empty());
    assert_eq!(args, &vec!["arg".to_string()]);

    // Case: a second, mutable-reference argument forwarded as-is.
    let c = container(
        "St",
        vec![],
        vec![method(
            "append",
            Visibility::Public,
            ReceiverKind::ByMutRef,
            None,
            vec![ident_param("arg", "S"), ident_param("counter", "&mut usize")],
            vec![GenParam { kind: GenKind::Type, ident: "S".to_string() }],
            vec![vec![kv("rename", "appended")]],
        )],
    );
    let (_, fresh) = transform(&c, &vec![]).unwrap();
    let fresh = fresh.unwrap();
    let (callee, _, args) = forward(&fresh.methods[0]);
    assert_eq!(callee, "append");
    assert_eq!(args, &vec!["arg".to_string(), "counter".to_string()]);

    // Case: destructuring-pattern arguments get fresh positional
    // identifiers; the slot count includes the receiver.
    let c = container(
        "St",
        vec![],
        vec![
            method(
                "append",
                Visibility::Public,
                ReceiverKind::ByMutRef,
                None,
                vec![ident_param("arg", "S"), ident_param("counter", "&mut usize")],
                vec![GenParam { kind: GenKind::Type, ident: "S".to_string() }],
                vec![vec![kv("rename", "appended")]],
            ),
            method(
                "append_tc",
                Visibility::Public,
                ReceiverKind::ByMutRef,
                None,
                vec![
                    ident_param("arg", "S"),
                    pattern_param("TCounter(counter)", "&mut TCounter"),
                ],
                vec![GenParam { kind: GenKind::Type, ident: "S".to_string() }],
                vec![vec![kv("rename", "appended_tc")]],
            ),
            method(
                "append_sc",
                Visibility::Public,
                ReceiverKind::ByMutRef,
                None,
                vec![
                    ident_param("arg", "S"),
                    pattern_param("SCounter { c: counter }", "&mut SCounter"),
                ],
                vec![GenParam { kind: GenKind::Type, ident: "S".to_string() }],
                vec![vec![kv("rename", "appended_sc")]],
            ),
        ],
    );
    let (_, fresh) = transform(&c, &vec![]).unwrap();
    let fresh = fresh.unwrap();
    assert_eq!(
        names(&fresh.methods),
        vec!["with_appended", "with_appended_tc", "with_appended_sc"]
    );
    let (_, _, args) = forward(&fresh.methods[1]);
    assert_eq!(args, &vec!["arg".to_string(), "arg2".to_string()]);
    match &fresh.methods[1].params[1].binding {
        Binding::Ident(s) => assert_eq!(s, "arg2"),
        Binding::Pattern(_) => panic!("pattern should have been replaced"),
    }
    assert_eq!(fresh.methods[1].params[1].ty, "&mut TCounter");

    // Case: container generic parameters and pattern arguments mixed.
    let c = container(
        "St < A >",
        vec![GenParam { kind: GenKind::Type, ident: "A".to_string() }],
        vec![
            method(
                "new",
                Visibility::Public,
                ReceiverKind::NoReceiver,
                Some("Self"),
                vec![ident_param("value", "A"), ident_param("text", "String")],
                vec![],
                vec![],
            ),
            method(
                "get_value",
                Visibility::Public,
                ReceiverKind::ByRef,
                Some("&A"),
                vec![],
                vec![],
                vec![],
            ),
            method(
                "add_value",
                Visibility::Public,
                ReceiverKind::ByMutRef,
                None,
                vec![
                    ident_param("to_be_added", "A"),
                    pattern_param("TCounter(counter)", "&mut TCounter"),
                ],
                vec![],
                vec![vec![kv("rename", "added_value")]],
            ),
            method(
                "append_text",
                Visibility::Public,
                ReceiverKind::ByMutRef,
                None,
                vec![ident_param("arg", "S")],
                vec![GenParam { kind: GenKind::Type, ident: "S".to_string() }],
                vec![vec![kv("rename", "appended_text")]],
            ),
        ],
    );
    let (updated, fresh) = transform(&c, &vec![]).unwrap();
    assert_eq!(
        names(&updated.methods),
        vec!["new", "get_value", "add_value", "append_text"]
    );
    let fresh = fresh.unwrap();
    assert_eq!(names(&fresh.methods), vec!["with_added_value", "with_appended_text"]);
    assert_eq!(fresh.self_ty, "St < A >");
    assert_eq!(fresh.generics.len(), 1);
    assert_eq!(fresh.generics[0].ident, "A");
    let (callee, generics, args) = forward(&fresh.methods[0]);
    assert_eq!(callee, "add_value");
    assert!(generics.is_empty());
    assert_eq!(args, &vec!["to_be_added".to_string(), "arg2".to_string()]);
    // The bare head symbol of the rendered owner type feeds the docs.
    assert_eq!(
        fresh.doc.as_deref(),
        Some("Chaining (fluent) methods for [`St`].")
    );
}
