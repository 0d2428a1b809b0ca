//! Placement, eligibility and synthesis scenarios for the engine.

use fluent_impl::impl_block::{gen_fluent_from_impl_block, transform};
use fluent_impl::model::{
    Binding, Container, Error, GenParam, MetaItem, MethodBody, MethodDecl, Param, ReceiverKind,
    Visibility,
};

fn word(w: &str) -> MetaItem {
    MetaItem::Word(w.to_string())
}

fn kv(k: &str, v: &str) -> MetaItem {
    MetaItem::NameStr(k.to_string(), v.to_string())
}

fn chainable(name: &str, attrs: Vec<Vec<MetaItem>>) -> MethodDecl {
    MethodDecl {
        name: name.to_string(),
        vis: Visibility::Public,
        receiver: ReceiverKind::ByMutRef,
        params: vec![],
        generics: vec![],
        ret: None,
        doc: None,
        attrs,
        body: MethodBody::Text(String::new()),
    }
}

fn non_chainable(name: &str, receiver: ReceiverKind, ret: Option<&str>) -> MethodDecl {
    MethodDecl {
        name: name.to_string(),
        vis: Visibility::Public,
        receiver,
        params: vec![],
        generics: vec![],
        ret: ret.map(|t| t.to_string()),
        doc: None,
        attrs: vec![],
        body: MethodBody::Text(String::new()),
    }
}

fn container(methods: Vec<MethodDecl>) -> Container {
    Container {
        self_ty: "Simple".to_string(),
        generics: vec![],
        methods,
        doc: None,
        trait_impl: false,
    }
}

fn names(ms: &[MethodDecl]) -> Vec<&str> {
    ms.iter().map(|m| m.name.as_str()).collect()
}

#[test]
fn non_chainable_receivers_generate_nothing() {
    // By-value, by-shared-reference and missing receivers, and a
    // non-unit return: no counterpart anywhere.
    let c = container(vec![
        non_chainable("by_value", ReceiverKind::ByValue, None),
        non_chainable("by_ref", ReceiverKind::ByRef, None),
        non_chainable("no_receiver", ReceiverKind::NoReceiver, None),
        non_chainable("returns", ReceiverKind::ByMutRef, Some("u32")),
    ]);
    let (updated, fresh) = transform(&c, &vec![]).unwrap();
    assert_eq!(
        names(&updated.methods),
        vec!["by_value", "by_ref", "no_receiver", "returns"]
    );
    assert!(fresh.is_none());
}

#[test]
fn default_placement_new_sibling_in_source_order() {
    // Container `inblock` unset, no method overriding it: everything
    // generated goes to the sibling, sources untouched and in order.
    let c = container(vec![
        chainable("a", vec![]),
        non_chainable("b", ReceiverKind::ByRef, Some("u32")),
        chainable("c", vec![]),
    ]);
    let (updated, fresh) = transform(&c, &vec![]).unwrap();
    assert_eq!(names(&updated.methods), vec!["a", "b", "c"]);
    let fresh = fresh.unwrap();
    assert_eq!(names(&fresh.methods), vec!["with_a", "with_c"]);
    assert_eq!(fresh.self_ty, "Simple");
    assert!(!fresh.trait_impl);
}

#[test]
fn inblock_interleaves_counterparts() {
    // Chainable, non-chainable, chainable under container `inblock`:
    // one container ordered source-then-counterpart, no sibling.
    let c = container(vec![
        chainable("a", vec![]),
        non_chainable("b", ReceiverKind::ByRef, Some("u32")),
        chainable("c", vec![]),
    ]);
    let (updated, fresh) = transform(&c, &vec![word("inblock")]).unwrap();
    assert_eq!(names(&updated.methods), vec!["a", "with_a", "b", "c", "with_c"]);
    assert!(fresh.is_none());
}

#[test]
fn method_inblock_override_mixes_placements() {
    // Container default sends counterparts to the sibling, but one
    // method overrides to in-place: both outputs are non-empty.
    let c = container(vec![
        chainable("a", vec![vec![word("inblock")]]),
        chainable("b", vec![]),
    ]);
    let (updated, fresh) = transform(&c, &vec![]).unwrap();
    assert_eq!(names(&updated.methods), vec!["a", "with_a", "b"]);
    let fresh = fresh.unwrap();
    assert_eq!(names(&fresh.methods), vec!["with_b"]);
}

#[test]
fn with_add_scenario_doc_and_body() {
    // Public `add` takes `&mut self` and returns nothing; the default
    // prefix gives `with_add`, consuming the owner and returning it.
    let c = container(vec![chainable("add", vec![])]);
    let (updated, fresh) = transform(&c, &vec![]).unwrap();
    assert_eq!(names(&updated.methods), vec!["add"]);
    let fresh = fresh.unwrap();
    let gen = &fresh.methods[0];
    assert_eq!(gen.name, "with_add");
    assert_eq!(gen.receiver, ReceiverKind::ByValue);
    assert_eq!(gen.ret.as_deref(), Some("Self"));
    match &gen.body {
        MethodBody::Forward(f) => {
            assert_eq!(f.callee, "add");
            assert!(f.generics.is_empty());
            assert!(f.args.is_empty());
        },
        MethodBody::Text(_) => panic!("expected a forwarding body"),
    }
    assert_eq!(
        gen.doc.as_deref(),
        Some(
            "The chaining (fluent) equivalent of [`add()`].\n\n [`add`]: Simple::add\n [`add()`]: Simple::add"
        )
    );
}

#[test]
fn skip_suppresses_generation() {
    let c = container(vec![
        chainable("kept", vec![]),
        chainable("skipped", vec![vec![word("skip")]]),
    ]);
    let (updated, fresh) = transform(&c, &vec![]).unwrap();
    assert_eq!(names(&updated.methods), vec!["kept", "skipped"]);
    let fresh = fresh.unwrap();
    assert_eq!(names(&fresh.methods), vec!["with_kept"]);
}

#[test]
fn skip_suppresses_generation_inblock_too() {
    let c = container(vec![chainable("skipped", vec![vec![word("skip")]])]);
    let (updated, fresh) = transform(&c, &vec![word("inblock")]).unwrap();
    assert_eq!(names(&updated.methods), vec!["skipped"]);
    assert!(fresh.is_none());
}

#[test]
fn restricted_visibility_needs_non_public() {
    let restricted = MethodDecl {
        vis: Visibility::Restricted,
        ..chainable("hidden", vec![])
    };
    let c = container(vec![restricted]);
    let (updated, fresh) = transform(&c, &vec![]).unwrap();
    assert_eq!(names(&updated.methods), vec!["hidden"]);
    assert!(fresh.is_none());

    // Method-level `non_public` turns generation on.
    let restricted = MethodDecl {
        vis: Visibility::Restricted,
        ..chainable("hidden", vec![vec![word("non_public")]])
    };
    let c = container(vec![restricted]);
    let (_, fresh) = transform(&c, &vec![]).unwrap();
    assert_eq!(names(&fresh.unwrap().methods), vec!["with_hidden"]);

    // Container-level `non_public` does too.
    let restricted = MethodDecl {
        vis: Visibility::Restricted,
        ..chainable("hidden", vec![])
    };
    let c = container(vec![restricted]);
    let (_, fresh) = transform(&c, &vec![word("non_public")]).unwrap();
    assert_eq!(names(&fresh.unwrap().methods), vec!["with_hidden"]);
}

#[test]
fn pattern_parameter_gets_fresh_identifier() {
    // A destructuring pattern is re-bound to a fresh positional
    // identifier with the same type and position; the forwarding call
    // uses it in that position.
    let mut m = chainable("feed", vec![]);
    m.params = vec![
        Param { binding: Binding::Ident("plain".to_string()), ty: "u32".to_string() },
        Param { binding: Binding::Pattern("(a, b)".to_string()), ty: "(u32, u32)".to_string() },
    ];
    let c = container(vec![m]);
    let (_, fresh) = transform(&c, &vec![]).unwrap();
    let fresh = fresh.unwrap();
    let gen = &fresh.methods[0];
    assert_eq!(gen.params.len(), 2);
    match &gen.params[0].binding {
        Binding::Ident(s) => assert_eq!(s, "plain"),
        Binding::Pattern(_) => panic!("identifier binding must be kept"),
    }
    match &gen.params[1].binding {
        Binding::Ident(s) => assert_eq!(s, "arg2"),
        Binding::Pattern(_) => panic!("pattern binding must be replaced"),
    }
    assert_eq!(gen.params[1].ty, "(u32, u32)");
    match &gen.body {
        MethodBody::Forward(f) => {
            assert_eq!(f.args, vec!["plain".to_string(), "arg2".to_string()])
        },
        MethodBody::Text(_) => panic!("expected a forwarding body"),
    }
}

#[test]
fn trait_container_is_rejected() {
    let mut c = container(vec![chainable("a", vec![])]);
    c.trait_impl = true;
    match transform(&c, &vec![]) {
        Err(Error::IneligibleInput) => (),
        other => panic!("expected the ineligible-input error, got {:?}", other),
    }
}

#[test]
fn empty_owner_type_fails_only_when_generating() {
    // An owner type rendering to empty text is an error once a method
    // is selected...
    let mut c = container(vec![chainable("a", vec![])]);
    c.self_ty = String::new();
    match transform(&c, &vec![]) {
        Err(Error::TypeRender) => (),
        other => panic!("expected the type-render error, got {:?}", other),
    }
    // ... and passes silently while nothing is generated.
    let mut c = container(vec![non_chainable("g", ReceiverKind::ByRef, Some("u32"))]);
    c.self_ty = String::new();
    let (updated, fresh) = transform(&c, &vec![]).unwrap();
    assert_eq!(names(&updated.methods), vec!["g"]);
    assert!(fresh.is_none());
}

#[test]
fn doc_override_and_impl_doc_templates() {
    // Method-level doc template override, and a container impl_doc
    // template, both with placeholders substituted.
    let c = container(vec![chainable(
        "grow",
        vec![vec![kv("doc", "Grows %t% via %f%.")]],
    )]);
    let (_, fresh) = transform(
        &c,
        &vec![kv("impl_doc", "Extras for %t%."), kv("doc", "ignored for this method")],
    )
    .unwrap();
    let fresh = fresh.unwrap();
    assert_eq!(fresh.doc.as_deref(), Some("Extras for Simple."));
    assert_eq!(
        fresh.methods[0].doc.as_deref(),
        Some(
            "Grows Simple via grow.\n\n [`grow`]: Simple::grow\n [`grow()`]: Simple::grow"
        )
    );
}

#[test]
fn resolved_config_feeds_generation_directly() {
    // The split entry: resolve the container configuration first, then
    // run the engine under it.
    let attr_info =
        fluent_impl::config::parse_config_from_attr(&vec![kv("prefix", "chain_")]).unwrap();
    let macro_config = fluent_impl::config::get_proc_macro_config(attr_info).unwrap();
    assert_eq!(macro_config.prefix, "chain_");
    let c = container(vec![chainable("a", vec![])]);
    let (_, fresh) = gen_fluent_from_impl_block(&c, &macro_config).unwrap();
    assert_eq!(names(&fresh.unwrap().methods), vec!["chain_a"]);
}

#[test]
fn name_formula_prefix_and_rename_overrides() {
    // Method-level prefix and rename both override the container parts:
    // generated name = prefix + rename.
    let c = container(vec![chainable(
        "add_1",
        vec![vec![kv("prefix", "chain_"), kv("rename", "added_1")]],
    )]);
    let (_, fresh) = transform(&c, &vec![kv("prefix", "with_")]).unwrap();
    assert_eq!(names(&fresh.unwrap().methods), vec!["chain_added_1"]);
}
