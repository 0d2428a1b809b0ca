//! Attribute grammar, vocabulary, set-once folding, mutual exclusion and
//! the string utilities behind them.

use fluent_impl::config::{get_proc_macro_config, parse_config_from_attr, MethodConfig};
use fluent_impl::model::{Error, MetaItem};
use fluent_impl::strings::{concat_str, dec_str, replace, str_eq};
use fluent_impl::type_utils::bare_ty_str;

fn word(w: &str) -> MetaItem {
    MetaItem::Word(w.to_string())
}

fn kv(k: &str, v: &str) -> MetaItem {
    MetaItem::NameStr(k.to_string(), v.to_string())
}

fn method_config(items: Vec<MetaItem>, pre: Option<MethodConfig>) -> Result<MethodConfig, Error> {
    let info = parse_config_from_attr(&items)?;
    fluent_impl::config::get_method_config(info, pre)
}

#[test]
fn parser_collects_words_and_pairs_in_order() {
    let info = parse_config_from_attr(&vec![
        word("inblock"),
        kv("prefix", "chain_"),
        word("non_public"),
        kv("doc", "d"),
    ])
    .unwrap();
    assert_eq!(info.names, vec!["inblock".to_string(), "non_public".to_string()]);
    assert_eq!(
        info.name_vals,
        vec![
            ("prefix".to_string(), "chain_".to_string()),
            ("doc".to_string(), "d".to_string())
        ]
    );
}

#[test]
fn parser_rejects_other_shapes() {
    for bad in [
        MetaItem::NameOther("prefix".to_string(), "7".to_string()),
        MetaItem::NestedList("inner(a, b)".to_string()),
        MetaItem::BareLit("\"stray\"".to_string()),
    ] {
        let token = match &bad {
            MetaItem::NameOther(_, t) | MetaItem::NestedList(t) | MetaItem::BareLit(t) => {
                t.clone()
            },
            _ => unreachable!(),
        };
        match parse_config_from_attr(&vec![word("inblock"), bad]) {
            Err(Error::AttributeGrammar(t)) => assert_eq!(t, token),
            other => panic!("expected a grammar error, got {:?}", other),
        }
    }
}

#[test]
fn container_defaults() {
    let cc = get_proc_macro_config(parse_config_from_attr(&vec![]).unwrap()).unwrap();
    assert!(!cc.inblock);
    assert!(!cc.non_public);
    assert_eq!(cc.prefix, "with_");
    assert_eq!(cc.impl_doc, "Chaining (fluent) methods for [`%t%`].");
    assert_eq!(cc.doc, "The chaining (fluent) equivalent of [`%f%()`].");
}

#[test]
fn container_unknown_tokens_fail() {
    match get_proc_macro_config(parse_config_from_attr(&vec![word("skip")]).unwrap()) {
        Err(Error::UnknownOption(w)) => assert_eq!(w, "skip"),
        other => panic!("expected an unknown-option error, got {:?}", other),
    }
    match get_proc_macro_config(parse_config_from_attr(&vec![kv("rename", "x")]).unwrap()) {
        Err(Error::UnknownOption(w)) => assert_eq!(w, "rename"),
        other => panic!("expected an unknown-option error, got {:?}", other),
    }
}

#[test]
fn container_set_twice_conflicts() {
    match get_proc_macro_config(
        parse_config_from_attr(&vec![word("inblock"), word("inblock")]).unwrap(),
    ) {
        Err(Error::ConfigConflict(f)) => assert_eq!(f, "inblock"),
        other => panic!("expected a conflict, got {:?}", other),
    }
    match get_proc_macro_config(
        parse_config_from_attr(&vec![kv("prefix", "a_"), kv("prefix", "b_")]).unwrap(),
    ) {
        Err(Error::ConfigConflict(f)) => assert_eq!(f, "prefix"),
        other => panic!("expected a conflict, got {:?}", other),
    }
    // Re-stating even the default value is a second set.
    match get_proc_macro_config(
        parse_config_from_attr(&vec![kv("prefix", "with_"), kv("prefix", "with_")]).unwrap(),
    ) {
        Err(Error::ConfigConflict(f)) => assert_eq!(f, "prefix"),
        other => panic!("expected a conflict, got {:?}", other),
    }
}

#[test]
fn empty_prefix_fails_both_surfaces() {
    match get_proc_macro_config(parse_config_from_attr(&vec![kv("prefix", "")]).unwrap()) {
        Err(Error::ConfigConflict(f)) => assert_eq!(f, "prefix"),
        other => panic!("expected a conflict, got {:?}", other),
    }
    match method_config(vec![kv("prefix", "")], None) {
        Err(Error::ConfigConflict(f)) => assert_eq!(f, "prefix"),
        other => panic!("expected a conflict, got {:?}", other),
    }
}

#[test]
fn method_name_excludes_prefix_and_rename() {
    match method_config(vec![kv("name", "n"), kv("prefix", "p_")], None) {
        Err(Error::ConfigConflict(f)) => assert_eq!(f, "name"),
        other => panic!("expected a conflict, got {:?}", other),
    }
    match method_config(vec![kv("name", "n"), kv("rename", "r")], None) {
        Err(Error::ConfigConflict(f)) => assert_eq!(f, "name"),
        other => panic!("expected a conflict, got {:?}", other),
    }
    // Also across two occurrences, through the method-level fold.
    let attrs = vec![vec![kv("prefix", "p_")], vec![kv("name", "n")]];
    match fluent_impl::method::get_method_config(&attrs) {
        Err(Error::ConfigConflict(f)) => assert_eq!(f, "name"),
        other => panic!("expected a conflict, got {:?}", other),
    }
}

#[test]
fn method_option_twice_across_occurrences_conflicts() {
    let attrs = vec![vec![word("inblock")], vec![word("inblock")]];
    match fluent_impl::method::get_method_config(&attrs) {
        Err(Error::ConfigConflict(f)) => assert_eq!(f, "inblock"),
        other => panic!("expected a conflict, got {:?}", other),
    }
    let attrs = vec![vec![kv("doc", "a")], vec![kv("doc", "b")]];
    match fluent_impl::method::get_method_config(&attrs) {
        Err(Error::ConfigConflict(f)) => assert_eq!(f, "doc"),
        other => panic!("expected a conflict, got {:?}", other),
    }
}

#[test]
fn method_empty_name_and_rename_fail() {
    match method_config(vec![kv("name", "")], None) {
        Err(Error::ConfigConflict(f)) => assert_eq!(f, "name"),
        other => panic!("expected a conflict, got {:?}", other),
    }
    match method_config(vec![kv("rename", "")], None) {
        Err(Error::ConfigConflict(f)) => assert_eq!(f, "rename"),
        other => panic!("expected a conflict, got {:?}", other),
    }
}

#[test]
fn method_unknown_tokens_fail() {
    match method_config(vec![word("impl_doc")], None) {
        Err(Error::UnknownOption(w)) => assert_eq!(w, "impl_doc"),
        other => panic!("expected an unknown-option error, got {:?}", other),
    }
    match method_config(vec![kv("impl_doc", "x")], None) {
        Err(Error::UnknownOption(w)) => assert_eq!(w, "impl_doc"),
        other => panic!("expected an unknown-option error, got {:?}", other),
    }
}

#[test]
fn method_inheritance_carries_fields_over() {
    let first = method_config(vec![word("non_public"), kv("prefix", "p_")], None).unwrap();
    assert_eq!(first.non_public, Some(true));
    let second = method_config(vec![word("inblock"), kv("rename", "r")], Some(first)).unwrap();
    assert_eq!(second.non_public, Some(true));
    assert_eq!(second.inblock, Some(true));
    assert_eq!(second.prefix.as_deref(), Some("p_"));
    assert_eq!(second.rename.as_deref(), Some("r"));
    assert!(!second.skip);
    assert!(second.name.is_none());
}

#[test]
fn replace_exact_values() {
    assert_eq!(replace("a %f% b %f%", "%f%", "x"), "a x b x");
    assert_eq!(replace("aaa", "aa", "b"), "ba");
    assert_eq!(replace("no markers", "%t%", "x"), "no markers");
    assert_eq!(replace("%t%%t%", "%t%", ""), "");
    assert_eq!(replace("", "%t%", "x"), "");
}

#[test]
fn decimal_rendering() {
    assert_eq!(dec_str(0), "0");
    assert_eq!(dec_str(7), "7");
    assert_eq!(dec_str(42), "42");
    assert_eq!(dec_str(120), "120");
}

#[test]
fn string_helpers() {
    assert!(str_eq("abc", "abc"));
    assert!(!str_eq("abc", "abd"));
    assert!(!str_eq("abc", "ab"));
    assert_eq!(concat_str("with_", "add"), "with_add");
}

#[test]
fn bare_type_head_symbol() {
    assert_eq!(bare_ty_str("Vec < u8 >").unwrap(), "Vec");
    assert_eq!(bare_ty_str("Simple").unwrap(), "Simple");
    match bare_ty_str("") {
        Err(Error::TypeRender) => (),
        other => panic!("expected the type-render error, got {:?}", other),
    }
}

#[test]
fn method_option_twice_in_one_occurrence_conflicts() {
    match method_config(vec![word("skip"), word("skip")], None) {
        Err(Error::ConfigConflict(f)) => assert_eq!(f, "skip"),
        other => panic!("expected a conflict, got {:?}", other),
    }
    match method_config(vec![kv("rename", "a"), kv("rename", "b")], None) {
        Err(Error::ConfigConflict(f)) => assert_eq!(f, "rename"),
        other => panic!("expected a conflict, got {:?}", other),
    }
}
