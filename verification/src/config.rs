//! Attribute parsing and configuration resolution.
//!
//! One raw attribute occurrence is normalized into an [`AttrInfo`]
//! (ordered bare words and key/value pairs); occurrences are then folded
//! into a container-level [`MacroConfig`] or a method-level
//! [`MethodConfig`], with a closed vocabulary per surface, set-once fields,
//! and mutual-exclusion and non-empty validation.

use vstd::prelude::*;

use crate::model::{res_view, Error, ErrorV, MetaItem, MetaItemV};
use crate::strings::str_eq;

verus! {

// ------------------------------------------------------------------
// AttrInfo and the attribute parser
// ------------------------------------------------------------------
/// The normalized form of one attribute occurrence: bare words and
/// key/value pairs, both in encounter order, never deduplicated.
#[derive(Debug)]
pub struct AttrInfo {
    pub names: Vec<String>,
    pub name_vals: Vec<(String, String)>,
}

#[verifier::ext_equal]
pub struct AttrInfoV {
    pub names: Seq<Seq<char>>,
    pub name_vals: Seq<(Seq<char>, Seq<char>)>,
}

impl View for AttrInfo {
    type V = AttrInfoV;

    open spec fn view(&self) -> AttrInfoV {
        AttrInfoV { names: self.names.deep_view(), name_vals: self.name_vals.deep_view() }
    }
}

impl DeepView for AttrInfo {
    type V = AttrInfoV;

    open spec fn deep_view(&self) -> AttrInfoV {
        self.view()
    }
}

/// Folding one meta item into the normalized occurrence: words and pairs
/// are collected, any other shape is a grammar error naming the token.
pub open spec fn spec_parse_step(acc: AttrInfoV, item: MetaItemV) -> Result<AttrInfoV, ErrorV> {
    match item {
        MetaItemV::Word(w) => Ok(AttrInfoV { names: acc.names.push(w), name_vals: acc.name_vals }),
        MetaItemV::NameStr(k, v) => Ok(
            AttrInfoV { names: acc.names, name_vals: acc.name_vals.push((k, v)) },
        ),
        MetaItemV::NameOther(_k, t) => Err(ErrorV::AttributeGrammar(t)),
        MetaItemV::NestedList(t) => Err(ErrorV::AttributeGrammar(t)),
        MetaItemV::BareLit(t) => Err(ErrorV::AttributeGrammar(t)),
    }
}

/// The whole occurrence folded left to right; the first offending item
/// decides the error.
pub open spec fn spec_parse_items(items: Seq<MetaItemV>) -> Result<AttrInfoV, ErrorV>
    decreases items.len(),
{
    if items.len() == 0 {
        Ok(AttrInfoV { names: Seq::empty(), name_vals: Seq::empty() })
    } else {
        match spec_parse_items(items.drop_last()) {
            Ok(acc) => spec_parse_step(acc, items.last()),
            Err(e) => Err(e),
        }
    }
}

proof fn lemma_parse_items_err_sticks(items: Seq<MetaItemV>, i: int)
    requires
        0 <= i <= items.len(),
        spec_parse_items(items.take(i)) is Err,
    ensures
        spec_parse_items(items) == spec_parse_items(items.take(i)),
    decreases items.len() - i,
{
    if i == items.len() {
        assert(items.take(i) =~= items);
    } else {
        assert(items.take(i + 1).drop_last() =~= items.take(i));
        lemma_parse_items_err_sticks(items, i + 1);
    }
}

/// AttributeParser: parses one raw attribute occurrence into its
/// normalized `{bare words, key/value pairs}` structure.
pub fn parse_config_from_attr(items: &Vec<MetaItem>) -> (r: Result<AttrInfo, Error>)
    ensures
        res_view(r) == spec_parse_items(items.deep_view()),
{
    let ghost all = items.deep_view();
    let mut names: Vec<String> = Vec::new();
    let mut name_vals: Vec<(String, String)> = Vec::new();
    let mut i: usize = 0;
    proof {
        assert(all.take(0) =~= Seq::<MetaItemV>::empty());
        assert(names.deep_view() =~= Seq::<Seq<char>>::empty());
        assert(name_vals.deep_view() =~= Seq::<(Seq<char>, Seq<char>)>::empty());
        assert(spec_parse_items(all.take(0)) == Ok::<AttrInfoV, ErrorV>(
            AttrInfoV { names: names.deep_view(), name_vals: name_vals.deep_view() },
        ));
    }
    while i < items.len()
        invariant
            i <= items.len(),
            all == items.deep_view(),
            spec_parse_items(all.take(i as int)) == Ok::<AttrInfoV, ErrorV>(
                AttrInfoV { names: names.deep_view(), name_vals: name_vals.deep_view() },
            ),
        decreases items.len() - i,
    {
        proof {
            assert(all.take(i + 1).drop_last() =~= all.take(i as int));
            assert(all.take(i + 1).last() == all[i as int]);
        }
        match &items[i] {
            MetaItem::Word(w) => {
                let ghost dv0 = names.deep_view();
                names.push(w.clone());
                proof {
                    assert(names.deep_view() =~= dv0.push(w@));
                }
            },
            MetaItem::NameStr(k, v) => {
                let ghost dv0 = name_vals.deep_view();
                name_vals.push((k.clone(), v.clone()));
                proof {
                    assert(name_vals.deep_view() =~= dv0.push((k@, v@)));
                }
            },
            MetaItem::NameOther(_k, t) => {
                proof {
                    lemma_parse_items_err_sticks(all, i + 1);
                }
                return Err(Error::AttributeGrammar(t.clone()));
            },
            MetaItem::NestedList(t) => {
                proof {
                    lemma_parse_items_err_sticks(all, i + 1);
                }
                return Err(Error::AttributeGrammar(t.clone()));
            },
            MetaItem::BareLit(t) => {
                proof {
                    lemma_parse_items_err_sticks(all, i + 1);
                }
                return Err(Error::AttributeGrammar(t.clone()));
            },
        }
        i += 1;
    }
    proof {
        assert(all.take(items.len() as int) =~= all);
    }
    Ok(AttrInfo { names, name_vals })
}

// ------------------------------------------------------------------
// Container-level configuration
// ------------------------------------------------------------------
/// The resolved container-level configuration. Invariant: `prefix` is
/// non-empty.
#[derive(Debug)]
pub struct MacroConfig {
    pub inblock: bool,
    pub non_public: bool,
    pub prefix: String,
    pub impl_doc: String,
    pub doc: String,
}

#[verifier::ext_equal]
pub struct MacroConfigV {
    pub inblock: bool,
    pub non_public: bool,
    pub prefix: Seq<char>,
    pub impl_doc: Seq<char>,
    pub doc: Seq<char>,
}

impl View for MacroConfig {
    type V = MacroConfigV;

    open spec fn view(&self) -> MacroConfigV {
        MacroConfigV {
            inblock: self.inblock,
            non_public: self.non_public,
            prefix: self.prefix@,
            impl_doc: self.impl_doc@,
            doc: self.doc@,
        }
    }
}

impl DeepView for MacroConfig {
    type V = MacroConfigV;

    open spec fn deep_view(&self) -> MacroConfigV {
        self.view()
    }
}

pub open spec fn spec_default_prefix() -> Seq<char> {
    "with_"@
}

pub open spec fn spec_default_doc() -> Seq<char> {
    "The chaining (fluent) equivalent of [`%f%()`]."@
}

pub open spec fn spec_default_impl_doc() -> Seq<char> {
    "Chaining (fluent) methods for [`%t%`]."@
}

pub open spec fn spec_default_macro_config() -> MacroConfigV {
    MacroConfigV {
        inblock: false,
        non_public: false,
        prefix: spec_default_prefix(),
        impl_doc: spec_default_impl_doc(),
        doc: spec_default_doc(),
    }
}

impl Default for MacroConfig {
    fn default() -> (c: MacroConfig)
        ensures
            c@ == spec_default_macro_config(),
    {
        MacroConfig {
            inblock: false,
            non_public: false,
            prefix: String::from_str("with_"),
            impl_doc: String::from_str("Chaining (fluent) methods for [`%t%`]."),
            doc: String::from_str("The chaining (fluent) equivalent of [`%f%()`]."),
        }
    }
}

/// Tri-state folding state for the container surface: every field is
/// explicitly unset until an occurrence item sets it, and a second set of
/// the same field is a conflict.
#[derive(Debug)]
pub struct MacroOpts {
    pub inblock: Option<bool>,
    pub non_public: Option<bool>,
    pub prefix: Option<String>,
    pub impl_doc: Option<String>,
    pub doc: Option<String>,
}

#[verifier::ext_equal]
pub struct MacroOptsV {
    pub inblock: Option<bool>,
    pub non_public: Option<bool>,
    pub prefix: Option<Seq<char>>,
    pub impl_doc: Option<Seq<char>>,
    pub doc: Option<Seq<char>>,
}

impl View for MacroOpts {
    type V = MacroOptsV;

    open spec fn view(&self) -> MacroOptsV {
        MacroOptsV {
            inblock: self.inblock,
            non_public: self.non_public,
            prefix: self.prefix.deep_view(),
            impl_doc: self.impl_doc.deep_view(),
            doc: self.doc.deep_view(),
        }
    }
}

pub open spec fn spec_unset_macro_opts() -> MacroOptsV {
    MacroOptsV { inblock: None, non_public: None, prefix: None, impl_doc: None, doc: None }
}

/// One bare word applied to the container state: `inblock` or
/// `non_public`, each set-once; anything else is unknown.
pub open spec fn spec_c_word(o: MacroOptsV, w: Seq<char>) -> Result<MacroOptsV, ErrorV> {
    if w == "inblock"@ {
        if o.inblock is Some {
            Err(ErrorV::ConfigConflict("inblock"@))
        } else {
            Ok(MacroOptsV { inblock: Some(true), ..o })
        }
    } else if w == "non_public"@ {
        if o.non_public is Some {
            Err(ErrorV::ConfigConflict("non_public"@))
        } else {
            Ok(MacroOptsV { non_public: Some(true), ..o })
        }
    } else {
        Err(ErrorV::UnknownOption(w))
    }
}

pub open spec fn spec_c_words(o: MacroOptsV, ws: Seq<Seq<char>>) -> Result<MacroOptsV, ErrorV>
    decreases ws.len(),
{
    if ws.len() == 0 {
        Ok(o)
    } else {
        match spec_c_words(o, ws.drop_last()) {
            Ok(o2) => spec_c_word(o2, ws.last()),
            Err(e) => Err(e),
        }
    }
}

/// One key/value pair applied to the container state: `prefix`,
/// `impl_doc` or `doc`, each set-once; anything else is unknown.
pub open spec fn spec_c_kv(o: MacroOptsV, k: Seq<char>, v: Seq<char>) -> Result<
    MacroOptsV,
    ErrorV,
> {
    if k == "prefix"@ {
        if o.prefix is Some {
            Err(ErrorV::ConfigConflict("prefix"@))
        } else {
            Ok(MacroOptsV { prefix: Some(v), ..o })
        }
    } else if k == "impl_doc"@ {
        if o.impl_doc is Some {
            Err(ErrorV::ConfigConflict("impl_doc"@))
        } else {
            Ok(MacroOptsV { impl_doc: Some(v), ..o })
        }
    } else if k == "doc"@ {
        if o.doc is Some {
            Err(ErrorV::ConfigConflict("doc"@))
        } else {
            Ok(MacroOptsV { doc: Some(v), ..o })
        }
    } else {
        Err(ErrorV::UnknownOption(k))
    }
}

pub open spec fn spec_c_kvs(o: MacroOptsV, kvs: Seq<(Seq<char>, Seq<char>)>) -> Result<
    MacroOptsV,
    ErrorV,
>
    decreases kvs.len(),
{
    if kvs.len() == 0 {
        Ok(o)
    } else {
        match spec_c_kvs(o, kvs.drop_last()) {
            Ok(o2) => spec_c_kv(o2, kvs.last().0, kvs.last().1),
            Err(e) => Err(e),
        }
    }
}

/// Final container validation: defaults fill the unset fields and the
/// effective prefix must be non-empty.
pub open spec fn spec_c_finish(o: MacroOptsV) -> Result<MacroConfigV, ErrorV> {
    let prefix = match o.prefix {
        Some(p) => p,
        None => spec_default_prefix(),
    };
    if prefix.len() == 0 {
        Err(ErrorV::ConfigConflict("prefix"@))
    } else {
        Ok(
            MacroConfigV {
                inblock: o.inblock == Some(true),
                non_public: o.non_public == Some(true),
                prefix: prefix,
                impl_doc: match o.impl_doc {
                    Some(d) => d,
                    None => spec_default_impl_doc(),
                },
                doc: match o.doc {
                    Some(d) => d,
                    None => spec_default_doc(),
                },
            },
        )
    }
}

/// The container surface resolved from one normalized occurrence: bare
/// words first, then key/value pairs, then final validation.
pub open spec fn spec_get_proc_macro_config(a: AttrInfoV) -> Result<MacroConfigV, ErrorV> {
    match spec_c_words(spec_unset_macro_opts(), a.names) {
        Ok(o) => match spec_c_kvs(o, a.name_vals) {
            Ok(o2) => spec_c_finish(o2),
            Err(e) => Err(e),
        },
        Err(e) => Err(e),
    }
}

proof fn lemma_c_words_err_sticks(o: MacroOptsV, ws: Seq<Seq<char>>, i: int)
    requires
        0 <= i <= ws.len(),
        spec_c_words(o, ws.take(i)) is Err,
    ensures
        spec_c_words(o, ws) == spec_c_words(o, ws.take(i)),
    decreases ws.len() - i,
{
    if i == ws.len() {
        assert(ws.take(i) =~= ws);
    } else {
        assert(ws.take(i + 1).drop_last() =~= ws.take(i));
        lemma_c_words_err_sticks(o, ws, i + 1);
    }
}

proof fn lemma_c_kvs_err_sticks(o: MacroOptsV, kvs: Seq<(Seq<char>, Seq<char>)>, i: int)
    requires
        0 <= i <= kvs.len(),
        spec_c_kvs(o, kvs.take(i)) is Err,
    ensures
        spec_c_kvs(o, kvs) == spec_c_kvs(o, kvs.take(i)),
    decreases kvs.len() - i,
{
    if i == kvs.len() {
        assert(kvs.take(i) =~= kvs);
    } else {
        assert(kvs.take(i + 1).drop_last() =~= kvs.take(i));
        lemma_c_kvs_err_sticks(o, kvs, i + 1);
    }
}

fn apply_c_word(opts: MacroOpts, w: &String) -> (r: Result<MacroOpts, Error>)
    ensures
        match r {
            Ok(o) => spec_c_word(opts@, w@) == Ok::<MacroOptsV, ErrorV>(o@),
            Err(e) => spec_c_word(opts@, w@) == Err::<MacroOptsV, ErrorV>(e@),
        },
{
    if str_eq(w.as_str(), "inblock") {
        if opts.inblock.is_some() {
            Err(Error::ConfigConflict(String::from_str("inblock")))
        } else {
            Ok(MacroOpts { inblock: Some(true), ..opts })
        }
    } else if str_eq(w.as_str(), "non_public") {
        if opts.non_public.is_some() {
            Err(Error::ConfigConflict(String::from_str("non_public")))
        } else {
            Ok(MacroOpts { non_public: Some(true), ..opts })
        }
    } else {
        Err(Error::UnknownOption(w.clone()))
    }
}

fn apply_c_kv(opts: MacroOpts, k: &String, v: &String) -> (r: Result<MacroOpts, Error>)
    ensures
        match r {
            Ok(o) => spec_c_kv(opts@, k@, v@) == Ok::<MacroOptsV, ErrorV>(o@),
            Err(e) => spec_c_kv(opts@, k@, v@) == Err::<MacroOptsV, ErrorV>(e@),
        },
{
    if str_eq(k.as_str(), "prefix") {
        if opts.prefix.is_some() {
            Err(Error::ConfigConflict(String::from_str("prefix")))
        } else {
            Ok(MacroOpts { prefix: Some(v.clone()), ..opts })
        }
    } else if str_eq(k.as_str(), "impl_doc") {
        if opts.impl_doc.is_some() {
            Err(Error::ConfigConflict(String::from_str("impl_doc")))
        } else {
            Ok(MacroOpts { impl_doc: Some(v.clone()), ..opts })
        }
    } else if str_eq(k.as_str(), "doc") {
        if opts.doc.is_some() {
            Err(Error::ConfigConflict(String::from_str("doc")))
        } else {
            Ok(MacroOpts { doc: Some(v.clone()), ..opts })
        }
    } else {
        Err(Error::UnknownOption(k.clone()))
    }
}

/// ConfigResolver, container path: folds the one expected occurrence into
/// a `MacroConfig`, enforcing vocabulary, set-once fields and the
/// non-empty prefix invariant.
pub fn get_proc_macro_config(attr_info: AttrInfo) -> (r: Result<MacroConfig, Error>)
    ensures
        res_view(r) == spec_get_proc_macro_config(attr_info@),
        r is Ok ==> r->Ok_0@.prefix.len() > 0,
{
    let ghost a = attr_info@;
    let AttrInfo { names, name_vals } = attr_info;
    let mut opts = MacroOpts {
        inblock: None,
        non_public: None,
        prefix: None,
        impl_doc: None,
        doc: None,
    };
    let mut i: usize = 0;
    proof {
        assert(a.names.take(0) =~= Seq::<Seq<char>>::empty());
    }
    while i < names.len()
        invariant
            i <= names.len(),
            a == attr_info@,
            a.names == names.deep_view(),
            spec_c_words(spec_unset_macro_opts(), a.names.take(i as int)) == Ok::<
                MacroOptsV,
                ErrorV,
            >(opts@),
        decreases names.len() - i,
    {
        proof {
            assert(a.names.take(i + 1).drop_last() =~= a.names.take(i as int));
            assert(a.names.take(i + 1).last() == a.names[i as int]);
        }
        match apply_c_word(opts, &names[i]) {
            Ok(o) => {
                opts = o;
            },
            Err(e) => {
                proof {
                    lemma_c_words_err_sticks(spec_unset_macro_opts(), a.names, i + 1);
                }
                return Err(e);
            },
        }
        i += 1;
    }
    proof {
        assert(a.names.take(names.len() as int) =~= a.names);
    }
    let ghost o_words = opts@;
    let mut j: usize = 0;
    proof {
        assert(a.name_vals.take(0) =~= Seq::<(Seq<char>, Seq<char>)>::empty());
    }
    while j < name_vals.len()
        invariant
            j <= name_vals.len(),
            a == attr_info@,
            a.name_vals == name_vals.deep_view(),
            spec_c_words(spec_unset_macro_opts(), a.names) == Ok::<MacroOptsV, ErrorV>(o_words),
            spec_c_kvs(o_words, a.name_vals.take(j as int)) == Ok::<MacroOptsV, ErrorV>(opts@),
        decreases name_vals.len() - j,
    {
        proof {
            assert(a.name_vals.take(j + 1).drop_last() =~= a.name_vals.take(j as int));
            assert(a.name_vals.take(j + 1).last() == a.name_vals[j as int]);
        }
        match apply_c_kv(opts, &name_vals[j].0, &name_vals[j].1) {
            Ok(o) => {
                opts = o;
            },
            Err(e) => {
                proof {
                    lemma_c_kvs_err_sticks(o_words, a.name_vals, j + 1);
                }
                return Err(e);
            },
        }
        j += 1;
    }
    proof {
        assert(a.name_vals.take(name_vals.len() as int) =~= a.name_vals);
    }
    let prefix = match opts.prefix {
        Some(p) => p,
        None => String::from_str("with_"),
    };
    if prefix.as_str().is_empty() {
        return Err(Error::ConfigConflict(String::from_str("prefix")));
    }
    let inblock = match opts.inblock {
        Some(b) => b,
        None => false,
    };
    let non_public = match opts.non_public {
        Some(b) => b,
        None => false,
    };
    let impl_doc = match opts.impl_doc {
        Some(d) => d,
        None => String::from_str("Chaining (fluent) methods for [`%t%`]."),
    };
    let doc = match opts.doc {
        Some(d) => d,
        None => String::from_str("The chaining (fluent) equivalent of [`%f%()`]."),
    };
    Ok(MacroConfig { inblock, non_public, prefix, impl_doc, doc })
}

// ------------------------------------------------------------------
// Method-level configuration
// ------------------------------------------------------------------
/// The resolved method-level configuration. Unset fields inherit the
/// container behaviour. Finalization invariants: if `name` is set,
/// `prefix` and `rename` are unset; any set `name`, `rename` or `prefix`
/// is non-empty.
#[derive(Debug)]
pub struct MethodConfig {
    pub inblock: Option<bool>,
    pub non_public: Option<bool>,
    pub skip: bool,
    pub prefix: Option<String>,
    pub rename: Option<String>,
    pub name: Option<String>,
    pub doc: Option<String>,
}

#[verifier::ext_equal]
pub struct MethodConfigV {
    pub inblock: Option<bool>,
    pub non_public: Option<bool>,
    pub skip: bool,
    pub prefix: Option<Seq<char>>,
    pub rename: Option<Seq<char>>,
    pub name: Option<Seq<char>>,
    pub doc: Option<Seq<char>>,
}

impl View for MethodConfig {
    type V = MethodConfigV;

    open spec fn view(&self) -> MethodConfigV {
        MethodConfigV {
            inblock: self.inblock,
            non_public: self.non_public,
            skip: self.skip,
            prefix: self.prefix.deep_view(),
            rename: self.rename.deep_view(),
            name: self.name.deep_view(),
            doc: self.doc.deep_view(),
        }
    }
}

impl DeepView for MethodConfig {
    type V = MethodConfigV;

    open spec fn deep_view(&self) -> MethodConfigV {
        self.view()
    }
}

pub open spec fn spec_default_method_config() -> MethodConfigV {
    MethodConfigV {
        inblock: None,
        non_public: None,
        skip: false,
        prefix: None,
        rename: None,
        name: None,
        doc: None,
    }
}

impl Default for MethodConfig {
    fn default() -> (c: MethodConfig)
        ensures
            c@ == spec_default_method_config(),
    {
        MethodConfig {
            inblock: None,
            non_public: None,
            skip: false,
            prefix: None,
            rename: None,
            name: None,
            doc: None,
        }
    }
}

/// One bare word applied to the method state: `inblock`, `non_public` or
/// `skip`, each set-once; anything else is unknown.
pub open spec fn spec_m_word(c: MethodConfigV, w: Seq<char>) -> Result<MethodConfigV, ErrorV> {
    if w == "inblock"@ {
        if c.inblock is Some {
            Err(ErrorV::ConfigConflict("inblock"@))
        } else {
            Ok(MethodConfigV { inblock: Some(true), ..c })
        }
    } else if w == "non_public"@ {
        if c.non_public is Some {
            Err(ErrorV::ConfigConflict("non_public"@))
        } else {
            Ok(MethodConfigV { non_public: Some(true), ..c })
        }
    } else if w == "skip"@ {
        if c.skip {
            Err(ErrorV::ConfigConflict("skip"@))
        } else {
            Ok(MethodConfigV { skip: true, ..c })
        }
    } else {
        Err(ErrorV::UnknownOption(w))
    }
}

pub open spec fn spec_m_words(c: MethodConfigV, ws: Seq<Seq<char>>) -> Result<
    MethodConfigV,
    ErrorV,
>
    decreases ws.len(),
{
    if ws.len() == 0 {
        Ok(c)
    } else {
        match spec_m_words(c, ws.drop_last()) {
            Ok(c2) => spec_m_word(c2, ws.last()),
            Err(e) => Err(e),
        }
    }
}

/// One key/value pair applied to the method state: `prefix`, `name`,
/// `rename` or `doc`, each set-once; anything else is unknown.
pub open spec fn spec_m_kv(c: MethodConfigV, k: Seq<char>, v: Seq<char>) -> Result<
    MethodConfigV,
    ErrorV,
> {
    if k == "prefix"@ {
        if c.prefix is Some {
            Err(ErrorV::ConfigConflict("prefix"@))
        } else {
            Ok(MethodConfigV { prefix: Some(v), ..c })
        }
    } else if k == "name"@ {
        if c.name is Some {
            Err(ErrorV::ConfigConflict("name"@))
        } else {
            Ok(MethodConfigV { name: Some(v), ..c })
        }
    } else if k == "rename"@ {
        if c.rename is Some {
            Err(ErrorV::ConfigConflict("rename"@))
        } else {
            Ok(MethodConfigV { rename: Some(v), ..c })
        }
    } else if k == "doc"@ {
        if c.doc is Some {
            Err(ErrorV::ConfigConflict("doc"@))
        } else {
            Ok(MethodConfigV { doc: Some(v), ..c })
        }
    } else {
        Err(ErrorV::UnknownOption(k))
    }
}

pub open spec fn spec_m_kvs(c: MethodConfigV, kvs: Seq<(Seq<char>, Seq<char>)>) -> Result<
    MethodConfigV,
    ErrorV,
>
    decreases kvs.len(),
{
    if kvs.len() == 0 {
        Ok(c)
    } else {
        match spec_m_kvs(c, kvs.drop_last()) {
            Ok(c2) => spec_m_kv(c2, kvs.last().0, kvs.last().1),
            Err(e) => Err(e),
        }
    }
}

/// Method finalization: `name` excludes `prefix` and `rename`, and any
/// set `name`, `rename` or `prefix` must be non-empty.
pub open spec fn spec_m_validate(c: MethodConfigV) -> Result<MethodConfigV, ErrorV> {
    if c.name is Some && (c.rename is Some || c.prefix is Some) {
        Err(ErrorV::ConfigConflict("name"@))
    } else if match c.name {
        Some(n) => n.len() == 0,
        None => false,
    } {
        Err(ErrorV::ConfigConflict("name"@))
    } else if match c.rename {
        Some(n) => n.len() == 0,
        None => false,
    } {
        Err(ErrorV::ConfigConflict("rename"@))
    } else if match c.prefix {
        Some(n) => n.len() == 0,
        None => false,
    } {
        Err(ErrorV::ConfigConflict("prefix"@))
    } else {
        Ok(c)
    }
}

/// The method surface: one normalized occurrence folded into an inherited
/// or default state, then finalized.
pub open spec fn spec_get_method_config(a: AttrInfoV, pre: MethodConfigV) -> Result<
    MethodConfigV,
    ErrorV,
> {
    match spec_m_words(pre, a.names) {
        Ok(c) => match spec_m_kvs(c, a.name_vals) {
            Ok(c2) => spec_m_validate(c2),
            Err(e) => Err(e),
        },
        Err(e) => Err(e),
    }
}

/// The starting state for a method fold: the inherited configuration if
/// one is handed in, the all-unset default otherwise.
pub open spec fn spec_pre_config(pre: Option<MethodConfigV>) -> MethodConfigV {
    match pre {
        Some(c) => c,
        None => spec_default_method_config(),
    }
}

proof fn lemma_m_words_err_sticks(c: MethodConfigV, ws: Seq<Seq<char>>, i: int)
    requires
        0 <= i <= ws.len(),
        spec_m_words(c, ws.take(i)) is Err,
    ensures
        spec_m_words(c, ws) == spec_m_words(c, ws.take(i)),
    decreases ws.len() - i,
{
    if i == ws.len() {
        assert(ws.take(i) =~= ws);
    } else {
        assert(ws.take(i + 1).drop_last() =~= ws.take(i));
        lemma_m_words_err_sticks(c, ws, i + 1);
    }
}

proof fn lemma_m_kvs_err_sticks(c: MethodConfigV, kvs: Seq<(Seq<char>, Seq<char>)>, i: int)
    requires
        0 <= i <= kvs.len(),
        spec_m_kvs(c, kvs.take(i)) is Err,
    ensures
        spec_m_kvs(c, kvs) == spec_m_kvs(c, kvs.take(i)),
    decreases kvs.len() - i,
{
    if i == kvs.len() {
        assert(kvs.take(i) =~= kvs);
    } else {
        assert(kvs.take(i + 1).drop_last() =~= kvs.take(i));
        lemma_m_kvs_err_sticks(c, kvs, i + 1);
    }
}

fn apply_m_word(config: MethodConfig, w: &String) -> (r: Result<MethodConfig, Error>)
    ensures
        match r {
            Ok(c) => spec_m_word(config@, w@) == Ok::<MethodConfigV, ErrorV>(c@),
            Err(e) => spec_m_word(config@, w@) == Err::<MethodConfigV, ErrorV>(e@),
        },
{
    if str_eq(w.as_str(), "inblock") {
        if config.inblock.is_some() {
            Err(Error::ConfigConflict(String::from_str("inblock")))
        } else {
            Ok(MethodConfig { inblock: Some(true), ..config })
        }
    } else if str_eq(w.as_str(), "non_public") {
        if config.non_public.is_some() {
            Err(Error::ConfigConflict(String::from_str("non_public")))
        } else {
            Ok(MethodConfig { non_public: Some(true), ..config })
        }
    } else if str_eq(w.as_str(), "skip") {
        if config.skip {
            Err(Error::ConfigConflict(String::from_str("skip")))
        } else {
            Ok(MethodConfig { skip: true, ..config })
        }
    } else {
        Err(Error::UnknownOption(w.clone()))
    }
}

fn apply_m_kv(config: MethodConfig, k: &String, v: &String) -> (r: Result<MethodConfig, Error>)
    ensures
        match r {
            Ok(c) => spec_m_kv(config@, k@, v@) == Ok::<MethodConfigV, ErrorV>(c@),
            Err(e) => spec_m_kv(config@, k@, v@) == Err::<MethodConfigV, ErrorV>(e@),
        },
{
    if str_eq(k.as_str(), "prefix") {
        if config.prefix.is_some() {
            Err(Error::ConfigConflict(String::from_str("prefix")))
        } else {
            Ok(MethodConfig { prefix: Some(v.clone()), ..config })
        }
    } else if str_eq(k.as_str(), "name") {
        if config.name.is_some() {
            Err(Error::ConfigConflict(String::from_str("name")))
        } else {
            Ok(MethodConfig { name: Some(v.clone()), ..config })
        }
    } else if str_eq(k.as_str(), "rename") {
        if config.rename.is_some() {
            Err(Error::ConfigConflict(String::from_str("rename")))
        } else {
            Ok(MethodConfig { rename: Some(v.clone()), ..config })
        }
    } else if str_eq(k.as_str(), "doc") {
        if config.doc.is_some() {
            Err(Error::ConfigConflict(String::from_str("doc")))
        } else {
            Ok(MethodConfig { doc: Some(v.clone()), ..config })
        }
    } else {
        Err(Error::UnknownOption(k.clone()))
    }
}

fn is_empty_opt(o: &Option<String>) -> (r: bool)
    ensures
        r == match o.deep_view() {
            Some(s) => s.len() == 0,
            None => false,
        },
{
    match o {
        Some(s) => s.as_str().is_empty(),
        None => false,
    }
}

/// ConfigResolver, method path: folds one normalized occurrence into the
/// inherited state (or the default), then applies the mutual-exclusion
/// and non-empty invariants.
pub fn get_method_config(attr_info: AttrInfo, pre_config: Option<MethodConfig>) -> (r: Result<
    MethodConfig,
    Error,
>)
    ensures
        res_view(r) == spec_get_method_config(attr_info@, spec_pre_config(pre_config.deep_view())),
{
    let ghost a = attr_info@;
    let ghost pre = spec_pre_config(pre_config.deep_view());
    let AttrInfo { names, name_vals } = attr_info;
    let mut config = match pre_config {
        Some(c) => c,
        None => MethodConfig::default(),
    };
    let mut i: usize = 0;
    proof {
        assert(a.names.take(0) =~= Seq::<Seq<char>>::empty());
    }
    while i < names.len()
        invariant
            i <= names.len(),
            a == attr_info@,
            pre == spec_pre_config(pre_config.deep_view()),
            a.names == names.deep_view(),
            spec_m_words(pre, a.names.take(i as int)) == Ok::<MethodConfigV, ErrorV>(config@),
        decreases names.len() - i,
    {
        proof {
            assert(a.names.take(i + 1).drop_last() =~= a.names.take(i as int));
            assert(a.names.take(i + 1).last() == a.names[i as int]);
        }
        match apply_m_word(config, &names[i]) {
            Ok(c) => {
                config = c;
            },
            Err(e) => {
                proof {
                    lemma_m_words_err_sticks(pre, a.names, i + 1);
                }
                return Err(e);
            },
        }
        i += 1;
    }
    proof {
        assert(a.names.take(names.len() as int) =~= a.names);
    }
    let ghost c_words = config@;
    let mut j: usize = 0;
    proof {
        assert(a.name_vals.take(0) =~= Seq::<(Seq<char>, Seq<char>)>::empty());
    }
    while j < name_vals.len()
        invariant
            j <= name_vals.len(),
            a == attr_info@,
            pre == spec_pre_config(pre_config.deep_view()),
            a.name_vals == name_vals.deep_view(),
            spec_m_words(pre, a.names) == Ok::<MethodConfigV, ErrorV>(c_words),
            spec_m_kvs(c_words, a.name_vals.take(j as int)) == Ok::<MethodConfigV, ErrorV>(
                config@,
            ),
        decreases name_vals.len() - j,
    {
        proof {
            assert(a.name_vals.take(j + 1).drop_last() =~= a.name_vals.take(j as int));
            assert(a.name_vals.take(j + 1).last() == a.name_vals[j as int]);
        }
        match apply_m_kv(config, &name_vals[j].0, &name_vals[j].1) {
            Ok(c) => {
                config = c;
            },
            Err(e) => {
                proof {
                    lemma_m_kvs_err_sticks(c_words, a.name_vals, j + 1);
                }
                return Err(e);
            },
        }
        j += 1;
    }
    proof {
        assert(a.name_vals.take(name_vals.len() as int) =~= a.name_vals);
    }
    if config.name.is_some() && (config.rename.is_some() || config.prefix.is_some()) {
        return Err(Error::ConfigConflict(String::from_str("name")));
    }
    if is_empty_opt(&config.name) {
        return Err(Error::ConfigConflict(String::from_str("name")));
    }
    if is_empty_opt(&config.rename) {
        return Err(Error::ConfigConflict(String::from_str("rename")));
    }
    if is_empty_opt(&config.prefix) {
        return Err(Error::ConfigConflict(String::from_str("prefix")));
    }
    Ok(config)
}

} // verus!
