//! Per-method work: resolving a method's configuration from its attribute
//! occurrences, the eligibility policy, and the synthesis of the chaining
//! counterpart declaration.

use vstd::prelude::*;

use crate::config::{
    spec_default_method_config, spec_get_method_config, spec_parse_items, spec_pre_config,
    AttrInfo, MacroConfig, MacroConfigV, MethodConfig, MethodConfigV,
};
use crate::model::{
    clone_attrs, clone_param, res_view, Binding, BindingV, Error, ErrorV, ForwardCall,
    ForwardCallV, GenParam, GenParamV, MetaItem, MetaItemV, MethodBody, MethodBodyV, MethodDecl,
    MethodDeclV, Param, ParamV, ReceiverKind, Visibility,
};
use crate::strings::{concat_str, dec_str, replace, spec_dec, spec_replaced};

verus! {

// ------------------------------------------------------------------
// Method configuration from attribute occurrences
// ------------------------------------------------------------------
/// Zero or more occurrences folded left to right into `c`; each
/// occurrence is parsed and then applied with the state so far inherited.
pub open spec fn spec_fold_method_attrs(c: MethodConfigV, attrs: Seq<Seq<MetaItemV>>) -> Result<
    MethodConfigV,
    ErrorV,
>
    decreases attrs.len(),
{
    if attrs.len() == 0 {
        Ok(c)
    } else {
        match spec_fold_method_attrs(c, attrs.drop_last()) {
            Ok(c2) => match spec_parse_items(attrs.last()) {
                Ok(ai) => spec_get_method_config(ai, c2),
                Err(e) => Err(e),
            },
            Err(e) => Err(e),
        }
    }
}

/// The configuration a method's own attribute occurrences resolve to,
/// starting from the all-unset default.
pub open spec fn spec_method_config_of(m: MethodDeclV) -> Result<MethodConfigV, ErrorV> {
    spec_fold_method_attrs(spec_default_method_config(), m.attrs)
}

proof fn lemma_fold_method_attrs_err_sticks(
    c: MethodConfigV,
    attrs: Seq<Seq<MetaItemV>>,
    i: int,
)
    requires
        0 <= i <= attrs.len(),
        spec_fold_method_attrs(c, attrs.take(i)) is Err,
    ensures
        spec_fold_method_attrs(c, attrs) == spec_fold_method_attrs(c, attrs.take(i)),
    decreases attrs.len() - i,
{
    if i == attrs.len() {
        assert(attrs.take(i) =~= attrs);
    } else {
        assert(attrs.take(i + 1).drop_last() =~= attrs.take(i));
        lemma_fold_method_attrs_err_sticks(c, attrs, i + 1);
    }
}

/// Resolves a method's configuration by folding its attribute
/// occurrences, in source order, into the default state.
pub fn get_method_config(attrs: &Vec<Vec<MetaItem>>) -> (r: Result<MethodConfig, Error>)
    ensures
        res_view(r) == spec_fold_method_attrs(spec_default_method_config(), attrs.deep_view()),
{
    let ghost all = attrs.deep_view();
    let mut config = MethodConfig::default();
    let mut i: usize = 0;
    proof {
        assert(all.take(0) =~= Seq::<Seq<MetaItemV>>::empty());
    }
    while i < attrs.len()
        invariant
            i <= attrs.len(),
            all == attrs.deep_view(),
            spec_fold_method_attrs(spec_default_method_config(), all.take(i as int)) == Ok::<
                MethodConfigV,
                ErrorV,
            >(config@),
        decreases attrs.len() - i,
    {
        proof {
            assert(all.take(i + 1).drop_last() =~= all.take(i as int));
            assert(all.take(i + 1).last() == all[i as int]);
        }
        let attr_info = match crate::config::parse_config_from_attr(&attrs[i]) {
            Ok(ai) => ai,
            Err(e) => {
                proof {
                    lemma_fold_method_attrs_err_sticks(spec_default_method_config(), all, i + 1);
                }
                return Err(e);
            },
        };
        config = match crate::config::get_method_config(attr_info, Some(config)) {
            Ok(c) => c,
            Err(e) => {
                proof {
                    lemma_fold_method_attrs_err_sticks(spec_default_method_config(), all, i + 1);
                }
                return Err(e);
            },
        };
        i += 1;
    }
    proof {
        assert(all.take(attrs.len() as int) =~= all);
    }
    Ok(config)
}

// ------------------------------------------------------------------
// Eligibility
// ------------------------------------------------------------------
/// Chainable: unit return and a by-mutable-reference receiver.
pub open spec fn spec_chainable(m: MethodDeclV) -> bool {
    m.ret is None && m.receiver == ReceiverKind::ByMutRef
}

/// Selected for generation: chainable, not skipped, and public unless
/// `non_public` is enabled at container or method level.
pub open spec fn spec_selected(m: MethodDeclV, cc: MacroConfigV, mc: MethodConfigV) -> bool {
    spec_chainable(m) && !mc.skip && (m.vis == Visibility::Public || cc.non_public
        || mc.non_public == Some(true))
}

/// EligibilityChecker: whether a chaining counterpart is generated for
/// this method. A `false` is a silent exclusion, never an error.
pub fn try_fluentable(
    method: &MethodDecl,
    macro_config: &MacroConfig,
    method_config: &MethodConfig,
) -> (r: bool)
    ensures
        r == spec_selected(method@, macro_config@, method_config@),
{
    let chainable = method.ret.is_none() && method.receiver == ReceiverKind::ByMutRef;
    let method_non_public = match method_config.non_public {
        Some(b) => b,
        None => false,
    };
    let visible = method.vis == Visibility::Public || macro_config.non_public
        || method_non_public;
    chainable && !method_config.skip && visible
}

// ------------------------------------------------------------------
// Name synthesis
// ------------------------------------------------------------------
/// Generated name: the explicit `name` if set, else
/// `(prefix ?? container prefix) + (rename ?? original name)`.
pub open spec fn spec_fluent_name(m: MethodDeclV, cc: MacroConfigV, mc: MethodConfigV) -> Seq<
    char,
> {
    match mc.name {
        Some(n) => n,
        None => (match mc.prefix {
            Some(p) => p,
            None => cc.prefix,
        }) + (match mc.rename {
            Some(r) => r,
            None => m.name,
        }),
    }
}

/// The generated method's name.
pub fn fluent_ident(
    method: &MethodDecl,
    macro_config: &MacroConfig,
    method_config: &MethodConfig,
) -> (r: String)
    ensures
        r@ == spec_fluent_name(method@, macro_config@, method_config@),
{
    match &method_config.name {
        Some(n) => n.clone(),
        None => {
            let prefix: &String = match &method_config.prefix {
                Some(p) => p,
                None => &macro_config.prefix,
            };
            let base: &String = match &method_config.rename {
                Some(r) => r,
                None => &method.name,
            };
            concat_str(prefix.as_str(), base.as_str())
        },
    }
}

// ------------------------------------------------------------------
// Documentation synthesis
// ------------------------------------------------------------------
/// The documentation template before substitution: the method-level
/// override or the container template, with the two fixed cross-reference
/// lines appended.
pub open spec fn spec_doc_template(cc: MacroConfigV, mc: MethodConfigV) -> Seq<char> {
    (match mc.doc {
        Some(d) => d,
        None => cc.doc,
    }) + "\n\n [`%f%`]: %t%::%f%"@ + "\n [`%f%()`]: %t%::%f%"@
}

/// The generated documentation: the template with the method-name
/// placeholder substituted first, then the type placeholder.
pub open spec fn spec_fluent_doc(
    m: MethodDeclV,
    cc: MacroConfigV,
    mc: MethodConfigV,
    bare: Seq<char>,
) -> Seq<char> {
    spec_replaced(spec_replaced(spec_doc_template(cc, mc), "%f%"@, m.name), "%t%"@, bare)
}

/// The generated method's documentation, fully replacing the original's.
pub fn fluent_doc(
    method: &MethodDecl,
    macro_config: &MacroConfig,
    method_config: &MethodConfig,
    bare_ty: &str,
) -> (r: String)
    ensures
        r@ == spec_fluent_doc(method@, macro_config@, method_config@, bare_ty@),
{
    let tmpl: &String = match &method_config.doc {
        Some(d) => d,
        None => &macro_config.doc,
    };
    let mut t = String::from_str(tmpl.as_str());
    t.append("\n\n [`%f%`]: %t%::%f%");
    t.append("\n [`%f%()`]: %t%::%f%");
    proof {
        reveal_strlit("%f%");
        reveal_strlit("%t%");
    }
    let t2 = replace(t.as_str(), "%f%", method.name.as_str());
    let t3 = replace(t2.as_str(), "%t%", bare_ty);
    t3
}

// ------------------------------------------------------------------
// Parameter normalization and forwarding arguments
// ------------------------------------------------------------------
/// The fresh positional identifier for parameter slot `idx` (zero-based
/// among the non-receiver parameters; the rendered number counts the
/// receiver as slot zero).
pub open spec fn spec_arg_ident(idx: int) -> Seq<char> {
    "arg"@ + spec_dec((idx + 1) as nat)
}

/// A parameter kept as-is if bound by a plain identifier, or re-bound to
/// the fresh positional identifier if bound by a destructuring pattern.
pub open spec fn spec_simplified_param(p: ParamV, idx: int) -> ParamV {
    match p.binding {
        BindingV::Ident(_) => p,
        BindingV::Pattern(_) => ParamV { binding: BindingV::Ident(spec_arg_ident(idx)), ty: p.ty },
    }
}

pub open spec fn spec_simplified_params(ps: Seq<ParamV>) -> Seq<ParamV> {
    Seq::new(ps.len(), |i: int| spec_simplified_param(ps[i], i))
}

pub open spec fn spec_binding_ident(b: BindingV) -> Seq<char> {
    match b {
        BindingV::Ident(s) => s,
        BindingV::Pattern(s) => s,
    }
}

pub open spec fn spec_binding_idents(ps: Seq<ParamV>) -> Seq<Seq<char>> {
    Seq::new(ps.len(), |i: int| spec_binding_ident(ps[i].binding))
}

/// The identifiers handed to the forwarding call, in parameter order.
pub open spec fn spec_call_args(ps: Seq<ParamV>) -> Seq<Seq<char>> {
    spec_binding_idents(spec_simplified_params(ps))
}

pub open spec fn spec_generic_idents(gs: Seq<GenParamV>) -> Seq<Seq<char>> {
    Seq::new(gs.len(), |i: int| gs[i].ident)
}

/// Replaces destructuring-pattern bindings with fresh positional
/// identifiers; plain identifier bindings are kept untouched.
pub fn simplify_fn_args(params: &Vec<Param>) -> (r: Vec<Param>)
    ensures
        r.deep_view() == spec_simplified_params(params.deep_view()),
{
    let mut out: Vec<Param> = Vec::new();
    let mut i: usize = 0;
    while i < params.len()
        invariant
            i <= params.len(),
            out@.len() == i,
            forall|j: int|
                0 <= j < i ==> out.deep_view()[j] == spec_simplified_param(
                    params.deep_view()[j],
                    j,
                ),
        decreases params.len() - i,
    {
        let ghost dv0 = out.deep_view();
        let p = &params[i];
        match &p.binding {
            Binding::Ident(_) => {
                out.push(clone_param(p));
            },
            Binding::Pattern(_) => {
                let mut ident = String::from_str("arg");
                ident.append(dec_str(i + 1).as_str());
                proof {
                    reveal_strlit("arg");
                    assert(ident@ == spec_arg_ident(i as int));
                }
                out.push(Param { binding: Binding::Ident(ident), ty: p.ty.clone() });
            },
        }
        proof {
            assert(out.deep_view() =~= dv0.push(
                spec_simplified_param(params.deep_view()[i as int], i as int),
            ));
        }
        i += 1;
    }
    proof {
        assert(out.deep_view() =~= spec_simplified_params(params.deep_view()));
    }
    out
}

/// The forwarding-call argument list: each parameter's binding
/// identifier, in order.
pub fn get_call_args(params: &Vec<Param>) -> (r: Vec<String>)
    ensures
        r.deep_view() == spec_binding_idents(params.deep_view()),
{
    let mut out: Vec<String> = Vec::new();
    let mut i: usize = 0;
    while i < params.len()
        invariant
            i <= params.len(),
            out@.len() == i,
            forall|j: int|
                0 <= j < i ==> out.deep_view()[j] == spec_binding_ident(
                    params.deep_view()[j].binding,
                ),
        decreases params.len() - i,
    {
        let ghost dv0 = out.deep_view();
        let ident = match &params[i].binding {
            Binding::Ident(s) => s.clone(),
            Binding::Pattern(s) => s.clone(),
        };
        out.push(ident);
        proof {
            assert(out.deep_view() =~= dv0.push(
                spec_binding_ident(params.deep_view()[i as int].binding),
            ));
        }
        i += 1;
    }
    proof {
        assert(out.deep_view() =~= spec_binding_idents(params.deep_view()));
    }
    out
}

/// The generic identifiers to re-supply explicitly on the forwarding
/// call, in original order, lifetime, type and const parameters alike.
pub fn get_generic_params(generics: &Vec<GenParam>) -> (r: Vec<String>)
    ensures
        r.deep_view() == spec_generic_idents(generics.deep_view()),
{
    let mut out: Vec<String> = Vec::new();
    let mut i: usize = 0;
    while i < generics.len()
        invariant
            i <= generics.len(),
            out@.len() == i,
            forall|j: int| 0 <= j < i ==> out.deep_view()[j] == generics.deep_view()[j].ident,
        decreases generics.len() - i,
    {
        let ghost dv0 = out.deep_view();
        out.push(generics[i].ident.clone());
        proof {
            assert(out.deep_view() =~= dv0.push(generics.deep_view()[i as int].ident));
        }
        i += 1;
    }
    proof {
        assert(out.deep_view() =~= spec_generic_idents(generics.deep_view()));
    }
    out
}

// ------------------------------------------------------------------
// The synthesized declaration
// ------------------------------------------------------------------
/// The chaining counterpart of a selected method: renamed, receiver
/// rewritten to by-value, returning the owner, parameters normalized,
/// generics copied, documentation substituted, body forwarding to the
/// original and evaluating to the receiver.
pub open spec fn spec_fluent_method(
    m: MethodDeclV,
    cc: MacroConfigV,
    mc: MethodConfigV,
    bare: Seq<char>,
) -> MethodDeclV {
    MethodDeclV {
        name: spec_fluent_name(m, cc, mc),
        vis: m.vis,
        receiver: ReceiverKind::ByValue,
        params: spec_simplified_params(m.params),
        generics: m.generics,
        ret: Some("Self"@),
        doc: Some(spec_fluent_doc(m, cc, mc, bare)),
        attrs: m.attrs,
        body: MethodBodyV::Forward(
            ForwardCallV {
                callee: m.name,
                generics: spec_generic_idents(m.generics),
                args: spec_call_args(m.params),
            },
        ),
    }
}

/// MethodSynthesizer: builds the chaining counterpart declaration.
pub fn fluent_from_fluentable(
    method: &MethodDecl,
    macro_config: &MacroConfig,
    method_config: &MethodConfig,
    bare_ty: &str,
) -> (r: MethodDecl)
    ensures
        r@ == spec_fluent_method(method@, macro_config@, method_config@, bare_ty@),
{
    let name = fluent_ident(method, macro_config, method_config);
    let doc = fluent_doc(method, macro_config, method_config, bare_ty);
    let params = simplify_fn_args(&method.params);
    let generics = crate::model::clone_gen_params(&method.generics);
    let call_generics = get_generic_params(&method.generics);
    let call_args = get_call_args(&params);
    let body = MethodBody::Forward(
        ForwardCall { callee: method.name.clone(), generics: call_generics, args: call_args },
    );
    let r = MethodDecl {
        name,
        vis: method.vis,
        receiver: ReceiverKind::ByValue,
        params,
        generics,
        ret: Some(String::from_str("Self")),
        doc: Some(doc),
        attrs: clone_attrs(&method.attrs),
        body,
    };
    proof {
        assert(r@ =~= spec_fluent_method(method@, macro_config@, method_config@, bare_ty@));
    }
    r
}

} // verus!
