//! PlacementPlanner and the engine's entry point: resolves every method's
//! configuration, decides in-place versus new-sibling placement, and
//! assembles the output containers.

use vstd::prelude::*;

use crate::config::{MacroConfig, MacroConfigV, MethodConfig, MethodConfigV};
use crate::model::{
    clone_gen_params, clone_method, clone_opt_string, Container, ContainerV, Error, ErrorV,
    MetaItem, MethodDecl, MethodDeclV,
};
use crate::method::{
    fluent_from_fluentable, spec_fluent_method, spec_method_config_of, spec_selected,
    try_fluentable,
};
use crate::strings::{replace, spec_replaced};
use crate::type_utils::{bare_ty_str, spec_first_token};

verus! {

// ------------------------------------------------------------------
// Placement policy
// ------------------------------------------------------------------
/// The counterpart goes right below its source: selected, and in-place
/// placement holds at container or method level.
pub open spec fn spec_gen_inplace(m: MethodDeclV, mc: MethodConfigV, cc: MacroConfigV) -> bool {
    spec_selected(m, cc, mc) && (cc.inblock || mc.inblock == Some(true))
}

/// The counterpart goes to the new sibling: selected and not overridden
/// to in-place (only reached when the container itself is not in-place).
pub open spec fn spec_gen_newblock(m: MethodDeclV, mc: MethodConfigV, cc: MacroConfigV) -> bool {
    spec_selected(m, cc, mc) && mc.inblock != Some(true)
}

/// Every method's configuration, resolved in declaration order; the
/// first malformed occurrence aborts.
pub open spec fn spec_method_configs(ms: Seq<MethodDeclV>) -> Result<Seq<MethodConfigV>, ErrorV>
    decreases ms.len(),
{
    if ms.len() == 0 {
        Ok(Seq::empty())
    } else {
        match spec_method_configs(ms.drop_last()) {
            Ok(cs) => match spec_method_config_of(ms.last()) {
                Ok(c) => Ok(cs.push(c)),
                Err(e) => Err(e),
            },
            Err(e) => Err(e),
        }
    }
}

/// The updated original container's method list: all methods kept in
/// their relative order, each in-place counterpart immediately after its
/// source.
pub open spec fn spec_inblock_methods(
    ms: Seq<MethodDeclV>,
    mcs: Seq<MethodConfigV>,
    cc: MacroConfigV,
    bare: Seq<char>,
) -> Seq<MethodDeclV>
    decreases ms.len(),
{
    if ms.len() == 0 {
        Seq::empty()
    } else {
        spec_inblock_methods(ms.drop_last(), mcs.drop_last(), cc, bare) + (if spec_gen_inplace(
            ms.last(),
            mcs.last(),
            cc,
        ) {
            seq![ms.last(), spec_fluent_method(ms.last(), cc, mcs.last(), bare)]
        } else {
            seq![ms.last()]
        })
    }
}

/// The new sibling's method list: counterparts of the remaining selected
/// methods, in their sources' relative order.
pub open spec fn spec_newblock_methods(
    ms: Seq<MethodDeclV>,
    mcs: Seq<MethodConfigV>,
    cc: MacroConfigV,
    bare: Seq<char>,
) -> Seq<MethodDeclV>
    decreases ms.len(),
{
    if ms.len() == 0 {
        Seq::empty()
    } else {
        spec_newblock_methods(ms.drop_last(), mcs.drop_last(), cc, bare) + (if spec_gen_newblock(
            ms.last(),
            mcs.last(),
            cc,
        ) {
            seq![spec_fluent_method(ms.last(), cc, mcs.last(), bare)]
        } else {
            Seq::empty()
        })
    }
}

/// The counterparts of all selected methods, in their sources' relative
/// order, regardless of placement.
pub open spec fn spec_selected_counterparts(
    ms: Seq<MethodDeclV>,
    mcs: Seq<MethodConfigV>,
    cc: MacroConfigV,
    bare: Seq<char>,
) -> Seq<MethodDeclV>
    decreases ms.len(),
{
    if ms.len() == 0 {
        Seq::empty()
    } else {
        spec_selected_counterparts(ms.drop_last(), mcs.drop_last(), cc, bare) + (if spec_selected(
            ms.last(),
            cc,
            mcs.last(),
        ) {
            seq![spec_fluent_method(ms.last(), cc, mcs.last(), bare)]
        } else {
            Seq::empty()
        })
    }
}

/// Whether any method is selected at all; only then is the owner type
/// ever rendered.
pub open spec fn spec_any_selected(
    ms: Seq<MethodDeclV>,
    mcs: Seq<MethodConfigV>,
    cc: MacroConfigV,
) -> bool {
    exists|i: int| 0 <= i < ms.len() && spec_selected(ms[i], cc, mcs[i])
}

/// The engine's outputs for a container under a resolved configuration:
/// the updated original, and the new sibling when it is non-empty.
pub open spec fn spec_gen_fluent(c: ContainerV, cc: MacroConfigV) -> Result<
    (ContainerV, Option<ContainerV>),
    ErrorV,
> {
    if c.trait_impl {
        Err(ErrorV::IneligibleInput)
    } else {
        match spec_method_configs(c.methods) {
            Ok(mcs) => if spec_any_selected(c.methods, mcs, cc) && c.self_ty.len() == 0 {
                Err(ErrorV::TypeRender)
            } else {
                let bare = spec_first_token(c.self_ty);
                let updated = ContainerV {
                    methods: spec_inblock_methods(c.methods, mcs, cc, bare),
                    ..c
                };
                let news = spec_newblock_methods(c.methods, mcs, cc, bare);
                let fresh = if cc.inblock || news.len() == 0 {
                    None
                } else {
                    Some(
                        ContainerV {
                            self_ty: c.self_ty,
                            generics: c.generics,
                            methods: news,
                            doc: Some(spec_replaced(cc.impl_doc, "%t%"@, bare)),
                            trait_impl: false,
                        },
                    )
                };
                Ok((updated, fresh))
            },
            Err(e) => Err(e),
        }
    }
}

/// The whole transformation: the container attribute occurrence resolved
/// first, then the outputs.
pub open spec fn spec_transform(c: ContainerV, attr: Seq<crate::model::MetaItemV>) -> Result<
    (ContainerV, Option<ContainerV>),
    ErrorV,
> {
    match crate::config::spec_parse_items(attr) {
        Ok(ai) => match crate::config::spec_get_proc_macro_config(ai) {
            Ok(cc) => spec_gen_fluent(c, cc),
            Err(e) => Err(e),
        },
        Err(e) => Err(e),
    }
}

proof fn lemma_method_configs_err_sticks(ms: Seq<MethodDeclV>, i: int)
    requires
        0 <= i <= ms.len(),
        spec_method_configs(ms.take(i)) is Err,
    ensures
        spec_method_configs(ms) == spec_method_configs(ms.take(i)),
    decreases ms.len() - i,
{
    if i == ms.len() {
        assert(ms.take(i) =~= ms);
    } else {
        assert(ms.take(i + 1).drop_last() =~= ms.take(i));
        lemma_method_configs_err_sticks(ms, i + 1);
    }
}

/// Resolves every method's configuration in declaration order.
fn resolve_method_configs(methods: &Vec<MethodDecl>) -> (r: Result<Vec<MethodConfig>, Error>)
    ensures
        match r {
            Ok(cs) => spec_method_configs(methods.deep_view()) == Ok::<
                Seq<MethodConfigV>,
                ErrorV,
            >(cs.deep_view()),
            Err(e) => spec_method_configs(methods.deep_view()) == Err::<
                Seq<MethodConfigV>,
                ErrorV,
            >(e@),
        },
        r is Ok ==> r->Ok_0@.len() == methods@.len(),
{
    let ghost dvm = methods.deep_view();
    let mut out: Vec<MethodConfig> = Vec::new();
    let mut i: usize = 0;
    proof {
        assert(dvm.take(0) =~= Seq::<MethodDeclV>::empty());
        assert(out.deep_view() =~= Seq::<MethodConfigV>::empty());
    }
    while i < methods.len()
        invariant
            i <= methods.len(),
            dvm == methods.deep_view(),
            out@.len() == i,
            spec_method_configs(dvm.take(i as int)) == Ok::<Seq<MethodConfigV>, ErrorV>(
                out.deep_view(),
            ),
        decreases methods.len() - i,
    {
        proof {
            assert(dvm.take(i + 1).drop_last() =~= dvm.take(i as int));
            assert(dvm.take(i + 1).last() == dvm[i as int]);
        }
        match crate::method::get_method_config(&methods[i].attrs) {
            Ok(c) => {
                let ghost dv0 = out.deep_view();
                out.push(c);
                proof {
                    assert(out.deep_view() =~= dv0.push(c@));
                }
            },
            Err(e) => {
                proof {
                    lemma_method_configs_err_sticks(dvm, i + 1);
                }
                return Err(e);
            },
        }
        i += 1;
    }
    proof {
        assert(dvm.take(methods.len() as int) =~= dvm);
    }
    Ok(out)
}

/// Whether any method is selected under these configurations.
fn any_selected(
    methods: &Vec<MethodDecl>,
    configs: &Vec<MethodConfig>,
    macro_config: &MacroConfig,
) -> (r: bool)
    requires
        configs@.len() == methods@.len(),
    ensures
        r == spec_any_selected(methods.deep_view(), configs.deep_view(), macro_config@),
{
    let mut i: usize = 0;
    while i < methods.len()
        invariant
            i <= methods.len(),
            configs@.len() == methods@.len(),
            forall|k: int|
                0 <= k < i ==> !spec_selected(
                    methods.deep_view()[k],
                    macro_config@,
                    configs.deep_view()[k],
                ),
        decreases methods.len() - i,
    {
        if try_fluentable(&methods[i], macro_config, &configs[i]) {
            proof {
                assert(spec_selected(
                    methods.deep_view()[i as int],
                    macro_config@,
                    configs.deep_view()[i as int],
                ));
            }
            return true;
        }
        i += 1;
    }
    false
}

// ------------------------------------------------------------------
// Placement execution
// ------------------------------------------------------------------
/// The in-place half of the placement: every method kept, each selected
/// in-place method immediately followed by its counterpart.
pub fn gen_fluent_inblock(
    methods: &Vec<MethodDecl>,
    configs: &Vec<MethodConfig>,
    macro_config: &MacroConfig,
    bare_ty: &str,
) -> (r: Vec<MethodDecl>)
    requires
        configs@.len() == methods@.len(),
    ensures
        r.deep_view() == spec_inblock_methods(
            methods.deep_view(),
            configs.deep_view(),
            macro_config@,
            bare_ty@,
        ),
{
    let ghost dvm = methods.deep_view();
    let ghost dvc = configs.deep_view();
    let mut out: Vec<MethodDecl> = Vec::new();
    let mut i: usize = 0;
    proof {
        assert(dvm.take(0) =~= Seq::<MethodDeclV>::empty());
        assert(dvc.take(0) =~= Seq::<MethodConfigV>::empty());
        assert(out.deep_view() =~= spec_inblock_methods(
            dvm.take(0),
            dvc.take(0),
            macro_config@,
            bare_ty@,
        ));
    }
    while i < methods.len()
        invariant
            i <= methods.len(),
            dvm == methods.deep_view(),
            dvc == configs.deep_view(),
            configs@.len() == methods@.len(),
            out.deep_view() == spec_inblock_methods(
                dvm.take(i as int),
                dvc.take(i as int),
                macro_config@,
                bare_ty@,
            ),
        decreases methods.len() - i,
    {
        proof {
            assert(dvm.take(i + 1).drop_last() =~= dvm.take(i as int));
            assert(dvc.take(i + 1).drop_last() =~= dvc.take(i as int));
            assert(dvm.take(i + 1).last() == dvm[i as int]);
            assert(dvc.take(i + 1).last() == dvc[i as int]);
        }
        let ghost dv0 = out.deep_view();
        let m = &methods[i];
        let mc_inblock = match configs[i].inblock {
            Some(b) => b,
            None => false,
        };
        out.push(clone_method(m));
        if try_fluentable(m, macro_config, &configs[i]) && (macro_config.inblock || mc_inblock) {
            out.push(fluent_from_fluentable(m, macro_config, &configs[i], bare_ty));
            proof {
                assert(out.deep_view() =~= dv0 + seq![
                    dvm[i as int],
                    spec_fluent_method(dvm[i as int], macro_config@, dvc[i as int], bare_ty@),
                ]);
            }
        } else {
            proof {
                assert(out.deep_view() =~= dv0 + seq![dvm[i as int]]);
            }
        }
        i += 1;
    }
    proof {
        assert(dvm.take(methods.len() as int) =~= dvm);
        assert(dvc.take(methods.len() as int) =~= dvc);
    }
    out
}

/// The new-sibling half of the placement: counterparts of the remaining
/// selected methods in source order; empty when the container itself is
/// in-place.
pub fn gen_fluent_new_block(
    methods: &Vec<MethodDecl>,
    configs: &Vec<MethodConfig>,
    macro_config: &MacroConfig,
    bare_ty: &str,
) -> (r: Vec<MethodDecl>)
    requires
        configs@.len() == methods@.len(),
    ensures
        r.deep_view() == if macro_config@.inblock {
            Seq::<MethodDeclV>::empty()
        } else {
            spec_newblock_methods(
                methods.deep_view(),
                configs.deep_view(),
                macro_config@,
                bare_ty@,
            )
        },
{
    let mut out: Vec<MethodDecl> = Vec::new();
    proof {
        assert(out.deep_view() =~= Seq::<MethodDeclV>::empty());
    }
    if macro_config.inblock {
        return out;
    }
    let ghost dvm = methods.deep_view();
    let ghost dvc = configs.deep_view();
    let mut i: usize = 0;
    proof {
        assert(dvm.take(0) =~= Seq::<MethodDeclV>::empty());
        assert(dvc.take(0) =~= Seq::<MethodConfigV>::empty());
    }
    while i < methods.len()
        invariant
            i <= methods.len(),
            dvm == methods.deep_view(),
            dvc == configs.deep_view(),
            configs@.len() == methods@.len(),
            out.deep_view() == spec_newblock_methods(
                dvm.take(i as int),
                dvc.take(i as int),
                macro_config@,
                bare_ty@,
            ),
        decreases methods.len() - i,
    {
        proof {
            assert(dvm.take(i + 1).drop_last() =~= dvm.take(i as int));
            assert(dvc.take(i + 1).drop_last() =~= dvc.take(i as int));
            assert(dvm.take(i + 1).last() == dvm[i as int]);
            assert(dvc.take(i + 1).last() == dvc[i as int]);
        }
        let ghost dv0 = out.deep_view();
        let m = &methods[i];
        let mc_inblock = match configs[i].inblock {
            Some(b) => b,
            None => false,
        };
        if try_fluentable(m, macro_config, &configs[i]) && !mc_inblock {
            out.push(fluent_from_fluentable(m, macro_config, &configs[i], bare_ty));
            proof {
                assert(out.deep_view() =~= dv0 + seq![
                    spec_fluent_method(dvm[i as int], macro_config@, dvc[i as int], bare_ty@),
                ]);
            }
        } else {
            proof {
                assert(out.deep_view() =~= dv0 + Seq::<MethodDeclV>::empty());
            }
        }
        i += 1;
    }
    proof {
        assert(dvm.take(methods.len() as int) =~= dvm);
        assert(dvc.take(methods.len() as int) =~= dvc);
    }
    out
}

// ------------------------------------------------------------------
// The whole container
// ------------------------------------------------------------------
/// The engine on one container under an already resolved configuration.
pub fn gen_fluent_from_impl_block(container: &Container, macro_config: &MacroConfig) -> (r:
    Result<(Container, Option<Container>), Error>)
    ensures
        match r {
            Ok(pair) => spec_gen_fluent(container@, macro_config@) == Ok::<
                (ContainerV, Option<ContainerV>),
                ErrorV,
            >((pair.0@, pair.1.deep_view())),
            Err(e) => spec_gen_fluent(container@, macro_config@) == Err::<
                (ContainerV, Option<ContainerV>),
                ErrorV,
            >(e@),
        },
{
    if container.trait_impl {
        return Err(Error::IneligibleInput);
    }
    let configs = match resolve_method_configs(&container.methods) {
        Ok(cs) => cs,
        Err(e) => {
            return Err(e);
        },
    };
    let any = any_selected(&container.methods, &configs, macro_config);
    let ty_empty = container.self_ty.as_str().is_empty();
    if any && ty_empty {
        return Err(Error::TypeRender);
    }
    let bare: String = if ty_empty {
        proof {
            assert(container@.self_ty =~= Seq::<char>::empty());
        }
        String::new()
    } else {
        match bare_ty_str(container.self_ty.as_str()) {
            Ok(b) => b,
            Err(_) => {
                proof {
                    assert(false);
                }
                String::new()
            },
        }
    };
    let updated_methods = gen_fluent_inblock(
        &container.methods,
        &configs,
        macro_config,
        bare.as_str(),
    );
    let updated = Container {
        self_ty: container.self_ty.clone(),
        generics: clone_gen_params(&container.generics),
        methods: updated_methods,
        doc: clone_opt_string(&container.doc),
        trait_impl: false,
    };
    let news = gen_fluent_new_block(&container.methods, &configs, macro_config, bare.as_str());
    let fresh: Option<Container> = if macro_config.inblock || news.len() == 0 {
        None
    } else {
        proof {
            reveal_strlit("%t%");
        }
        let doc = replace(macro_config.impl_doc.as_str(), "%t%", bare.as_str());
        Some(
            Container {
                self_ty: container.self_ty.clone(),
                generics: clone_gen_params(&container.generics),
                methods: news,
                doc: Some(doc),
                trait_impl: false,
            },
        )
    };
    proof {
        assert(updated@ =~= spec_gen_fluent(container@, macro_config@)->Ok_0.0);
        assert(fresh.deep_view() =~= spec_gen_fluent(container@, macro_config@)->Ok_0.1);
    }
    Ok((updated, fresh))
}

/// The engine's entry point: one container and the raw container
/// attribute occurrence in; the updated original container and the
/// optional new sibling out.
pub fn transform(container: &Container, attr_items: &Vec<MetaItem>) -> (r: Result<
    (Container, Option<Container>),
    Error,
>)
    ensures
        match r {
            Ok(pair) => spec_transform(container@, attr_items.deep_view()) == Ok::<
                (ContainerV, Option<ContainerV>),
                ErrorV,
            >((pair.0@, pair.1.deep_view())),
            Err(e) => spec_transform(container@, attr_items.deep_view()) == Err::<
                (ContainerV, Option<ContainerV>),
                ErrorV,
            >(e@),
        },
{
    let attr_info = match crate::config::parse_config_from_attr(attr_items) {
        Ok(ai) => ai,
        Err(e) => {
            return Err(e);
        },
    };
    let macro_config = match crate::config::get_proc_macro_config(attr_info) {
        Ok(c) => c,
        Err(e) => {
            return Err(e);
        },
    };
    gen_fluent_from_impl_block(container, &macro_config)
}

} // verus!
