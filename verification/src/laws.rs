//! The engine's general guarantees, stated and proved over the spec-level
//! model: eligibility is conservative, generated names follow the layered
//! formula, conflicting or repeated configuration never resolves, and the
//! default placement leaves the original container untouched.

use vstd::prelude::*;

use crate::config::{
    spec_c_kvs, spec_c_words, spec_default_method_config, spec_get_method_config,
    spec_get_proc_macro_config, spec_m_kv, spec_m_kvs, spec_m_word, spec_m_words,
    spec_parse_items, spec_unset_macro_opts, AttrInfoV, MacroConfigV, MacroOptsV, MethodConfigV,
};
use crate::method::spec_fold_method_attrs;
use crate::impl_block::{spec_inblock_methods, spec_newblock_methods, spec_selected_counterparts};
use crate::method::{
    spec_arg_ident, spec_fluent_method, spec_fluent_name, spec_selected, spec_simplified_params,
};
use crate::model::{BindingV, ErrorV, MetaItemV, MethodDeclV, ParamV, ReceiverKind, Visibility};

verus! {

// ------------------------------------------------------------------
// Eligibility is conservative
// ------------------------------------------------------------------
/// A method whose receiver is not by-mutable-reference, or whose return
/// type is not unit, is never selected: no chaining counterpart is ever
/// generated from it, under any configuration.
pub proof fn lemma_non_chainable_never_selected(
    m: MethodDeclV,
    cc: MacroConfigV,
    mc: MethodConfigV,
)
    requires
        m.receiver != ReceiverKind::ByMutRef || m.ret is Some,
    ensures
        !spec_selected(m, cc, mc),
{
}

/// A method with `skip` set is never selected, chainable or not.
pub proof fn lemma_skip_never_selected(m: MethodDeclV, cc: MacroConfigV, mc: MethodConfigV)
    requires
        mc.skip,
    ensures
        !spec_selected(m, cc, mc),
{
}

/// A restricted-visibility method is selected only when `non_public` is
/// enabled at container or method level.
pub proof fn lemma_restricted_needs_non_public(
    m: MethodDeclV,
    cc: MacroConfigV,
    mc: MethodConfigV,
)
    requires
        m.vis != Visibility::Public,
        !cc.non_public,
        mc.non_public != Some(true),
    ensures
        !spec_selected(m, cc, mc),
{
}

/// Where no method is selected, both placements generate nothing: the
/// original method list comes back unchanged and the sibling list is
/// empty.
pub proof fn lemma_no_selection_no_generation(
    ms: Seq<MethodDeclV>,
    mcs: Seq<MethodConfigV>,
    cc: MacroConfigV,
    bare: Seq<char>,
)
    requires
        mcs.len() == ms.len(),
        forall|i: int| 0 <= i < ms.len() ==> !spec_selected(ms[i], cc, mcs[i]),
    ensures
        spec_inblock_methods(ms, mcs, cc, bare) == ms,
        spec_newblock_methods(ms, mcs, cc, bare) == Seq::<MethodDeclV>::empty(),
    decreases ms.len(),
{
    if ms.len() == 0 {
        assert(spec_inblock_methods(ms, mcs, cc, bare) =~= ms);
        assert(spec_newblock_methods(ms, mcs, cc, bare) =~= Seq::<MethodDeclV>::empty());
    } else {
        lemma_no_selection_no_generation(ms.drop_last(), mcs.drop_last(), cc, bare);
        assert(spec_inblock_methods(ms, mcs, cc, bare) =~= ms);
        assert(spec_newblock_methods(ms, mcs, cc, bare) =~= Seq::<MethodDeclV>::empty());
    }
}

/// `x` is the counterpart of some selected method of `ms`.
pub open spec fn spec_stems_from_selected(
    x: MethodDeclV,
    ms: Seq<MethodDeclV>,
    mcs: Seq<MethodConfigV>,
    cc: MacroConfigV,
    bare: Seq<char>,
) -> bool {
    exists|i: int|
        0 <= i < ms.len() && spec_selected(ms[i], cc, mcs[i]) && x == spec_fluent_method(
            ms[i],
            cc,
            mcs[i],
            bare,
        )
}

/// `x` is one of the source methods of `ms`.
pub open spec fn spec_is_source(x: MethodDeclV, ms: Seq<MethodDeclV>) -> bool {
    exists|i: int| 0 <= i < ms.len() && x == ms[i]
}

/// Everything the engine emits stems from its sources: each sibling
/// entry is the counterpart of some selected method, and each entry of
/// the updated container is a source method or the counterpart of a
/// selected one. With the lemmas above, nothing is ever generated from a
/// non-chainable or skipped method.
pub proof fn lemma_outputs_stem_from_selected(
    ms: Seq<MethodDeclV>,
    mcs: Seq<MethodConfigV>,
    cc: MacroConfigV,
    bare: Seq<char>,
)
    requires
        mcs.len() == ms.len(),
    ensures
        forall|k: int|
            0 <= k < spec_newblock_methods(ms, mcs, cc, bare).len() ==> spec_stems_from_selected(
                #[trigger] spec_newblock_methods(ms, mcs, cc, bare)[k],
                ms,
                mcs,
                cc,
                bare,
            ),
        forall|k: int|
            0 <= k < spec_inblock_methods(ms, mcs, cc, bare).len() ==> spec_is_source(
                #[trigger] spec_inblock_methods(ms, mcs, cc, bare)[k],
                ms,
            ) || spec_stems_from_selected(
                spec_inblock_methods(ms, mcs, cc, bare)[k],
                ms,
                mcs,
                cc,
                bare,
            ),
    decreases ms.len(),
{
    if ms.len() > 0 {
        let pms = ms.drop_last();
        let pcs = mcs.drop_last();
        lemma_outputs_stem_from_selected(pms, pcs, cc, bare);
        let last = ms.len() - 1;
        let nb = spec_newblock_methods(ms, mcs, cc, bare);
        let pnb = spec_newblock_methods(pms, pcs, cc, bare);
        assert forall|k: int| 0 <= k < nb.len() implies spec_stems_from_selected(
            #[trigger] nb[k],
            ms,
            mcs,
            cc,
            bare,
        ) by {
            if k < pnb.len() {
                assert(spec_stems_from_selected(pnb[k], pms, pcs, cc, bare));
                let i = choose|i: int|
                    0 <= i < pms.len() && spec_selected(pms[i], cc, pcs[i]) && pnb[k]
                        == spec_fluent_method(pms[i], cc, pcs[i], bare);
                assert(pms[i] == ms[i] && pcs[i] == mcs[i]);
                assert(nb[k] == spec_fluent_method(ms[i], cc, mcs[i], bare));
            } else {
                assert(spec_selected(ms[last], cc, mcs[last]) && nb[k] == spec_fluent_method(
                    ms[last],
                    cc,
                    mcs[last],
                    bare,
                ));
            }
        }
        let ib = spec_inblock_methods(ms, mcs, cc, bare);
        let pib = spec_inblock_methods(pms, pcs, cc, bare);
        assert forall|k: int| 0 <= k < ib.len() implies spec_is_source(#[trigger] ib[k], ms)
            || spec_stems_from_selected(ib[k], ms, mcs, cc, bare) by {
            if k < pib.len() {
                if spec_is_source(pib[k], pms) {
                    let i = choose|i: int| 0 <= i < pms.len() && pib[k] == pms[i];
                    assert(ib[k] == ms[i]);
                } else {
                    assert(spec_stems_from_selected(pib[k], pms, pcs, cc, bare));
                    let i = choose|i: int|
                        0 <= i < pms.len() && spec_selected(pms[i], cc, pcs[i]) && pib[k]
                            == spec_fluent_method(pms[i], cc, pcs[i], bare);
                    assert(pms[i] == ms[i] && pcs[i] == mcs[i]);
                    assert(spec_selected(ms[i], cc, mcs[i]) && ib[k] == spec_fluent_method(
                        ms[i],
                        cc,
                        mcs[i],
                        bare,
                    ));
                }
            } else if k == pib.len() {
                assert(ib[k] == ms[last]);
            } else {
                assert(spec_selected(ms[last], cc, mcs[last]) && ib[k] == spec_fluent_method(
                    ms[last],
                    cc,
                    mcs[last],
                    bare,
                ));
            }
        }
    }
}

// ------------------------------------------------------------------
// The generated name
// ------------------------------------------------------------------
/// The generated counterpart's name is the explicit `name` if set, else
/// `(prefix ?? container prefix) + (rename ?? original name)`.
pub proof fn lemma_generated_name(
    m: MethodDeclV,
    cc: MacroConfigV,
    mc: MethodConfigV,
    bare: Seq<char>,
)
    ensures
        spec_fluent_method(m, cc, mc, bare).name == spec_fluent_name(m, cc, mc),
        mc.name is Some ==> spec_fluent_name(m, cc, mc) == mc.name->0,
        mc.name is None && mc.prefix is Some && mc.rename is Some ==> spec_fluent_name(m, cc, mc)
            == mc.prefix->0 + mc.rename->0,
        mc.name is None && mc.prefix is Some && mc.rename is None ==> spec_fluent_name(m, cc, mc)
            == mc.prefix->0 + m.name,
        mc.name is None && mc.prefix is None && mc.rename is Some ==> spec_fluent_name(m, cc, mc)
            == cc.prefix + mc.rename->0,
        mc.name is None && mc.prefix is None && mc.rename is None ==> spec_fluent_name(m, cc, mc)
            == cc.prefix + m.name,
{
}

// ------------------------------------------------------------------
// Mutual exclusion and non-empty names
// ------------------------------------------------------------------
/// A method configuration with `name` set next to `prefix` or `rename`
/// never resolves: finalization rejects it as a conflict.
pub proof fn lemma_name_mutual_exclusion(a: AttrInfoV, pre: MethodConfigV)
    ensures
        match spec_get_method_config(a, pre) {
            Ok(c) => !(c.name is Some && (c.prefix is Some || c.rename is Some)),
            Err(_) => true,
        },
        forall|c: MethodConfigV|
            c.name is Some && (c.prefix is Some || c.rename is Some)
                ==> #[trigger] crate::config::spec_m_validate(c) == Err::<MethodConfigV, ErrorV>(
                ErrorV::ConfigConflict("name"@),
            ),
{
}

/// A resolved configuration never carries an empty `name`, `rename` or
/// `prefix`, and a resolved container configuration never carries an
/// empty prefix: the empty string always fails validation.
pub proof fn lemma_empty_strings_never_resolve(a: AttrInfoV, pre: MethodConfigV)
    ensures
        match spec_get_method_config(a, pre) {
            Ok(c) => (match c.name {
                Some(n) => n.len() > 0,
                None => true,
            }) && (match c.rename {
                Some(n) => n.len() > 0,
                None => true,
            }) && (match c.prefix {
                Some(n) => n.len() > 0,
                None => true,
            }),
            Err(_) => true,
        },
        match spec_get_proc_macro_config(a) {
            Ok(cc) => cc.prefix.len() > 0,
            Err(_) => true,
        },
{
}

// ------------------------------------------------------------------
// Default placement
// ------------------------------------------------------------------
/// With the container not in-place and no method overriding placement,
/// the original container's method list is unchanged and the sibling
/// holds the counterparts of exactly the selected methods, in their
/// sources' relative order.
pub proof fn lemma_default_placement(
    ms: Seq<MethodDeclV>,
    mcs: Seq<MethodConfigV>,
    cc: MacroConfigV,
    bare: Seq<char>,
)
    requires
        mcs.len() == ms.len(),
        !cc.inblock,
        forall|i: int| 0 <= i < ms.len() ==> #[trigger] mcs[i].inblock != Some(true),
    ensures
        spec_inblock_methods(ms, mcs, cc, bare) == ms,
        spec_newblock_methods(ms, mcs, cc, bare) == spec_selected_counterparts(
            ms,
            mcs,
            cc,
            bare,
        ),
    decreases ms.len(),
{
    if ms.len() == 0 {
        assert(spec_inblock_methods(ms, mcs, cc, bare) =~= ms);
        assert(spec_newblock_methods(ms, mcs, cc, bare) =~= spec_selected_counterparts(
            ms,
            mcs,
            cc,
            bare,
        ));
    } else {
        lemma_default_placement(ms.drop_last(), mcs.drop_last(), cc, bare);
        assert(spec_inblock_methods(ms, mcs, cc, bare) =~= ms);
        assert(spec_newblock_methods(ms, mcs, cc, bare) =~= spec_selected_counterparts(
            ms,
            mcs,
            cc,
            bare,
        ));
    }
}

// ------------------------------------------------------------------
// Set-once folding
// ------------------------------------------------------------------
/// Whether the option named `x` is already set in a method state.
/// Tokens outside the method vocabulary count as set: applying them can
/// only fail.
pub open spec fn spec_m_option_set(c: MethodConfigV, x: Seq<char>) -> bool {
    if x == "inblock"@ {
        c.inblock is Some
    } else if x == "non_public"@ {
        c.non_public is Some
    } else if x == "skip"@ {
        c.skip
    } else if x == "prefix"@ {
        c.prefix is Some
    } else if x == "name"@ {
        c.name is Some
    } else if x == "rename"@ {
        c.rename is Some
    } else if x == "doc"@ {
        c.doc is Some
    } else {
        true
    }
}

/// The keys of a key/value list, in order.
pub open spec fn spec_kv_keys(kvs: Seq<(Seq<char>, Seq<char>)>) -> Seq<Seq<char>> {
    Seq::new(kvs.len(), |i: int| kvs[i].0)
}

/// Whether one normalized occurrence names the option `x`, as a bare
/// word or as a key.
pub open spec fn spec_attr_mentions(a: AttrInfoV, x: Seq<char>) -> bool {
    a.names.contains(x) || spec_kv_keys(a.name_vals).contains(x)
}

proof fn lemma_contains_split<T>(s: Seq<T>, x: T)
    requires
        s.len() > 0,
    ensures
        s.contains(x) <==> (s.drop_last().contains(x) || s.last() == x),
{
    if s.contains(x) {
        let i = choose|i: int| 0 <= i < s.len() && s[i] == x;
        if i < s.len() - 1 {
            assert(s.drop_last()[i] == x);
        }
    }
    if s.drop_last().contains(x) {
        let i = choose|i: int| 0 <= i < s.drop_last().len() && s.drop_last()[i] == x;
        assert(s[i] == x);
    }
}

proof fn lemma_vocab_distinct()
    ensures
        "inblock"@ != "prefix"@,
        "inblock"@ != "name"@,
        "inblock"@ != "rename"@,
        "inblock"@ != "doc"@,
        "non_public"@ != "prefix"@,
        "non_public"@ != "name"@,
        "non_public"@ != "rename"@,
        "non_public"@ != "doc"@,
        "skip"@ != "prefix"@,
        "skip"@ != "name"@,
        "skip"@ != "rename"@,
        "skip"@ != "doc"@,
{
    reveal_strlit("inblock");
    reveal_strlit("non_public");
    reveal_strlit("skip");
    reveal_strlit("prefix");
    reveal_strlit("name");
    reveal_strlit("rename");
    reveal_strlit("doc");
    assert("inblock"@.len() == 7);
    assert("non_public"@.len() == 10);
    assert("skip"@.len() == 4);
    assert("prefix"@.len() == 6);
    assert("name"@.len() == 4);
    assert("rename"@.len() == 6);
    assert("doc"@.len() == 3);
    assert("skip"@[0] == 's');
    assert("name"@[0] == 'n');
    assert(!("skip"@ =~= "name"@));
}

/// Applying a bare word whose option is already set never succeeds; a
/// vocabulary word fails precisely as a conflict on that option.
proof fn lemma_m_word_set_errs(c: MethodConfigV, w: Seq<char>)
    requires
        spec_m_option_set(c, w),
    ensures
        spec_m_word(c, w) is Err,
{
    reveal_strlit("inblock");
    reveal_strlit("non_public");
    reveal_strlit("skip");
    reveal_strlit("prefix");
    reveal_strlit("name");
    reveal_strlit("rename");
    reveal_strlit("doc");
}

/// An applied bare word sets exactly its own option.
proof fn lemma_m_word_tracks(c: MethodConfigV, w: Seq<char>, c2: MethodConfigV, x: Seq<char>)
    requires
        spec_m_word(c, w) == Ok::<MethodConfigV, ErrorV>(c2),
    ensures
        spec_m_option_set(c2, x) == (spec_m_option_set(c, x) || x == w),
{
    reveal_strlit("inblock");
    reveal_strlit("non_public");
    reveal_strlit("skip");
    reveal_strlit("prefix");
    reveal_strlit("name");
    reveal_strlit("rename");
    reveal_strlit("doc");
}

proof fn lemma_m_words_ok_tracks(
    c: MethodConfigV,
    ws: Seq<Seq<char>>,
    c2: MethodConfigV,
    x: Seq<char>,
)
    requires
        spec_m_words(c, ws) == Ok::<MethodConfigV, ErrorV>(c2),
    ensures
        spec_m_option_set(c2, x) == (spec_m_option_set(c, x) || ws.contains(x)),
    decreases ws.len(),
{
    if ws.len() == 0 {
        assert(!ws.contains(x));
    } else {
        let prev = spec_m_words(c, ws.drop_last());
        let c1 = prev->Ok_0;
        lemma_m_words_ok_tracks(c, ws.drop_last(), c1, x);
        lemma_m_word_tracks(c1, ws.last(), c2, x);
        lemma_contains_split(ws, x);
    }
}

proof fn lemma_m_words_set_mention_errs(c: MethodConfigV, ws: Seq<Seq<char>>, x: Seq<char>)
    requires
        spec_m_option_set(c, x),
        ws.contains(x),
    ensures
        spec_m_words(c, ws) is Err,
    decreases ws.len(),
{
    lemma_contains_split(ws, x);
    let prev = spec_m_words(c, ws.drop_last());
    if prev is Ok {
        let c1 = prev->Ok_0;
        if ws.drop_last().contains(x) {
            lemma_m_words_set_mention_errs(c, ws.drop_last(), x);
        } else {
            lemma_m_words_ok_tracks(c, ws.drop_last(), c1, x);
            lemma_m_word_set_errs(c1, ws.last());
        }
    }
}

/// Applying a key/value pair whose key is already set never succeeds.
#[verifier::rlimit(50)]
proof fn lemma_m_kv_set_errs(c: MethodConfigV, k: Seq<char>, v: Seq<char>)
    requires
        spec_m_option_set(c, k),
    ensures
        spec_m_kv(c, k, v) is Err,
{
    lemma_vocab_distinct();
}

/// An applied key/value pair sets exactly its own option.
#[verifier::rlimit(50)]
proof fn lemma_m_kv_tracks(
    c: MethodConfigV,
    k: Seq<char>,
    v: Seq<char>,
    c2: MethodConfigV,
    x: Seq<char>,
)
    requires
        spec_m_kv(c, k, v) == Ok::<MethodConfigV, ErrorV>(c2),
    ensures
        spec_m_option_set(c2, x) == (spec_m_option_set(c, x) || x == k),
{
    lemma_vocab_distinct();
}

proof fn lemma_m_kvs_ok_tracks(
    c: MethodConfigV,
    kvs: Seq<(Seq<char>, Seq<char>)>,
    c2: MethodConfigV,
    x: Seq<char>,
)
    requires
        spec_m_kvs(c, kvs) == Ok::<MethodConfigV, ErrorV>(c2),
    ensures
        spec_m_option_set(c2, x) == (spec_m_option_set(c, x) || spec_kv_keys(kvs).contains(x)),
    decreases kvs.len(),
{
    if kvs.len() == 0 {
        assert(!spec_kv_keys(kvs).contains(x));
    } else {
        let prev = spec_m_kvs(c, kvs.drop_last());
        let c1 = prev->Ok_0;
        lemma_m_kvs_ok_tracks(c, kvs.drop_last(), c1, x);
        lemma_m_kv_tracks(c1, kvs.last().0, kvs.last().1, c2, x);
        lemma_contains_split(spec_kv_keys(kvs), x);
        assert(spec_kv_keys(kvs).drop_last() =~= spec_kv_keys(kvs.drop_last()));
        assert(spec_kv_keys(kvs).last() == kvs.last().0);
    }
}

proof fn lemma_m_kvs_set_mention_errs(
    c: MethodConfigV,
    kvs: Seq<(Seq<char>, Seq<char>)>,
    x: Seq<char>,
)
    requires
        spec_m_option_set(c, x),
        spec_kv_keys(kvs).contains(x),
    ensures
        spec_m_kvs(c, kvs) is Err,
    decreases kvs.len(),
{
    lemma_contains_split(spec_kv_keys(kvs), x);
    assert(spec_kv_keys(kvs).drop_last() =~= spec_kv_keys(kvs.drop_last()));
    assert(spec_kv_keys(kvs).last() == kvs.last().0);
    let prev = spec_m_kvs(c, kvs.drop_last());
    if prev is Ok {
        let c1 = prev->Ok_0;
        if spec_kv_keys(kvs.drop_last()).contains(x) {
            lemma_m_kvs_set_mention_errs(c, kvs.drop_last(), x);
        } else {
            lemma_m_kvs_ok_tracks(c, kvs.drop_last(), c1, x);
            lemma_m_kv_set_errs(c1, kvs.last().0, kvs.last().1);
        }
    }
}

/// One resolver call tracks set options exactly: afterwards an option is
/// set iff it was set before or the occurrence names it.
pub proof fn lemma_occurrence_tracks_options(
    a: AttrInfoV,
    c: MethodConfigV,
    c2: MethodConfigV,
    x: Seq<char>,
)
    requires
        spec_get_method_config(a, c) == Ok::<MethodConfigV, ErrorV>(c2),
    ensures
        spec_m_option_set(c2, x) == (spec_m_option_set(c, x) || spec_attr_mentions(a, x)),
{
    let cw = spec_m_words(c, a.names)->Ok_0;
    lemma_m_words_ok_tracks(c, a.names, cw, x);
    lemma_m_kvs_ok_tracks(cw, a.name_vals, spec_m_kvs(cw, a.name_vals)->Ok_0, x);
}

/// A second set fails: an occurrence naming an option that is already
/// set never resolves.
pub proof fn lemma_occurrence_second_set_fails(a: AttrInfoV, c: MethodConfigV, x: Seq<char>)
    requires
        spec_m_option_set(c, x),
        spec_attr_mentions(a, x),
    ensures
        spec_get_method_config(a, c) is Err,
{
    if a.names.contains(x) {
        lemma_m_words_set_mention_errs(c, a.names, x);
    } else {
        let words = spec_m_words(c, a.names);
        if words is Ok {
            lemma_m_words_ok_tracks(c, a.names, words->Ok_0, x);
            lemma_m_kvs_set_mention_errs(words->Ok_0, a.name_vals, x);
        }
    }
}

proof fn lemma_fold_prefix_ok(attrs: Seq<Seq<MetaItemV>>, l: int)
    requires
        0 <= l <= attrs.len(),
        spec_fold_method_attrs(spec_default_method_config(), attrs) is Ok,
    ensures
        spec_fold_method_attrs(spec_default_method_config(), attrs.take(l)) is Ok,
    decreases attrs.len() - l,
{
    if l == attrs.len() {
        assert(attrs.take(l) =~= attrs);
    } else {
        lemma_fold_prefix_ok(attrs, l + 1);
        assert(attrs.take(l + 1).drop_last() =~= attrs.take(l));
    }
}

proof fn lemma_fold_set_persists(attrs: Seq<Seq<MetaItemV>>, x: Seq<char>, l1: int, l2: int)
    requires
        0 <= l1 <= l2 <= attrs.len(),
        spec_fold_method_attrs(spec_default_method_config(), attrs.take(l2)) is Ok,
        spec_m_option_set(
            spec_fold_method_attrs(spec_default_method_config(), attrs.take(l1))->Ok_0,
            x,
        ),
    ensures
        spec_fold_method_attrs(spec_default_method_config(), attrs.take(l1)) is Ok,
        spec_m_option_set(
            spec_fold_method_attrs(spec_default_method_config(), attrs.take(l2))->Ok_0,
            x,
        ),
    decreases l2 - l1,
{
    if l1 == l2 {
        if !(spec_fold_method_attrs(spec_default_method_config(), attrs.take(l1)) is Ok) {
            assert(false);
        }
    } else {
        assert(attrs.take(l2).drop_last() =~= attrs.take(l2 - 1));
        assert(attrs.take(l2).last() == attrs[l2 - 1]);
        lemma_fold_set_persists(attrs, x, l1, l2 - 1);
        let cp = spec_fold_method_attrs(spec_default_method_config(), attrs.take(l2 - 1))->Ok_0;
        let c2 = spec_fold_method_attrs(spec_default_method_config(), attrs.take(l2))->Ok_0;
        let a = spec_parse_items(attrs[l2 - 1])->Ok_0;
        lemma_occurrence_tracks_options(a, cp, c2, x);
    }
}

/// Setting the same option in two method-level occurrences fails: the
/// whole fold over the method's occurrences resolves to an error.
pub proof fn lemma_same_option_twice_fails(
    attrs: Seq<Seq<MetaItemV>>,
    i: int,
    j: int,
    ai: AttrInfoV,
    aj: AttrInfoV,
    x: Seq<char>,
)
    requires
        0 <= i < j < attrs.len(),
        spec_parse_items(attrs[i]) == Ok::<AttrInfoV, ErrorV>(ai),
        spec_parse_items(attrs[j]) == Ok::<AttrInfoV, ErrorV>(aj),
        spec_attr_mentions(ai, x),
        spec_attr_mentions(aj, x),
    ensures
        spec_fold_method_attrs(spec_default_method_config(), attrs) is Err,
{
    if spec_fold_method_attrs(spec_default_method_config(), attrs) is Ok {
        lemma_fold_prefix_ok(attrs, i);
        lemma_fold_prefix_ok(attrs, i + 1);
        lemma_fold_prefix_ok(attrs, j);
        lemma_fold_prefix_ok(attrs, j + 1);
        assert(attrs.take(i + 1).drop_last() =~= attrs.take(i));
        assert(attrs.take(i + 1).last() == attrs[i]);
        let ci = spec_fold_method_attrs(spec_default_method_config(), attrs.take(i))->Ok_0;
        let ci1 = spec_fold_method_attrs(spec_default_method_config(), attrs.take(i + 1))->Ok_0;
        lemma_occurrence_tracks_options(ai, ci, ci1, x);
        lemma_fold_set_persists(attrs, x, i + 1, j);
        let cj = spec_fold_method_attrs(spec_default_method_config(), attrs.take(j))->Ok_0;
        lemma_occurrence_second_set_fails(aj, cj, x);
        assert(attrs.take(j + 1).drop_last() =~= attrs.take(j));
        assert(attrs.take(j + 1).last() == attrs[j]);
        assert(false);
    }
}

// ------------------------------------------------------------------
// An explicit empty prefix
// ------------------------------------------------------------------
proof fn lemma_m_words_keep_strings(c: MethodConfigV, ws: Seq<Seq<char>>, c2: MethodConfigV)
    requires
        spec_m_words(c, ws) == Ok::<MethodConfigV, ErrorV>(c2),
    ensures
        c2.prefix == c.prefix,
        c2.name == c.name,
        c2.rename == c.rename,
    decreases ws.len(),
{
    if ws.len() > 0 {
        let prev = spec_m_words(c, ws.drop_last());
        lemma_m_words_keep_strings(c, ws.drop_last(), prev->Ok_0);
    }
}

proof fn lemma_m_kvs_prefix_value(
    c: MethodConfigV,
    kvs: Seq<(Seq<char>, Seq<char>)>,
    c2: MethodConfigV,
    v: Seq<char>,
)
    requires
        spec_m_kvs(c, kvs) == Ok::<MethodConfigV, ErrorV>(c2),
        kvs.contains(("prefix"@, v)),
    ensures
        c2.prefix == Some(v),
    decreases kvs.len(),
{
    lemma_contains_split(kvs, ("prefix"@, v));
    let prev = spec_m_kvs(c, kvs.drop_last());
    let c1 = prev->Ok_0;
    if kvs.drop_last().contains(("prefix"@, v)) {
        lemma_m_kvs_prefix_value(c, kvs.drop_last(), c1, v);
    }
}

proof fn lemma_c_words_keep_strings(o: MacroOptsV, ws: Seq<Seq<char>>, o2: MacroOptsV)
    requires
        spec_c_words(o, ws) == Ok::<MacroOptsV, ErrorV>(o2),
    ensures
        o2.prefix == o.prefix,
    decreases ws.len(),
{
    if ws.len() > 0 {
        let prev = spec_c_words(o, ws.drop_last());
        lemma_c_words_keep_strings(o, ws.drop_last(), prev->Ok_0);
    }
}

proof fn lemma_c_kvs_prefix_value(
    o: MacroOptsV,
    kvs: Seq<(Seq<char>, Seq<char>)>,
    o2: MacroOptsV,
    v: Seq<char>,
)
    requires
        spec_c_kvs(o, kvs) == Ok::<MacroOptsV, ErrorV>(o2),
        kvs.contains(("prefix"@, v)),
    ensures
        o2.prefix == Some(v),
    decreases kvs.len(),
{
    lemma_contains_split(kvs, ("prefix"@, v));
    let prev = spec_c_kvs(o, kvs.drop_last());
    let o1 = prev->Ok_0;
    if kvs.drop_last().contains(("prefix"@, v)) {
        lemma_c_kvs_prefix_value(o, kvs.drop_last(), o1, v);
    }
}

/// An occurrence that sets `prefix` to the empty string never resolves,
/// on either surface: the empty prefix always fails validation.
pub proof fn lemma_explicit_empty_prefix_fails(a: AttrInfoV, pre: MethodConfigV)
    requires
        a.name_vals.contains(("prefix"@, ""@)),
    ensures
        spec_get_method_config(a, pre) is Err,
        spec_get_proc_macro_config(a) is Err,
{
    reveal_strlit("");
    if spec_get_method_config(a, pre) is Ok {
        let cw = spec_m_words(pre, a.names)->Ok_0;
        let ck = spec_m_kvs(cw, a.name_vals)->Ok_0;
        lemma_m_kvs_prefix_value(cw, a.name_vals, ck, ""@);
        assert(false);
    }
    if spec_get_proc_macro_config(a) is Ok {
        let ow = spec_c_words(spec_unset_macro_opts(), a.names)->Ok_0;
        let ok = spec_c_kvs(ow, a.name_vals)->Ok_0;
        lemma_c_kvs_prefix_value(ow, a.name_vals, ok, ""@);
        assert(false);
    }
}

// ------------------------------------------------------------------
// Parameter normalization
// ------------------------------------------------------------------
/// Normalization keeps every parameter's type and position; a plain
/// identifier binding is untouched, and a destructuring pattern is
/// re-bound to the fresh positional identifier.
pub proof fn lemma_param_normalization(ps: Seq<ParamV>)
    ensures
        spec_simplified_params(ps).len() == ps.len(),
        forall|i: int| 0 <= i < ps.len() ==> #[trigger] spec_simplified_params(ps)[i].ty
            == ps[i].ty,
        forall|i: int|
            0 <= i < ps.len() && ps[i].binding is Ident ==> #[trigger] spec_simplified_params(
                ps,
            )[i] == ps[i],
        forall|i: int|
            0 <= i < ps.len() && ps[i].binding is Pattern ==> #[trigger] spec_simplified_params(
                ps,
            )[i].binding == BindingV::Ident(spec_arg_ident(i)),
{
}

} // verus!
