//! Declaration model the engine works on: method declarations grouped in a
//! container, raw attribute occurrences already split into meta items, and
//! the engine's error taxonomy.
//!
//! Every executable type has a mathematical mirror (`...V`) over `Seq<char>`
//! reached through `View`/`DeepView`; the contracts speak of those mirrors.

use vstd::prelude::*;

verus! {

// ------------------------------------------------------------------
// Errors
// ------------------------------------------------------------------
/// Why a whole transformation is aborted. Eligibility misses are never
/// errors; only malformed configuration or input is.
#[derive(Debug)]
pub enum Error {
    /// An attribute occurrence item has a shape outside the grammar;
    /// carries the offending token's text.
    AttributeGrammar(String),
    /// A bare word or key unknown to the surface being resolved.
    UnknownOption(String),
    /// A field set twice, mutually exclusive fields both set, or an empty
    /// string where a non-empty one is required; carries the field name.
    ConfigConflict(String),
    /// The container carries a trait identity and is rejected outright.
    IneligibleInput,
    /// The owner type rendered to empty text.
    TypeRender,
}

#[verifier::ext_equal]
pub enum ErrorV {
    AttributeGrammar(Seq<char>),
    UnknownOption(Seq<char>),
    ConfigConflict(Seq<char>),
    IneligibleInput,
    TypeRender,
}

impl View for Error {
    type V = ErrorV;

    open spec fn view(&self) -> ErrorV {
        match self {
            Error::AttributeGrammar(t) => ErrorV::AttributeGrammar(t@),
            Error::UnknownOption(t) => ErrorV::UnknownOption(t@),
            Error::ConfigConflict(t) => ErrorV::ConfigConflict(t@),
            Error::IneligibleInput => ErrorV::IneligibleInput,
            Error::TypeRender => ErrorV::TypeRender,
        }
    }
}

impl DeepView for Error {
    type V = ErrorV;

    open spec fn deep_view(&self) -> ErrorV {
        self.view()
    }
}

/// The mirror of a fallible result: `Ok`/`Err` with both sides viewed.
pub open spec fn res_view<T: View>(r: Result<T, Error>) -> Result<T::V, ErrorV> {
    match r {
        Ok(t) => Ok(t@),
        Err(e) => Err(e@),
    }
}

// ------------------------------------------------------------------
// Attribute occurrences
// ------------------------------------------------------------------
/// One comma-separated item of a raw attribute occurrence, as the host's
/// declaration parser hands it over. Only the first two shapes are within
/// the configuration grammar; the others carry their rendered text for the
/// grammar error.
#[derive(Debug)]
pub enum MetaItem {
    /// A bare identifier.
    Word(String),
    /// `identifier = "string literal"`.
    NameStr(String, String),
    /// `identifier = <non-string literal>`.
    NameOther(String, String),
    /// A nested meta list.
    NestedList(String),
    /// A bare literal that is not an identifier.
    BareLit(String),
}

#[verifier::ext_equal]
pub enum MetaItemV {
    Word(Seq<char>),
    NameStr(Seq<char>, Seq<char>),
    NameOther(Seq<char>, Seq<char>),
    NestedList(Seq<char>),
    BareLit(Seq<char>),
}

impl View for MetaItem {
    type V = MetaItemV;

    open spec fn view(&self) -> MetaItemV {
        match self {
            MetaItem::Word(w) => MetaItemV::Word(w@),
            MetaItem::NameStr(k, v) => MetaItemV::NameStr(k@, v@),
            MetaItem::NameOther(k, t) => MetaItemV::NameOther(k@, t@),
            MetaItem::NestedList(t) => MetaItemV::NestedList(t@),
            MetaItem::BareLit(t) => MetaItemV::BareLit(t@),
        }
    }
}

impl DeepView for MetaItem {
    type V = MetaItemV;

    open spec fn deep_view(&self) -> MetaItemV {
        self.view()
    }
}

// ------------------------------------------------------------------
// Declarations
// ------------------------------------------------------------------
#[derive(Debug, Clone, Copy, PartialEq, Eq, Structural)]
pub enum Visibility {
    Public,
    Restricted,
}

#[derive(Debug, Clone, Copy, PartialEq, Eq, Structural)]
pub enum ReceiverKind {
    NoReceiver,
    ByValue,
    ByRef,
    ByMutRef,
}

#[derive(Debug, Clone, Copy, PartialEq, Eq, Structural)]
pub enum GenKind {
    Lifetime,
    Type,
    Const,
}

/// How a non-receiver parameter binds its value: a plain identifier, or a
/// destructuring pattern carried as rendered text.
#[derive(Debug)]
pub enum Binding {
    Ident(String),
    Pattern(String),
}

#[verifier::ext_equal]
pub enum BindingV {
    Ident(Seq<char>),
    Pattern(Seq<char>),
}

impl View for Binding {
    type V = BindingV;

    open spec fn view(&self) -> BindingV {
        match self {
            Binding::Ident(s) => BindingV::Ident(s@),
            Binding::Pattern(s) => BindingV::Pattern(s@),
        }
    }
}

impl DeepView for Binding {
    type V = BindingV;

    open spec fn deep_view(&self) -> BindingV {
        self.view()
    }
}

/// A non-receiver parameter: its binding and its type's rendered text.
#[derive(Debug)]
pub struct Param {
    pub binding: Binding,
    pub ty: String,
}

#[verifier::ext_equal]
pub struct ParamV {
    pub binding: BindingV,
    pub ty: Seq<char>,
}

impl View for Param {
    type V = ParamV;

    open spec fn view(&self) -> ParamV {
        ParamV { binding: self.binding@, ty: self.ty@ }
    }
}

impl DeepView for Param {
    type V = ParamV;

    open spec fn deep_view(&self) -> ParamV {
        self.view()
    }
}

/// A generic parameter: lifetime, type or const, with its identifier.
#[derive(Debug)]
pub struct GenParam {
    pub kind: GenKind,
    pub ident: String,
}

#[verifier::ext_equal]
pub struct GenParamV {
    pub kind: GenKind,
    pub ident: Seq<char>,
}

impl View for GenParam {
    type V = GenParamV;

    open spec fn view(&self) -> GenParamV {
        GenParamV { kind: self.kind, ident: self.ident@ }
    }
}

impl DeepView for GenParam {
    type V = GenParamV;

    open spec fn deep_view(&self) -> GenParamV {
        self.view()
    }
}

/// The synthesized body: call the named original on the receiver with the
/// given generic instantiation and argument identifiers, then evaluate to
/// the receiver.
#[derive(Debug)]
pub struct ForwardCall {
    pub callee: String,
    pub generics: Vec<String>,
    pub args: Vec<String>,
}

#[verifier::ext_equal]
pub struct ForwardCallV {
    pub callee: Seq<char>,
    pub generics: Seq<Seq<char>>,
    pub args: Seq<Seq<char>>,
}

impl View for ForwardCall {
    type V = ForwardCallV;

    open spec fn view(&self) -> ForwardCallV {
        ForwardCallV {
            callee: self.callee@,
            generics: self.generics.deep_view(),
            args: self.args.deep_view(),
        }
    }
}

impl DeepView for ForwardCall {
    type V = ForwardCallV;

    open spec fn deep_view(&self) -> ForwardCallV {
        self.view()
    }
}

/// A method body: opaque source text on input, a forwarding call on
/// synthesized output.
#[derive(Debug)]
pub enum MethodBody {
    Text(String),
    Forward(ForwardCall),
}

#[verifier::ext_equal]
pub enum MethodBodyV {
    Text(Seq<char>),
    Forward(ForwardCallV),
}

impl View for MethodBody {
    type V = MethodBodyV;

    open spec fn view(&self) -> MethodBodyV {
        match self {
            MethodBody::Text(t) => MethodBodyV::Text(t@),
            MethodBody::Forward(f) => MethodBodyV::Forward(f@),
        }
    }
}

impl DeepView for MethodBody {
    type V = MethodBodyV;

    open spec fn deep_view(&self) -> MethodBodyV {
        self.view()
    }
}

/// One method declaration. `attrs` holds the raw configuration attribute
/// occurrences attached to the method, in source order, each already split
/// into meta items.
#[derive(Debug)]
pub struct MethodDecl {
    pub name: String,
    pub vis: Visibility,
    pub receiver: ReceiverKind,
    pub params: Vec<Param>,
    pub generics: Vec<GenParam>,
    /// `None` is the unit return.
    pub ret: Option<String>,
    pub doc: Option<String>,
    pub attrs: Vec<Vec<MetaItem>>,
    pub body: MethodBody,
}

#[verifier::ext_equal]
pub struct MethodDeclV {
    pub name: Seq<char>,
    pub vis: Visibility,
    pub receiver: ReceiverKind,
    pub params: Seq<ParamV>,
    pub generics: Seq<GenParamV>,
    pub ret: Option<Seq<char>>,
    pub doc: Option<Seq<char>>,
    pub attrs: Seq<Seq<MetaItemV>>,
    pub body: MethodBodyV,
}

impl View for MethodDecl {
    type V = MethodDeclV;

    open spec fn view(&self) -> MethodDeclV {
        MethodDeclV {
            name: self.name@,
            vis: self.vis,
            receiver: self.receiver,
            params: self.params.deep_view(),
            generics: self.generics.deep_view(),
            ret: self.ret.deep_view(),
            doc: self.doc.deep_view(),
            attrs: self.attrs.deep_view(),
            body: self.body@,
        }
    }
}

impl DeepView for MethodDecl {
    type V = MethodDeclV;

    open spec fn deep_view(&self) -> MethodDeclV {
        self.view()
    }
}

/// A type-scoped ordered group of method declarations. `trait_impl` marks
/// a container bound to a trait identity, which the engine rejects.
#[derive(Debug)]
pub struct Container {
    /// Rendered text of the owner type.
    pub self_ty: String,
    pub generics: Vec<GenParam>,
    pub methods: Vec<MethodDecl>,
    pub doc: Option<String>,
    pub trait_impl: bool,
}

#[verifier::ext_equal]
pub struct ContainerV {
    pub self_ty: Seq<char>,
    pub generics: Seq<GenParamV>,
    pub methods: Seq<MethodDeclV>,
    pub doc: Option<Seq<char>>,
    pub trait_impl: bool,
}

impl View for Container {
    type V = ContainerV;

    open spec fn view(&self) -> ContainerV {
        ContainerV {
            self_ty: self.self_ty@,
            generics: self.generics.deep_view(),
            methods: self.methods.deep_view(),
            doc: self.doc.deep_view(),
            trait_impl: self.trait_impl,
        }
    }
}

impl DeepView for Container {
    type V = ContainerV;

    open spec fn deep_view(&self) -> ContainerV {
        self.view()
    }
}

// ------------------------------------------------------------------
// Verified duplication
// ------------------------------------------------------------------
pub fn clone_opt_string(o: &Option<String>) -> (r: Option<String>)
    ensures
        r.deep_view() == o.deep_view(),
{
    match o {
        Some(s) => Some(s.clone()),
        None => None,
    }
}

pub fn clone_string_vec(v: &Vec<String>) -> (r: Vec<String>)
    ensures
        r.deep_view() == v.deep_view(),
{
    let mut out: Vec<String> = Vec::new();
    let mut i: usize = 0;
    while i < v.len()
        invariant
            i <= v.len(),
            out@.len() == i,
            forall|j: int| 0 <= j < i ==> out.deep_view()[j] == v.deep_view()[j],
        decreases v.len() - i,
    {
        out.push(v[i].clone());
        proof {
            assert(out.deep_view()[i as int] == v.deep_view()[i as int]);
        }
        i += 1;
    }
    proof {
        assert(out.deep_view() =~= v.deep_view());
    }
    out
}

pub fn clone_binding(b: &Binding) -> (r: Binding)
    ensures
        r@ == b@,
{
    match b {
        Binding::Ident(s) => Binding::Ident(s.clone()),
        Binding::Pattern(s) => Binding::Pattern(s.clone()),
    }
}

pub fn clone_param(p: &Param) -> (r: Param)
    ensures
        r@ == p@,
{
    Param { binding: clone_binding(&p.binding), ty: p.ty.clone() }
}

pub fn clone_params(v: &Vec<Param>) -> (r: Vec<Param>)
    ensures
        r.deep_view() == v.deep_view(),
{
    let mut out: Vec<Param> = Vec::new();
    let mut i: usize = 0;
    while i < v.len()
        invariant
            i <= v.len(),
            out@.len() == i,
            forall|j: int| 0 <= j < i ==> out.deep_view()[j] == v.deep_view()[j],
        decreases v.len() - i,
    {
        out.push(clone_param(&v[i]));
        proof {
            assert(out.deep_view()[i as int] == v.deep_view()[i as int]);
        }
        i += 1;
    }
    proof {
        assert(out.deep_view() =~= v.deep_view());
    }
    out
}

pub fn clone_gen_param(g: &GenParam) -> (r: GenParam)
    ensures
        r@ == g@,
{
    GenParam { kind: g.kind, ident: g.ident.clone() }
}

pub fn clone_gen_params(v: &Vec<GenParam>) -> (r: Vec<GenParam>)
    ensures
        r.deep_view() == v.deep_view(),
{
    let mut out: Vec<GenParam> = Vec::new();
    let mut i: usize = 0;
    while i < v.len()
        invariant
            i <= v.len(),
            out@.len() == i,
            forall|j: int| 0 <= j < i ==> out.deep_view()[j] == v.deep_view()[j],
        decreases v.len() - i,
    {
        out.push(clone_gen_param(&v[i]));
        proof {
            assert(out.deep_view()[i as int] == v.deep_view()[i as int]);
        }
        i += 1;
    }
    proof {
        assert(out.deep_view() =~= v.deep_view());
    }
    out
}

pub fn clone_meta_item(m: &MetaItem) -> (r: MetaItem)
    ensures
        r@ == m@,
{
    match m {
        MetaItem::Word(w) => MetaItem::Word(w.clone()),
        MetaItem::NameStr(k, v) => MetaItem::NameStr(k.clone(), v.clone()),
        MetaItem::NameOther(k, t) => MetaItem::NameOther(k.clone(), t.clone()),
        MetaItem::NestedList(t) => MetaItem::NestedList(t.clone()),
        MetaItem::BareLit(t) => MetaItem::BareLit(t.clone()),
    }
}

pub fn clone_meta_list(v: &Vec<MetaItem>) -> (r: Vec<MetaItem>)
    ensures
        r.deep_view() == v.deep_view(),
{
    let mut out: Vec<MetaItem> = Vec::new();
    let mut i: usize = 0;
    while i < v.len()
        invariant
            i <= v.len(),
            out@.len() == i,
            forall|j: int| 0 <= j < i ==> out.deep_view()[j] == v.deep_view()[j],
        decreases v.len() - i,
    {
        out.push(clone_meta_item(&v[i]));
        proof {
            assert(out.deep_view()[i as int] == v.deep_view()[i as int]);
        }
        i += 1;
    }
    proof {
        assert(out.deep_view() =~= v.deep_view());
    }
    out
}

pub fn clone_attrs(v: &Vec<Vec<MetaItem>>) -> (r: Vec<Vec<MetaItem>>)
    ensures
        r.deep_view() == v.deep_view(),
{
    let mut out: Vec<Vec<MetaItem>> = Vec::new();
    let mut i: usize = 0;
    while i < v.len()
        invariant
            i <= v.len(),
            out@.len() == i,
            forall|j: int| 0 <= j < i ==> out.deep_view()[j] == v.deep_view()[j],
        decreases v.len() - i,
    {
        out.push(clone_meta_list(&v[i]));
        proof {
            assert(out.deep_view()[i as int] == v.deep_view()[i as int]);
        }
        i += 1;
    }
    proof {
        assert(out.deep_view() =~= v.deep_view());
    }
    out
}

pub fn clone_body(b: &MethodBody) -> (r: MethodBody)
    ensures
        r@ == b@,
{
    match b {
        MethodBody::Text(t) => MethodBody::Text(t.clone()),
        MethodBody::Forward(f) => MethodBody::Forward(
            ForwardCall {
                callee: f.callee.clone(),
                generics: clone_string_vec(&f.generics),
                args: clone_string_vec(&f.args),
            },
        ),
    }
}

pub fn clone_method(m: &MethodDecl) -> (r: MethodDecl)
    ensures
        r@ == m@,
{
    MethodDecl {
        name: m.name.clone(),
        vis: m.vis,
        receiver: m.receiver,
        params: clone_params(&m.params),
        generics: clone_gen_params(&m.generics),
        ret: clone_opt_string(&m.ret),
        doc: clone_opt_string(&m.doc),
        attrs: clone_attrs(&m.attrs),
        body: clone_body(&m.body),
    }
}

} // verus!
