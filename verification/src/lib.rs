//! A source-to-source transform that turns one annotated test declaration
//! into two cooperating functions: a private "inner" function carrying the
//! original test logic, and an "outer" entry point that optionally runs a
//! data-preparation (setup) function and forwards its result to the inner
//! function.
//!
//! The crate works on a plain model of the declarations involved: the token
//! list of the configuration attribute ([`attr::AttrToken`]), the annotated
//! function ([`TestFn`]), and the emitted pair ([`Emitted`]). Lexing source
//! text into these models, and printing the result back out as source text
//! with the runner's test marker on the outer function, is left to the
//! surrounding (unverified) macro glue.

pub mod attr;

use vstd::prelude::*;
use vstd::string::StringExecFns;

use crate::attr::clone_strings;
use crate::attr::spec_default_path;
use crate::attr::spec_resolve;
use crate::attr::AttrToken;
use crate::attr::AttributeList;
use crate::attr::ConfigError;
use crate::attr::FnPath;
use crate::attr::PathView;
use crate::attr::ResolvedView;

verus! {

/// A test function declaration: its name, visibility, parameter list,
/// auxiliary attributes and body. Parameters, attributes and the body are
/// carried as rendered text; the transform never looks inside them, it only
/// counts parameters and moves the other pieces around.
#[derive(Debug, PartialEq, Eq)]
pub struct TestFn {
    /// The function's identifier.
    pub name: String,
    /// The rendered visibility; empty means file-private.
    pub vis: String,
    /// The rendered parameters, one entry per parameter.
    pub params: Vec<String>,
    /// The rendered auxiliary attributes, in source order.
    pub attrs: Vec<String>,
    /// The rendered function body.
    pub body: String,
}

/// The mathematical value of a [`TestFn`].
pub ghost struct TestFnView {
    pub name: Seq<char>,
    pub vis: Seq<char>,
    pub params: Seq<Seq<char>>,
    pub attrs: Seq<Seq<char>>,
    pub body: Seq<char>,
}

impl View for TestFn {
    type V = TestFnView;

    open spec fn view(&self) -> TestFnView {
        TestFnView {
            name: self.name@,
            vis: self.vis@,
            params: self.params.deep_view(),
            attrs: self.attrs.deep_view(),
            body: self.body@,
        }
    }
}

/// The synthesized body of the outer function: either a direct call of the
/// inner function with no arguments, or a call of the setup reference whose
/// result is bound and forwarded as the inner function's sole argument.
#[derive(Debug, PartialEq, Eq)]
pub enum OuterBody {
    CallInner,
    SetupThenInner(FnPath),
}

/// The mathematical value of an [`OuterBody`].
pub ghost enum OuterBodyView {
    CallInner,
    SetupThenInner(PathView),
}

impl View for OuterBody {
    type V = OuterBodyView;

    open spec fn view(&self) -> OuterBodyView {
        match self {
            OuterBody::CallInner => OuterBodyView::CallInner,
            OuterBody::SetupThenInner(p) => OuterBodyView::SetupThenInner(p@),
        }
    }
}

/// The synthesized outer declaration: the test entry point. It keeps the
/// original name, carries the original auxiliary attributes (the renderer
/// puts the runner's test marker in front of them), has no parameters, and
/// runs the synthesized body.
#[derive(Debug, PartialEq, Eq)]
pub struct OuterFn {
    /// The entry point's identifier: the original function's name.
    pub name: String,
    /// The auxiliary attributes copied from the original, in order.
    pub attrs: Vec<String>,
    /// The synthesized body.
    pub body: OuterBody,
}

/// The mathematical value of an [`OuterFn`].
pub ghost struct OuterFnView {
    pub name: Seq<char>,
    pub attrs: Seq<Seq<char>>,
    pub body: OuterBodyView,
}

impl View for OuterFn {
    type V = OuterFnView;

    open spec fn view(&self) -> OuterFnView {
        OuterFnView { name: self.name@, attrs: self.attrs.deep_view(), body: self.body@ }
    }
}

/// The transform's output: the two declarations that replace the annotated
/// one.
#[derive(Debug, PartialEq, Eq)]
pub struct Emitted {
    pub inner: TestFn,
    pub outer: OuterFn,
}

/// The body the outer function must get, from the declaration's shape and the
/// resolved outcome: the setup reference is invoked exactly when the
/// declaration has a parameter and the outcome is not the explicit refusal.
pub open spec fn spec_outer_body(f: TestFnView, outcome: ResolvedView) -> OuterBodyView {
    if f.params.len() == 0 {
        OuterBodyView::CallInner
    } else {
        match outcome {
            ResolvedView::NoSetup => OuterBodyView::CallInner,
            ResolvedView::UseDefault => OuterBodyView::SetupThenInner(spec_default_path()),
            ResolvedView::UsePath(p) => OuterBodyView::SetupThenInner(p),
        }
    }
}

/// Whether the declaration's parameter list is non-empty.
pub fn has_arg(func: &TestFn) -> (b: bool)
    ensures
        b == (func@.params.len() > 0),
{
    func.params.len() > 0
}

/// The inner declaration derived from the original: the same parameters and
/// body, the name extended by the fixed suffix, visibility downgraded to
/// file-private, and the auxiliary attributes stripped.
pub fn to_inner_func(func: &TestFn) -> (inner: TestFn)
    ensures
        inner@.name == func@.name + "_inner"@,
        inner@.vis == Seq::<char>::empty(),
        inner@.params == func@.params,
        inner@.attrs == Seq::<Seq<char>>::empty(),
        inner@.body == func@.body,
{
    let inner = TestFn {
        name: func.name.clone().concat("_inner"),
        vis: String::new(),
        params: clone_strings(&func.params),
        attrs: Vec::new(),
        body: func.body.clone(),
    };
    proof {
        assert(inner@.attrs =~= Seq::<Seq<char>>::empty());
    }
    inner
}

/// The transform, end to end: resolve the configuration token list, then
/// rewrite the declaration into the inner/outer pair. Fails exactly when the
/// configuration list does, with the same error.
pub fn testx(attr_tokens: &Vec<AttrToken>, func: TestFn) -> (r: Result<Emitted, ConfigError>)
    ensures
        match r {
            Ok(e) => {
                &&& spec_resolve(attr_tokens@) matches Ok(outcome)
                &&& e.outer@.body == spec_outer_body(func@, outcome)
                &&& e.inner@.name == func@.name + "_inner"@
                &&& e.inner@.vis == Seq::<char>::empty()
                &&& e.inner@.params == func@.params
                &&& e.inner@.attrs == Seq::<Seq<char>>::empty()
                &&& e.inner@.body == func@.body
                &&& e.outer@.name == func@.name
                &&& e.outer@.attrs == func@.attrs
            },
            Err(err) => spec_resolve(attr_tokens@) matches Err(se) && se == err@,
        },
{
    let meta = match AttributeList::parse(attr_tokens) {
        Ok(m) => m,
        Err(e) => {
            return Err(e);
        },
    };
    let inner_fn = to_inner_func(&func);
    let setup_fn = meta.setup_func();
    let fn_arg = has_arg(&func);
    let outer_body = if fn_arg {
        match setup_fn {
            Some(p) => OuterBody::SetupThenInner(p.duplicate()),
            None => OuterBody::CallInner,
        }
    } else {
        OuterBody::CallInner
    };
    let TestFn { name, attrs, .. } = func;
    Ok(Emitted { inner: inner_fn, outer: OuterFn { name, attrs, body: outer_body } })
}

/// The text of a list of items each followed by a line break.
pub open spec fn spec_attr_lines(attrs: Seq<Seq<char>>) -> Seq<char>
    decreases attrs.len(),
{
    if attrs.len() == 0 {
        Seq::empty()
    } else {
        attrs[0] + "\n"@ + spec_attr_lines(attrs.skip(1))
    }
}

/// The text of a list of items joined by a separator.
pub open spec fn spec_join(items: Seq<Seq<char>>, sep: Seq<char>) -> Seq<char>
    decreases items.len(),
{
    if items.len() == 0 {
        Seq::empty()
    } else if items.len() == 1 {
        items[0]
    } else {
        items[0] + sep + spec_join(items.skip(1), sep)
    }
}

proof fn lemma_attr_lines_take(attrs: Seq<Seq<char>>, i: int)
    requires
        0 <= i < attrs.len(),
    ensures
        spec_attr_lines(attrs.take(i + 1)) == spec_attr_lines(attrs.take(i)) + attrs[i] + "\n"@,
    decreases i,
{
    let t = attrs.take(i + 1);
    if i == 0 {
        assert(t.skip(1) =~= Seq::<Seq<char>>::empty());
        assert(attrs.take(0) =~= Seq::<Seq<char>>::empty());
        assert(spec_attr_lines(Seq::<Seq<char>>::empty()) == Seq::<char>::empty());
        assert(t[0] == attrs[0]);
        assert(spec_attr_lines(t) =~= spec_attr_lines(attrs.take(0)) + attrs[0] + "\n"@);
    } else {
        let s1 = attrs.skip(1);
        lemma_attr_lines_take(s1, i - 1);
        assert(t.skip(1) =~= s1.take(i));
        assert(attrs.take(i).skip(1) =~= s1.take(i - 1));
        assert(s1[i - 1] == attrs[i]);
        assert(attrs[0] + "\n"@ + (spec_attr_lines(s1.take(i - 1)) + s1[i - 1] + "\n"@)
            =~= (attrs[0] + "\n"@ + spec_attr_lines(s1.take(i - 1))) + attrs[i] + "\n"@);
    }
}

proof fn lemma_join_take(items: Seq<Seq<char>>, sep: Seq<char>, i: int)
    requires
        1 <= i < items.len(),
    ensures
        spec_join(items.take(i + 1), sep) == spec_join(items.take(i), sep) + sep + items[i],
    decreases i,
{
    let t = items.take(i + 1);
    if i == 1 {
        assert(t.skip(1) =~= seq![items[1]]);
        assert(spec_join(seq![items[1]], sep) == items[1]);
        assert(spec_join(items.take(1), sep) == items.take(1)[0]);
        assert(t[0] == items[0] && items.take(1)[0] == items[0]);
        assert(spec_join(t, sep) =~= spec_join(items.take(1), sep) + sep + items[1]);
    } else {
        let s1 = items.skip(1);
        lemma_join_take(s1, sep, i - 1);
        assert(t.skip(1) =~= s1.take(i));
        assert(items.take(i).skip(1) =~= s1.take(i - 1));
        assert(s1[i - 1] == items[i]);
        assert(items[0] + sep + (spec_join(s1.take(i - 1), sep) + sep + s1[i - 1])
            =~= (items[0] + sep + spec_join(s1.take(i - 1), sep)) + sep + items[i]);
    }
}

/// Each string on its own line.
fn attr_lines(attrs: &Vec<String>) -> (r: String)
    ensures
        r@ == spec_attr_lines(attrs.deep_view()),
{
    let mut out = String::new();
    let mut i: usize = 0;
    while i < attrs.len()
        invariant
            0 <= i <= attrs@.len(),
            out@ == spec_attr_lines(attrs.deep_view().take(i as int)),
        decreases attrs@.len() - i,
    {
        out.append(attrs[i].as_str());
        out.append("\n");
        proof {
            lemma_attr_lines_take(attrs.deep_view(), i as int);
        }
        i = i + 1;
    }
    proof {
        assert(attrs.deep_view().take(attrs.deep_view().len() as int) =~= attrs.deep_view());
    }
    out
}

/// The strings joined by a separator.
fn join_strings(items: &Vec<String>, sep: &str) -> (r: String)
    ensures
        r@ == spec_join(items.deep_view(), sep@),
{
    let mut out = String::new();
    if items.len() == 0 {
        return out;
    }
    out.append(items[0].as_str());
    proof {
        assert(out@ =~= items.deep_view()[0]);
    }
    let mut i: usize = 1;
    while i < items.len()
        invariant
            1 <= i <= items@.len(),
            out@ == spec_join(items.deep_view().take(i as int), sep@),
        decreases items@.len() - i,
    {
        out.append(sep);
        out.append(items[i].as_str());
        proof {
            lemma_join_take(items.deep_view(), sep@, i as int);
        }
        i = i + 1;
    }
    proof {
        assert(items.deep_view().take(items.deep_view().len() as int) =~= items.deep_view());
    }
    out
}

/// The text of a setup reference.
pub open spec fn spec_render_path(p: PathView) -> Seq<char> {
    if p.leading {
        "::"@ + spec_join(p.segs, "::"@)
    } else {
        spec_join(p.segs, "::"@)
    }
}

/// The statements of the outer body: either the direct call of the inner
/// function, or the setup call whose bound result is forwarded to it.
pub open spec fn spec_outer_call(inner_name: Seq<char>, body: OuterBodyView) -> Seq<char> {
    match body {
        OuterBodyView::CallInner => inner_name + "();"@,
        OuterBodyView::SetupThenInner(p) => "let sr = "@ + spec_render_path(p) + "(); "@
            + inner_name + "(sr);"@,
    }
}

/// The text of the inner declaration: its attributes, its visibility when it
/// has one, and its signature and body.
pub open spec fn spec_inner_text(f: TestFnView) -> Seq<char> {
    spec_attr_lines(f.attrs) + (if f.vis.len() == 0 {
        Seq::<char>::empty()
    } else {
        f.vis + " "@
    }) + "fn "@ + f.name + "("@ + spec_join(f.params, ", "@) + ") "@ + f.body + "\n"@
}

/// The text of the outer declaration: the runner's test marker, the copied
/// attributes, and the parameterless signature around the synthesized body.
pub open spec fn spec_outer_text(inner_name: Seq<char>, o: OuterFnView) -> Seq<char> {
    "#[test]\n"@ + spec_attr_lines(o.attrs) + "fn "@ + o.name + "() { "@ + spec_outer_call(
        inner_name,
        o.body,
    ) + " }\n"@
}

/// The source text that replaces the annotated declaration: the inner
/// declaration, then the outer entry point.
pub open spec fn spec_render(inner: TestFnView, outer: OuterFnView) -> Seq<char> {
    spec_inner_text(inner) + spec_outer_text(inner.name, outer)
}

/// Prints the emitted pair as the source text that replaces the annotated
/// declaration.
pub fn render(e: &Emitted) -> (r: String)
    ensures
        r@ == spec_render(e.inner@, e.outer@),
{
    let mut out = attr_lines(&e.inner.attrs);
    if !e.inner.vis.as_str().is_empty() {
        out.append(e.inner.vis.as_str());
        out.append(" ");
    }
    out.append("fn ");
    out.append(e.inner.name.as_str());
    out.append("(");
    let params_text = join_strings(&e.inner.params, ", ");
    out.append(params_text.as_str());
    out.append(") ");
    out.append(e.inner.body.as_str());
    out.append("\n");
    proof {
        assert(out@ =~= spec_inner_text(e.inner@));
    }
    out.append("#[test]\n");
    let outer_attrs_text = attr_lines(&e.outer.attrs);
    out.append(outer_attrs_text.as_str());
    out.append("fn ");
    out.append(e.outer.name.as_str());
    out.append("() { ");
    proof {
        assert(out@ =~= spec_inner_text(e.inner@) + ("#[test]\n"@ + spec_attr_lines(
            e.outer@.attrs,
        ) + "fn "@ + e.outer@.name + "() { "@));
    }
    match &e.outer.body {
        OuterBody::CallInner => {
            out.append(e.inner.name.as_str());
            out.append("();");
        },
        OuterBody::SetupThenInner(p) => {
            out.append("let sr = ");
            if p.leading {
                out.append("::");
            }
            let segs_text = join_strings(&p.segments, "::");
            out.append(segs_text.as_str());
            out.append("(); ");
            out.append(e.inner.name.as_str());
            out.append("(sr);");
        },
    }
    proof {
        assert(out@ =~= spec_inner_text(e.inner@) + ("#[test]\n"@ + spec_attr_lines(
            e.outer@.attrs,
        ) + "fn "@ + e.outer@.name + "() { "@ + spec_outer_call(e.inner@.name, e.outer@.body)));
    }
    out.append(" }\n");
    proof {
        assert(out@ =~= spec_render(e.inner@, e.outer@));
    }
    out
}

/// A declaration without parameters never receives a setup call: whatever the
/// configuration resolved to, the outer body calls the inner function with no
/// arguments.
pub proof fn lemma_no_param_never_calls_setup(f: TestFnView, outcome: ResolvedView)
    requires
        f.params.len() == 0,
    ensures
        spec_outer_body(f, outcome) is CallInner,
{
}

/// A declaration with a parameter and no configuration invokes the default
/// setup reference and forwards its result.
pub proof fn lemma_default_setup_forwarded(f: TestFnView)
    requires
        f.params.len() > 0,
    ensures
        spec_outer_body(f, ResolvedView::UseDefault) == OuterBodyView::SetupThenInner(
            spec_default_path(),
        ),
{
}

/// A declaration with a parameter but `no_setup` configured calls the inner
/// function directly, with no arguments.
pub proof fn lemma_no_setup_direct_call(f: TestFnView)
    requires
        f.params.len() > 0,
    ensures
        spec_outer_body(f, ResolvedView::NoSetup) is CallInner,
{
}

/// Leaving the configuration empty behaves exactly like naming the default
/// setup reference explicitly, for every declaration.
pub proof fn lemma_explicit_default_same(f: TestFnView)
    ensures
        spec_outer_body(f, ResolvedView::UseDefault) == spec_outer_body(
            f,
            ResolvedView::UsePath(spec_default_path()),
        ),
{
}

} // verus!
