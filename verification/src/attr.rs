//! The configuration resolver: parsing of the token list attached to a test
//! declaration, and its resolution to a setup reference, an explicit
//! "no setup" marker, or the default reference.
//!
//! The grammar is a comma-separated list of entries of the form `key` or
//! `key = value`. The recognized keys are `setup`, whose value is either a
//! string literal or a bare path, and `no_setup`, which takes no value. Only
//! the first entry decides the outcome; the remaining entries are still
//! parsed, so that a syntax error anywhere in the list is reported.

use vstd::prelude::*;
use vstd::pervasive::unreached;

verus! {

/// One token of the configuration list, as the surrounding macro glue lexed
/// it. A string literal is handed over with its contents re-lexed into the
/// same token kind, so that both spellings of a setup reference run through
/// the same path parser.
#[derive(Debug, PartialEq, Eq)]
pub enum AttrToken {
    /// An identifier-like token (an identifier or a path keyword).
    Word(String),
    /// A string literal; the payload is its contents, lexed into tokens.
    Quoted(Vec<AttrToken>),
    /// The `=` sign.
    EqSign,
    /// The `,` separator.
    Comma,
    /// The `::` path separator.
    PathSep,
    /// Any other token; never part of a well-formed configuration.
    Other,
}

/// A reference to a function: an optional leading path separator followed by
/// one identifier segment per path component.
#[derive(Debug, PartialEq, Eq)]
pub struct FnPath {
    pub leading: bool,
    pub segments: Vec<String>,
}

/// The mathematical value of a [`FnPath`].
pub ghost struct PathView {
    pub leading: bool,
    pub segs: Seq<Seq<char>>,
}

impl View for FnPath {
    type V = PathView;

    open spec fn view(&self) -> PathView {
        PathView { leading: self.leading, segs: self.segments.deep_view() }
    }
}

/// The default setup reference: the bare name `setup` in the current scope.
pub open spec fn spec_default_path() -> PathView {
    PathView { leading: false, segs: seq!["setup"@] }
}

/// An error in the configuration list, with the index of the offending token.
#[derive(Debug, PartialEq, Eq)]
pub enum ConfigError {
    /// A key other than `setup` / `no_setup`.
    UnsupportedKey { key: String, at: usize },
    /// The token at the start of an entry is not an identifier.
    ExpectedEntry { at: usize },
    /// `setup` was not followed by `=`.
    ExpectedEq { at: usize },
    /// The value after `setup =` is neither a string literal nor a path.
    MalformedValue { at: usize },
    /// An entry was followed by something other than `,` or the end.
    ExpectedComma { at: usize },
}

/// The mathematical value of a [`ConfigError`].
pub ghost enum ErrView {
    UnsupportedKey { key: Seq<char>, at: int },
    ExpectedEntry { at: int },
    ExpectedEq { at: int },
    MalformedValue { at: int },
    ExpectedComma { at: int },
}

impl View for ConfigError {
    type V = ErrView;

    open spec fn view(&self) -> ErrView {
        match self {
            ConfigError::UnsupportedKey { key, at } => ErrView::UnsupportedKey {
                key: key@,
                at: *at as int,
            },
            ConfigError::ExpectedEntry { at } => ErrView::ExpectedEntry { at: *at as int },
            ConfigError::ExpectedEq { at } => ErrView::ExpectedEq { at: *at as int },
            ConfigError::MalformedValue { at } => ErrView::MalformedValue { at: *at as int },
            ConfigError::ExpectedComma { at } => ErrView::ExpectedComma { at: *at as int },
        }
    }
}

/// One parsed configuration entry: a setup reference, or the explicit
/// request for none.
pub ghost enum EntryView {
    Setup(Option<PathView>),
}

/// The resolved setup outcome: the implicit default, an explicit reference,
/// or explicitly no setup at all.
pub ghost enum ResolvedView {
    UseDefault,
    UsePath(PathView),
    NoSetup,
}

/// Whether a path continues at position `i` with `:: segment`.
pub open spec fn path_cont(toks: Seq<AttrToken>, i: int) -> bool {
    i + 2 <= toks.len() && toks[i] is PathSep && toks[i + 1] is Word
}

/// The segments of `(:: segment)*` starting at `i`, and the position of the
/// first token that is not part of the path.
pub open spec fn spec_path_rest(toks: Seq<AttrToken>, i: int) -> (Seq<Seq<char>>, int)
    decreases toks.len() - i
        when 0 <= i <= toks.len()
{
    if path_cont(toks, i) {
        let r = spec_path_rest(toks, i + 2);
        (seq![toks[i + 1]->Word_0@] + r.0, r.1)
    } else {
        (Seq::empty(), i)
    }
}

/// A bare path `segment (:: segment)*` starting at `i`: its value and the
/// position after it, or nothing if no path starts at `i`.
pub open spec fn spec_parse_mod_path(toks: Seq<AttrToken>, i: int) -> Option<(PathView, int)> {
    if 0 <= i < toks.len() && toks[i] is Word {
        let r = spec_path_rest(toks, i + 1);
        Some((PathView { leading: false, segs: seq![toks[i]->Word_0@] + r.0 }, r.1))
    } else {
        None
    }
}

/// The contents of a string literal read as a path: an optional leading
/// separator, then a bare path consuming the whole literal.
pub open spec fn spec_parse_quoted_path(toks: Seq<AttrToken>) -> Option<PathView> {
    if toks.len() > 0 && toks[0] is PathSep {
        match spec_parse_mod_path(toks, 1) {
            Some(r) => if r.1 == toks.len() {
                Some(PathView { leading: true, segs: r.0.segs })
            } else {
                None
            },
            None => None,
        }
    } else {
        match spec_parse_mod_path(toks, 0) {
            Some(r) => if r.1 == toks.len() {
                Some(r.0)
            } else {
                None
            },
            None => None,
        }
    }
}

/// The value of a `setup =` entry at position `i`: a string literal parsed
/// as a path, or a bare path.
pub open spec fn spec_parse_value(toks: Seq<AttrToken>, i: int) -> Result<(PathView, int), ErrView> {
    if 0 <= i < toks.len() && toks[i] is Quoted {
        match spec_parse_quoted_path(toks[i]->Quoted_0@) {
            Some(p) => Ok((p, i + 1)),
            None => Err(ErrView::MalformedValue { at: i }),
        }
    } else {
        match spec_parse_mod_path(toks, i) {
            Some(r) => Ok(r),
            None => Err(ErrView::MalformedValue { at: i }),
        }
    }
}

/// One entry at position `i`: `setup = value`, or `no_setup`, or an error.
pub open spec fn spec_parse_entry(toks: Seq<AttrToken>, i: int) -> Result<(EntryView, int), ErrView> {
    if 0 <= i < toks.len() && toks[i] is Word {
        let key = toks[i]->Word_0@;
        if key == "setup"@ {
            if i + 1 < toks.len() && toks[i + 1] is EqSign {
                match spec_parse_value(toks, i + 2) {
                    Ok(r) => Ok((EntryView::Setup(Some(r.0)), r.1)),
                    Err(e) => Err(e),
                }
            } else {
                Err(ErrView::ExpectedEq { at: i + 1 })
            }
        } else if key == "no_setup"@ {
            Ok((EntryView::Setup(None), i + 1))
        } else {
            Err(ErrView::UnsupportedKey { key: key, at: i })
        }
    } else {
        Err(ErrView::ExpectedEntry { at: i })
    }
}

/// A parsed path covers at least one token and ends inside the list.
pub proof fn lemma_path_rest_bounds(toks: Seq<AttrToken>, i: int)
    requires
        0 <= i <= toks.len(),
    ensures
        i <= spec_path_rest(toks, i).1 <= toks.len(),
    decreases toks.len() - i,
{
    if path_cont(toks, i) {
        lemma_path_rest_bounds(toks, i + 2);
    }
}

/// A successfully parsed setup value consumes at least one token.
pub proof fn lemma_value_advances(toks: Seq<AttrToken>, i: int)
    requires
        0 <= i,
    ensures
        spec_parse_value(toks, i) matches Ok(r) ==> i < r.1 <= toks.len(),
{
    if 0 <= i < toks.len() && toks[i] is Word {
        lemma_path_rest_bounds(toks, i + 1);
    }
}

/// A successfully parsed entry consumes at least one token.
pub proof fn lemma_entry_advances(toks: Seq<AttrToken>, i: int)
    requires
        0 <= i <= toks.len(),
    ensures
        spec_parse_entry(toks, i) matches Ok(r) ==> i < r.1 <= toks.len(),
{
    lemma_value_advances(toks, i + 2);
}

/// The entries of the whole list from position `i` on: entries separated by
/// commas, reaching the end of the list.
pub open spec fn spec_parse_list(toks: Seq<AttrToken>, i: int) -> Result<Seq<EntryView>, ErrView>
    decreases toks.len() - i
        when 0 <= i <= toks.len()
        via spec_parse_list_decreases
{
    match spec_parse_entry(toks, i) {
        Err(e) => Err(e),
        Ok(r) => {
            if r.1 == toks.len() {
                Ok(seq![r.0])
            } else if r.1 < toks.len() && toks[r.1] is Comma {
                match spec_parse_list(toks, r.1 + 1) {
                    Ok(rest) => Ok(seq![r.0] + rest),
                    Err(e) => Err(e),
                }
            } else {
                Err(ErrView::ExpectedComma { at: r.1 })
            }
        },
    }
}

#[via_fn]
proof fn spec_parse_list_decreases(toks: Seq<AttrToken>, i: int) {
    lemma_entry_advances(toks, i);
}

/// The parsed configuration list: empty, or entries separated by commas.
pub open spec fn spec_parse_attr_list(toks: Seq<AttrToken>) -> Result<Seq<EntryView>, ErrView> {
    if toks.len() == 0 {
        Ok(Seq::empty())
    } else {
        spec_parse_list(toks, 0)
    }
}

/// The outcome of a parsed list: the first entry decides; an empty list
/// falls back to the default reference.
pub open spec fn spec_outcome(entries: Seq<EntryView>) -> ResolvedView {
    if entries.len() == 0 {
        ResolvedView::UseDefault
    } else {
        match entries[0] {
            EntryView::Setup(Some(p)) => ResolvedView::UsePath(p),
            EntryView::Setup(None) => ResolvedView::NoSetup,
        }
    }
}

/// The resolver, end to end: parse the token list and resolve the outcome.
pub open spec fn spec_resolve(toks: Seq<AttrToken>) -> Result<ResolvedView, ErrView> {
    match spec_parse_attr_list(toks) {
        Ok(entries) => Ok(spec_outcome(entries)),
        Err(e) => Err(e),
    }
}

/// Path parsing is local: the tokens before a path do not change which
/// segments it has, only the positions shift.
pub proof fn lemma_path_rest_shift(pre: Seq<AttrToken>, toks: Seq<AttrToken>, i: int)
    requires
        0 <= i <= toks.len(),
    ensures
        spec_path_rest(pre + toks, pre.len() + i).0 == spec_path_rest(toks, i).0,
        spec_path_rest(pre + toks, pre.len() + i).1 == pre.len() + spec_path_rest(toks, i).1,
    decreases toks.len() - i,
{
    let all = pre + toks;
    if path_cont(toks, i) {
        assert(all[pre.len() + i] == toks[i]);
        assert(all[pre.len() + i + 1] == toks[i + 1]);
        lemma_path_rest_shift(pre, toks, i + 2);
    } else {
        if i + 2 <= toks.len() {
            assert(all[pre.len() + i] == toks[i]);
            assert(all[pre.len() + i + 1] == toks[i + 1]);
        }
        assert(!path_cont(all, pre.len() + i));
    }
}

/// Bare-path parsing is local in the same way.
pub proof fn lemma_mod_path_shift(pre: Seq<AttrToken>, toks: Seq<AttrToken>, i: int)
    requires
        0 <= i <= toks.len(),
    ensures
        match spec_parse_mod_path(toks, i) {
            Some(r) => spec_parse_mod_path(pre + toks, pre.len() + i) matches Some(r2) && r2.0
                == r.0 && r2.1 == pre.len() + r.1,
            None => spec_parse_mod_path(pre + toks, pre.len() + i) is None,
        },
{
    let all = pre + toks;
    if i < toks.len() {
        assert(all[pre.len() + i] == toks[i]);
        if toks[i] is Word {
            lemma_path_rest_shift(pre, toks, i + 1);
        }
    }
}

/// Only the first entry of a configuration list decides the outcome; the
/// entries after it are parsed but change nothing.
pub proof fn lemma_first_entry_wins(entries: Seq<EntryView>)
    requires
        entries.len() > 0,
    ensures
        spec_outcome(entries) == spec_outcome(entries.take(1)),
{
    assert(entries.take(1)[0] == entries[0]);
}

/// The two spellings of a setup reference agree: a configuration whose value
/// is a string literal holding path tokens resolves to exactly the reference
/// that the same tokens written bare resolve to.
pub proof fn lemma_quoted_and_bare_setup_agree(setup_kw: AttrToken, quoted: AttrToken)
    requires
        setup_kw matches AttrToken::Word(k) && k@ == "setup"@,
        quoted matches AttrToken::Quoted(inner) && (spec_parse_mod_path(inner@, 0) matches Some(r)
            && r.1 == inner@.len()),
    ensures
        ({
            let bare = quoted->Quoted_0@;
            let p = spec_parse_mod_path(bare, 0)->Some_0.0;
            &&& spec_resolve(seq![setup_kw, AttrToken::EqSign, quoted]) == Ok::<
                ResolvedView,
                ErrView,
            >(ResolvedView::UsePath(p))
            &&& spec_resolve(seq![setup_kw, AttrToken::EqSign] + bare) == Ok::<
                ResolvedView,
                ErrView,
            >(ResolvedView::UsePath(p))
        }),
{
    let bare = quoted->Quoted_0@;
    let p = spec_parse_mod_path(bare, 0)->Some_0.0;
    // the string-literal spelling
    let t1 = seq![setup_kw, AttrToken::EqSign, quoted];
    assert(t1.len() == 3 && t1[0] == setup_kw && t1[1] == AttrToken::EqSign && t1[2] == quoted);
    assert(spec_parse_quoted_path(bare) == Some(p));
    assert(spec_parse_value(t1, 2) == Ok::<(PathView, int), ErrView>((p, 3)));
    assert(spec_parse_entry(t1, 0) == Ok::<(EntryView, int), ErrView>(
        (EntryView::Setup(Some(p)), 3),
    ));
    assert(spec_parse_list(t1, 0) == Ok::<Seq<EntryView>, ErrView>(
        seq![EntryView::Setup(Some(p))],
    ));
    // the bare spelling
    let head = seq![setup_kw, AttrToken::EqSign];
    let t2 = head + bare;
    assert(t2.len() == 2 + bare.len());
    assert(t2[0] == setup_kw && t2[1] == AttrToken::EqSign);
    lemma_mod_path_shift(head, bare, 0);
    assert(t2[2] == bare[0]);
    assert(spec_parse_value(t2, 2) == Ok::<(PathView, int), ErrView>((p, t2.len() as int)));
    assert(spec_parse_entry(t2, 0) == Ok::<(EntryView, int), ErrView>(
        (EntryView::Setup(Some(p)), t2.len() as int),
    ));
    assert(spec_parse_list(t2, 0) == Ok::<Seq<EntryView>, ErrView>(
        seq![EntryView::Setup(Some(p))],
    ));
}

fn tok_is_path_sep(t: &AttrToken) -> (b: bool)
    ensures
        b == (*t is PathSep),
{
    match t {
        AttrToken::PathSep => true,
        _ => false,
    }
}

fn tok_is_word(t: &AttrToken) -> (b: bool)
    ensures
        b == (*t is Word),
{
    match t {
        AttrToken::Word(_) => true,
        _ => false,
    }
}

fn tok_is_eq_sign(t: &AttrToken) -> (b: bool)
    ensures
        b == (*t is EqSign),
{
    match t {
        AttrToken::EqSign => true,
        _ => false,
    }
}

fn tok_is_comma(t: &AttrToken) -> (b: bool)
    ensures
        b == (*t is Comma),
{
    match t {
        AttrToken::Comma => true,
        _ => false,
    }
}

fn more_segments(toks: &Vec<AttrToken>, cur: usize) -> (b: bool)
    ensures
        b == path_cont(toks@, cur as int),
{
    cur < toks.len() && cur + 1 < toks.len() && tok_is_path_sep(&toks[cur]) && tok_is_word(
        &toks[cur + 1],
    )
}

/// Pushing an element onto a vector extends its deep view by the element's
/// deep view.
proof fn lemma_deep_view_push<T: DeepView>(post: Vec<T>, pre: Seq<T>, x: T)
    requires
        post@ == pre.push(x),
    ensures
        post.deep_view() =~= Seq::new(pre.len(), |i: int| pre[i].deep_view()).push(x.deep_view()),
{
    let a = Seq::new(pre.len(), |i: int| pre[i].deep_view());
    assert forall|i: int| 0 <= i < post.deep_view().len() implies post.deep_view()[i] == a.push(
        x.deep_view(),
    )[i] by {
        if i < pre.len() {
            assert(post@[i] == pre[i]);
        } else {
            assert(post@[i] == x);
        }
    }
}

/// The copy of a vector of strings, with its value preserved.
pub(crate) fn clone_strings(v: &Vec<String>) -> (r: Vec<String>)
    ensures
        r@ == v@,
{
    let mut r: Vec<String> = Vec::new();
    let mut i: usize = 0;
    while i < v.len()
        invariant
            0 <= i <= v@.len(),
            r@ == v@.subrange(0, i as int),
        decreases v@.len() - i,
    {
        r.push(v[i].clone());
        proof {
            assert(r@ =~= v@.subrange(0, i as int + 1));
        }
        i = i + 1;
    }
    proof {
        assert(v@.subrange(0, v@.len() as int) =~= v@);
    }
    r
}

impl FnPath {
    /// A copy of this path, with its value preserved.
    pub fn duplicate(&self) -> (r: FnPath)
        ensures
            r@ == self@,
    {
        FnPath { leading: self.leading, segments: clone_strings(&self.segments) }
    }
}

/// A bare path `segment (:: segment)*` starting at `pos`.
#[verifier::loop_isolation(false)]
fn parse_mod_path(toks: &Vec<AttrToken>, pos: usize) -> (r: Option<(FnPath, usize)>)
    ensures
        match r {
            Some(o) => {
                &&& spec_parse_mod_path(toks@, pos as int) matches Some(sp)
                &&& sp.0 == o.0@
                &&& sp.1 == o.1 as int
                &&& pos < o.1 <= toks@.len()
            },
            None => spec_parse_mod_path(toks@, pos as int) is None,
        },
{
    if pos >= toks.len() {
        return None;
    }
    let first = match &toks[pos] {
        AttrToken::Word(s) => s.clone(),
        _ => {
            return None;
        },
    };
    let mut segments: Vec<String> = Vec::new();
    segments.push(first);
    let mut cur: usize = pos + 1;
    proof {
        assert(segments.deep_view() =~= seq![toks@[pos as int]->Word_0@]);
        lemma_path_rest_bounds(toks@, pos as int + 1);
    }
    while more_segments(toks, cur)
        invariant
            pos < cur <= toks@.len(),
            seq![toks@[pos as int]->Word_0@] + spec_path_rest(toks@, pos as int + 1).0
                == segments.deep_view() + spec_path_rest(toks@, cur as int).0,
            spec_path_rest(toks@, pos as int + 1).1 == spec_path_rest(toks@, cur as int).1,
        decreases toks@.len() - cur,
    {
        let w = match &toks[cur + 1] {
            AttrToken::Word(s) => s.clone(),
            _ => unreached(),
        };
        let ghost pre = segments@;
        let ghost old_dv = segments.deep_view();
        let ghost wg = w;
        segments.push(w);
        proof {
            lemma_deep_view_push(segments, pre, wg);
            assert(old_dv =~= Seq::new(pre.len(), |i: int| pre[i].deep_view()));
            assert(spec_path_rest(toks@, cur as int).0 == seq![toks@[cur as int + 1]->Word_0@]
                + spec_path_rest(toks@, cur as int + 2).0);
            assert(old_dv + spec_path_rest(toks@, cur as int).0 =~= segments.deep_view()
                + spec_path_rest(toks@, cur as int + 2).0);
        }
        cur = cur + 2;
    }
    proof {
        assert(spec_path_rest(toks@, cur as int).0 =~= Seq::<Seq<char>>::empty());
        assert(seq![toks@[pos as int]->Word_0@] + spec_path_rest(toks@, pos as int + 1).0
            =~= segments.deep_view());
    }
    Some((FnPath { leading: false, segments }, cur))
}

/// The contents of a string literal read as a path.
fn parse_quoted_path(toks: &Vec<AttrToken>) -> (r: Option<FnPath>)
    ensures
        match r {
            Some(p) => spec_parse_quoted_path(toks@) matches Some(pv) && pv == p@,
            None => spec_parse_quoted_path(toks@) is None,
        },
{
    if toks.len() > 0 && tok_is_path_sep(&toks[0]) {
        match parse_mod_path(toks, 1) {
            Some((p, j)) => if j == toks.len() {
                Some(FnPath { leading: true, segments: p.segments })
            } else {
                None
            },
            None => None,
        }
    } else {
        match parse_mod_path(toks, 0) {
            Some((p, j)) => if j == toks.len() {
                Some(p)
            } else {
                None
            },
            None => None,
        }
    }
}

/// A setup reference, as the value of a `setup =` entry: the original form of
/// the declaration wraps the parsed path.
#[derive(Debug)]
pub struct SetupFunc(pub FnPath);

impl View for SetupFunc {
    type V = PathView;

    open spec fn view(&self) -> PathView {
        self.0@
    }
}

impl SetupFunc {
    /// Parses the value of a `setup =` entry at `pos`: a string literal whose
    /// contents form a path, or a bare path written out in place.
    pub fn parse(toks: &Vec<AttrToken>, pos: usize) -> (r: Result<(SetupFunc, usize), ConfigError>)
        ensures
            match r {
                Ok(o) => {
                    &&& spec_parse_value(toks@, pos as int) matches Ok(sv)
                    &&& sv.0 == o.0@
                    &&& sv.1 == o.1 as int
                    &&& pos < o.1 <= toks@.len()
                },
                Err(e) => spec_parse_value(toks@, pos as int) matches Err(se) && se == e@,
            },
    {
        if pos < toks.len() {
            if let AttrToken::Quoted(inner) = &toks[pos] {
                return match parse_quoted_path(inner) {
                    Some(p) => Ok((SetupFunc(p), pos + 1)),
                    None => Err(ConfigError::MalformedValue { at: pos }),
                };
            }
        }
        match parse_mod_path(toks, pos) {
            Some((p, j)) => Ok((SetupFunc(p), j)),
            None => Err(ConfigError::MalformedValue { at: pos }),
        }
    }
}

/// One recognized configuration entry: a setup reference, or the explicit
/// request for none.
#[derive(Debug)]
pub enum Attribute {
    Setup(Option<SetupFunc>),
}

impl View for Attribute {
    type V = EntryView;

    open spec fn view(&self) -> EntryView {
        match self {
            Attribute::Setup(Some(sf)) => EntryView::Setup(Some(sf@)),
            Attribute::Setup(None) => EntryView::Setup(None),
        }
    }
}

impl DeepView for Attribute {
    type V = EntryView;

    open spec fn deep_view(&self) -> EntryView {
        self@
    }
}

impl Attribute {
    /// Parses one entry at `pos`: the key `setup` followed by `=` and a
    /// value, the bare key `no_setup`, or an error naming the offender.
    pub fn parse(toks: &Vec<AttrToken>, pos: usize) -> (r: Result<(Attribute, usize), ConfigError>)
        ensures
            match r {
                Ok(o) => {
                    &&& spec_parse_entry(toks@, pos as int) matches Ok(se)
                    &&& se.0 == o.0@
                    &&& se.1 == o.1 as int
                    &&& pos < o.1 <= toks@.len()
                },
                Err(e) => spec_parse_entry(toks@, pos as int) matches Err(se) && se == e@,
            },
    {
        if pos >= toks.len() {
            return Err(ConfigError::ExpectedEntry { at: pos });
        }
        let key = match &toks[pos] {
            AttrToken::Word(s) => s,
            _ => {
                return Err(ConfigError::ExpectedEntry { at: pos });
            },
        };
        let setup_kw = String::from_str("setup");
        let no_setup_kw = String::from_str("no_setup");
        if key.eq(&setup_kw) {
            if pos + 1 < toks.len() && tok_is_eq_sign(&toks[pos + 1]) {
                match SetupFunc::parse(toks, pos + 2) {
                    Ok((sf, j)) => Ok((Attribute::Setup(Some(sf)), j)),
                    Err(e) => Err(e),
                }
            } else {
                Err(ConfigError::ExpectedEq { at: pos + 1 })
            }
        } else if key.eq(&no_setup_kw) {
            Ok((Attribute::Setup(None), pos + 1))
        } else {
            Err(ConfigError::UnsupportedKey { key: key.clone(), at: pos })
        }
    }
}

/// The parsed configuration list, together with the default setup reference
/// that an empty list falls back to.
pub struct AttributeList {
    pub attrs: Vec<Attribute>,
    pub def_setup: FnPath,
}

/// The mathematical value of an [`AttributeList`].
pub ghost struct AttrListView {
    pub entries: Seq<EntryView>,
    pub def_setup: PathView,
}

impl View for AttributeList {
    type V = AttrListView;

    open spec fn view(&self) -> AttrListView {
        AttrListView { entries: self.attrs.deep_view(), def_setup: self.def_setup@ }
    }
}

impl AttributeList {
    /// The fixed default setup reference: the bare name `setup`.
    pub fn default_setup_func() -> (r: FnPath)
        ensures
            r@ == spec_default_path(),
    {
        let mut segments: Vec<String> = Vec::new();
        segments.push(String::from_str("setup"));
        let r = FnPath { leading: false, segments };
        proof {
            assert(r@.segs =~= seq!["setup"@]);
        }
        r
    }

    /// Parses the whole configuration list: empty, or entries separated by
    /// commas up to the end of the list.
    #[verifier::loop_isolation(false)]
    pub fn parse(toks: &Vec<AttrToken>) -> (r: Result<AttributeList, ConfigError>)
        ensures
            match r {
                Ok(al) => {
                    &&& spec_parse_attr_list(toks@) matches Ok(es)
                    &&& es == al@.entries
                    &&& al@.def_setup == spec_default_path()
                },
                Err(e) => spec_parse_attr_list(toks@) matches Err(se) && se == e@,
            },
    {
        let def_setup = Self::default_setup_func();
        let mut attrs: Vec<Attribute> = Vec::new();
        if toks.len() == 0 {
            let al = AttributeList { attrs, def_setup };
            proof {
                assert(al@.entries =~= Seq::<EntryView>::empty());
            }
            return Ok(al);
        }
        let mut pos: usize = 0;
        proof {
            assert(attrs.deep_view() =~= Seq::<EntryView>::empty());
        }
        loop
            invariant
                0 <= pos <= toks@.len(),
                match spec_parse_list(toks@, pos as int) {
                    Ok(rest) => spec_parse_attr_list(toks@) matches Ok(all) && all
                        == attrs.deep_view() + rest,
                    Err(e) => spec_parse_attr_list(toks@) matches Err(e2) && e2 == e,
                },
            decreases toks@.len() - pos,
        {
            match Attribute::parse(toks, pos) {
                Err(e) => {
                    return Err(e);
                },
                Ok((a, j)) => {
                    let ghost pre = attrs@;
                    let ghost old_dv = attrs.deep_view();
                    let ghost ag = a;
                    attrs.push(a);
                    proof {
                        lemma_deep_view_push(attrs, pre, ag);
                        assert(old_dv =~= Seq::new(pre.len(), |i: int| pre[i].deep_view()));
                    }
                    if j == toks.len() {
                        let al = AttributeList { attrs, def_setup };
                        proof {
                            assert(old_dv + seq![ag@] =~= al@.entries);
                        }
                        return Ok(al);
                    }
                    if tok_is_comma(&toks[j]) {
                        proof {
                            if spec_parse_list(toks@, j as int + 1) is Ok {
                                let rest = spec_parse_list(toks@, j as int + 1)->Ok_0;
                                assert(old_dv + (seq![ag@] + rest) =~= attrs.deep_view() + rest);
                            }
                        }
                        pos = j + 1;
                    } else {
                        return Err(ConfigError::ExpectedComma { at: j });
                    }
                },
            }
        }
    }

    /// Resolves the list to its setup reference, looking only at the first
    /// entry: the reference it names, nothing for `no_setup`, and the default
    /// reference when the list is empty.
    pub fn setup_func(&self) -> (r: Option<&FnPath>)
        ensures
            match spec_outcome(self@.entries) {
                ResolvedView::UseDefault => r matches Some(p) && p@ == self@.def_setup,
                ResolvedView::UsePath(pv) => r matches Some(p) && p@ == pv,
                ResolvedView::NoSetup => r is None,
            },
    {
        if self.attrs.len() > 0 {
            proof {
                assert(self@.entries[0] == self.attrs@[0].deep_view());
            }
            match &self.attrs[0] {
                Attribute::Setup(Some(sf)) => Some(&sf.0),
                Attribute::Setup(None) => None,
            }
        } else {
            Some(&self.def_setup)
        }
    }
}

} // verus!
