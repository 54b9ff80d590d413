//! The `Content-Security-Policy` header: its directives, their values, and
//! the rendering to header text.

use vstd::prelude::*;

verus! {

/// A policy directive name.
#[derive(Eq, PartialEq, Structural, Debug, Clone, Copy, Hash)]
pub enum Directive {
    /// `base-uri`
    BaseUri,
    /// `child-src`
    ChlidSrc,
    /// `connect-src`
    ConnectSrc,
    /// `default-src`
    DefaultSrc,
    /// `font-src`
    FontSrc,
    /// `form-action`
    FormAction,
    /// `frame-ancestors`
    FrameAncestors,
    /// `frame-src`
    FrameSrc,
    /// `img-src`
    ImgSrc,
    /// `manifest-src`
    ManifestSrc,
    /// `media-src`
    MediaSrc,
    /// `object-src`
    ObjectSrc,
    /// `report-to`
    ReportTo,
    /// `sandbox`
    Sandbox,
    /// `script-src`
    ScriptSrc,
    /// `script-src-elem`
    ScriptSrcElem,
    /// `script-src-attr`
    ScriptSrcAttr,
    /// `style-src`
    StyleSrc,
    /// `style-src-elem`
    StyleSrcElem,
    /// `style-src-attr`
    StyleSrcAttr,
    /// `upgrade-insecure-requests`
    UpgradeInsecureRequests,
    /// `worker-src`
    WorkerSrc,
}

/// A value of a policy directive.
#[derive(Debug, Clone, PartialEq, Eq)]
pub enum DirectiveValues {
    /// `'none'`, rendered as empty text.
    NoValue,
    /// `'self'`
    _Self,
    /// `'strict-dynamic'`
    StrictDynamic,
    /// `'report-sample'`
    ReportSample,
    /// `'unsafe-inline'`
    UnsafeInline,
    /// `'unsafe-eval'`
    UnsafeEval,
    /// `'unsafe-hashes'`
    UnsafeHashes,
    /// `'wasm-unsafe-eval'`
    WasmUnsafeEval,
    /// A host source.
    Host(String),
    /// A scheme source, rendered with a trailing colon.
    Scheme(String),
    /// A nonce source.
    Nonce(String),
    /// A hash source.
    Sha(String),
}

/// A directive value as the contracts see it.
pub enum DvView {
    /// `'none'`
    NoValue,
    /// `'self'`
    SelfSource,
    /// `'strict-dynamic'`
    StrictDynamic,
    /// `'report-sample'`
    ReportSample,
    /// `'unsafe-inline'`
    UnsafeInline,
    /// `'unsafe-eval'`
    UnsafeEval,
    /// `'unsafe-hashes'`
    UnsafeHashes,
    /// `'wasm-unsafe-eval'`
    WasmUnsafeEval,
    /// A host source.
    Host(Seq<char>),
    /// A scheme source.
    Scheme(Seq<char>),
    /// A nonce source.
    Nonce(Seq<char>),
    /// A hash source.
    Sha(Seq<char>),
}

/// The view of a directive value.
pub open spec fn dv_view(v: &DirectiveValues) -> DvView {
    match v {
        DirectiveValues::NoValue => DvView::NoValue,
        DirectiveValues::_Self => DvView::SelfSource,
        DirectiveValues::StrictDynamic => DvView::StrictDynamic,
        DirectiveValues::ReportSample => DvView::ReportSample,
        DirectiveValues::UnsafeInline => DvView::UnsafeInline,
        DirectiveValues::UnsafeEval => DvView::UnsafeEval,
        DirectiveValues::UnsafeHashes => DvView::UnsafeHashes,
        DirectiveValues::WasmUnsafeEval => DvView::WasmUnsafeEval,
        DirectiveValues::Host(h) => DvView::Host(h@),
        DirectiveValues::Scheme(s) => DvView::Scheme(s@),
        DirectiveValues::Nonce(n) => DvView::Nonce(n@),
        DirectiveValues::Sha(s) => DvView::Sha(s@),
    }
}

/// The views of a value list.
pub open spec fn dvs_view(vs: Seq<DirectiveValues>) -> Seq<DvView> {
    vs.map_values(|v: DirectiveValues| dv_view(&v))
}

/// The header text of one directive value.
pub open spec fn spec_value_text(v: DvView) -> Seq<char> {
    match v {
        DvView::NoValue => ""@,
        DvView::SelfSource => "'self'"@,
        DvView::StrictDynamic => "'strict-dynamic'"@,
        DvView::ReportSample => "'report-sample'"@,
        DvView::UnsafeInline => "'unsafe-inline'"@,
        DvView::UnsafeEval => "'unsafe-eval'"@,
        DvView::UnsafeHashes => "'unsafe-hashes'"@,
        DvView::WasmUnsafeEval => "'wasm-unsafe-eval'"@,
        DvView::Host(h) => h,
        DvView::Scheme(s) => s + ":"@,
        DvView::Nonce(n) => "'nonce-"@ + n + "'"@,
        DvView::Sha(s) => "'sha-"@ + s + "'"@,
    }
}

/// The header text of a directive name.
pub open spec fn spec_directive_text(d: Directive) -> Seq<char> {
    match d {
        Directive::BaseUri => "base-uri"@,
        Directive::ChlidSrc => "child-src"@,
        Directive::ConnectSrc => "connect-src"@,
        Directive::DefaultSrc => "default-src"@,
        Directive::FontSrc => "font-src"@,
        Directive::FormAction => "form-action"@,
        Directive::FrameAncestors => "frame-ancestors"@,
        Directive::FrameSrc => "frame-src"@,
        Directive::ImgSrc => "img-src"@,
        Directive::ManifestSrc => "manifest-src"@,
        Directive::MediaSrc => "media-src"@,
        Directive::ObjectSrc => "object-src"@,
        Directive::ReportTo => "report-to"@,
        Directive::Sandbox => "sandbox"@,
        Directive::ScriptSrc => "script-src"@,
        Directive::ScriptSrcElem => "script-src-elem"@,
        Directive::ScriptSrcAttr => "script-src-attr"@,
        Directive::StyleSrc => "style-src"@,
        Directive::StyleSrcElem => "style-src-elem"@,
        Directive::StyleSrcAttr => "style-src-attr"@,
        Directive::UpgradeInsecureRequests => "upgrade-insecure-requests"@,
        Directive::WorkerSrc => "worker-src"@,
    }
}

/// The rendered values of one directive, each followed by a space.
pub open spec fn spec_render_values(vs: Seq<DvView>) -> Seq<char>
    decreases vs.len(),
{
    if vs.len() == 0 {
        Seq::empty()
    } else {
        spec_value_text(vs[0]) + " "@ + spec_render_values(vs.drop_first())
    }
}

/// The rendered policy: for each directive its name, a space, its rendered
/// values, and a closing semicolon.
pub open spec fn spec_render_csp(es: Seq<(Directive, Seq<DvView>)>) -> Seq<char>
    decreases es.len(),
{
    if es.len() == 0 {
        Seq::empty()
    } else {
        spec_directive_text(es[0].0) + " "@ + spec_render_values(es[0].1) + ";"@
            + spec_render_csp(es.drop_first())
    }
}

/// The index of the first entry for a directive.
pub open spec fn find_directive(es: Seq<(Directive, Seq<DvView>)>, d: Directive) -> Option<int>
    decreases es.len(),
{
    if es.len() == 0 {
        None
    } else if es[0].0 == d {
        Some(0)
    } else {
        match find_directive(es.drop_first(), d) {
            Some(i) => Some(i + 1),
            None => None,
        }
    }
}

/// A content security policy: its directives in insertion order, each with
/// its values.
#[derive(Debug, Clone)]
pub struct ContentSecurityPolicy {
    directives: Vec<(Directive, Vec<DirectiveValues>)>,
}

impl ContentSecurityPolicy {
    /// The directives as the contracts see them.
    pub closed spec fn spec_directives(&self) -> Seq<(Directive, Seq<DvView>)> {
        self.directives@.map_values(
            |e: (Directive, Vec<DirectiveValues>)| (e.0, dvs_view(e.1@)),
        )
    }

    /// A policy with no directives.
    pub fn new() -> (r: ContentSecurityPolicy)
        ensures
            r.spec_directives() == Seq::<(Directive, Seq<DvView>)>::empty(),
    {
        let r = ContentSecurityPolicy { directives: Vec::new() };
        proof {
            assert(r.spec_directives() =~= Seq::<(Directive, Seq<DvView>)>::empty());
        }
        r
    }

    /// Sets the values of a directive, replacing any earlier values for it.
    pub fn set_directive(&mut self, directive: Directive, values: Vec<DirectiveValues>)
        ensures
            final(self).spec_directives() == (match find_directive(
                old(self).spec_directives(),
                directive,
            ) {
                Some(i) => old(self).spec_directives().update(
                    i,
                    (directive, dvs_view(values@)),
                ),
                None => old(self).spec_directives().push((directive, dvs_view(values@))),
            }),
    {
        let n = self.directives.len();
        let mut i: usize = 0;
        while i < n
            invariant
                n == self.directives@.len(),
                self.directives@ == old(self).directives@,
                0 <= i <= n,
                forall|j: int| 0 <= j < i ==> (#[trigger] self.directives@[j]).0 != directive,
            decreases n - i,
        {
            if self.directives[i].0 == directive {
                let ghost pre = self.spec_directives();
                self.directives[i] = (directive, values);
                proof {
                    lemma_find_directive_at(pre, directive, i as int);
                    assert(self.spec_directives() =~~= pre.update(
                        i as int,
                        (directive, dvs_view(values@)),
                    ));
                }
                return ;
            }
            i = i + 1;
        }
        let ghost pre = self.spec_directives();
        self.directives.push((directive, values));
        proof {
            lemma_find_directive_none(pre, directive);
            assert(self.spec_directives() =~~= pre.push((directive, dvs_view(values@))));
        }
    }

    /// Renders the policy to its header text.
    pub fn render(&self) -> (r: String)
        ensures
            r@ == spec_render_csp(self.spec_directives()),
    {
        let ghost es = self.spec_directives();
        let n = self.directives.len();
        let mut out = String::new();
        let mut i: usize = 0;
        proof {
            assert(es.skip(0) =~~= es);
        }
        while i < n
            invariant
                n == self.directives@.len(),
                es == self.spec_directives(),
                es.len() == n,
                0 <= i <= n,
                out@ + spec_render_csp(es.skip(i as int)) =~= out@ + spec_render_csp(
                    es.skip(i as int),
                ),
                spec_render_csp(es) =~= out@ + spec_render_csp(es.skip(i as int)),
            decreases n - i,
        {
            proof {
                assert(es.skip(i as int)[0] == es[i as int]);
                assert(es.skip(i as int).drop_first() =~~= es.skip(i + 1));
            }
            let dtext = directive_text(&self.directives[i].0);
            out.append(dtext.as_str());
            out.append(" ");
            let ghost vs = es[i as int].1;
            let values = &self.directives[i].1;
            let vn = values.len();
            let mut k: usize = 0;
            proof {
                assert(vs =~~= dvs_view(values@));
                assert(vs.skip(0) =~~= vs);
            }
            while k < vn
                invariant
                    vn == values@.len(),
                    vs == dvs_view(values@),
                    vs.len() == vn,
                    0 <= k <= vn,
                    spec_render_csp(es) =~= (out@ + spec_render_values(vs.skip(k as int)) + ";"@
                        + spec_render_csp(es.skip(i + 1))),
                decreases vn - k,
            {
                proof {
                    assert(vs.skip(k as int)[0] == vs[k as int]);
                    assert(vs[k as int] == dv_view(&values@[k as int]));
                    assert(vs.skip(k as int).drop_first() =~~= vs.skip(k + 1));
                }
                let vtext = value_text(&values[k]);
                out.append(vtext.as_str());
                out.append(" ");
                k = k + 1;
            }
            proof {
                assert(vs.skip(vn as int) =~~= Seq::<DvView>::empty());
            }
            out.append(";");
            i = i + 1;
        }
        proof {
            assert(es.skip(n as int) =~~= Seq::<(Directive, Seq<DvView>)>::empty());
        }
        out
    }
}

proof fn lemma_find_directive_at(es: Seq<(Directive, Seq<DvView>)>, d: Directive, k: int)
    requires
        0 <= k < es.len(),
        es[k].0 == d,
        forall|j: int| 0 <= j < k ==> (#[trigger] es[j]).0 != d,
    ensures
        find_directive(es, d) == Some(k),
    decreases k,
{
    if k > 0 {
        lemma_find_directive_at(es.drop_first(), d, k - 1);
    }
}

proof fn lemma_find_directive_none(es: Seq<(Directive, Seq<DvView>)>, d: Directive)
    requires
        forall|j: int| 0 <= j < es.len() ==> (#[trigger] es[j]).0 != d,
    ensures
        find_directive(es, d) is None,
    decreases es.len(),
{
    if es.len() > 0 {
        lemma_find_directive_none(es.drop_first(), d);
    }
}

/// The header text of a directive name.
fn directive_text(d: &Directive) -> (r: String)
    ensures
        r@ == spec_directive_text(*d),
{
    match d {
        Directive::BaseUri => String::from_str("base-uri"),
        Directive::ChlidSrc => String::from_str("child-src"),
        Directive::ConnectSrc => String::from_str("connect-src"),
        Directive::DefaultSrc => String::from_str("default-src"),
        Directive::FontSrc => String::from_str("font-src"),
        Directive::FormAction => String::from_str("form-action"),
        Directive::FrameAncestors => String::from_str("frame-ancestors"),
        Directive::FrameSrc => String::from_str("frame-src"),
        Directive::ImgSrc => String::from_str("img-src"),
        Directive::ManifestSrc => String::from_str("manifest-src"),
        Directive::MediaSrc => String::from_str("media-src"),
        Directive::ObjectSrc => String::from_str("object-src"),
        Directive::ReportTo => String::from_str("report-to"),
        Directive::Sandbox => String::from_str("sandbox"),
        Directive::ScriptSrc => String::from_str("script-src"),
        Directive::ScriptSrcElem => String::from_str("script-src-elem"),
        Directive::ScriptSrcAttr => String::from_str("script-src-attr"),
        Directive::StyleSrc => String::from_str("style-src"),
        Directive::StyleSrcElem => String::from_str("style-src-elem"),
        Directive::StyleSrcAttr => String::from_str("style-src-attr"),
        Directive::UpgradeInsecureRequests => String::from_str("upgrade-insecure-requests"),
        Directive::WorkerSrc => String::from_str("worker-src"),
    }
}

/// The header text of one directive value.
fn value_text(v: &DirectiveValues) -> (r: String)
    ensures
        r@ == spec_value_text(dv_view(v)),
{
    match v {
        DirectiveValues::NoValue => {
            let out = String::new();
            proof {
                reveal_strlit("");
                assert(out@ =~= ""@);
            }
            out
        },
        DirectiveValues::_Self => String::from_str("'self'"),
        DirectiveValues::StrictDynamic => String::from_str("'strict-dynamic'"),
        DirectiveValues::ReportSample => String::from_str("'report-sample'"),
        DirectiveValues::UnsafeInline => String::from_str("'unsafe-inline'"),
        DirectiveValues::UnsafeEval => String::from_str("'unsafe-eval'"),
        DirectiveValues::UnsafeHashes => String::from_str("'unsafe-hashes'"),
        DirectiveValues::WasmUnsafeEval => String::from_str("'wasm-unsafe-eval'"),
        DirectiveValues::Host(h) => h.clone(),
        DirectiveValues::Scheme(s) => {
            let mut out = s.clone();
            out.append(":");
            out
        },
        DirectiveValues::Nonce(n) => {
            let mut out = String::from_str("'nonce-");
            out.append(n.as_str());
            out.append("'");
            proof {
                assert(out@ =~= "'nonce-"@ + n@ + "'"@);
            }
            out
        },
        DirectiveValues::Sha(s) => {
            let mut out = String::from_str("'sha-");
            out.append(s.as_str());
            out.append("'");
            proof {
                assert(out@ =~= "'sha-"@ + s@ + "'"@);
            }
            out
        },
    }
}

impl Default for ContentSecurityPolicy {
    /// The default policy: self-sourced content, data/https fonts, data
    /// images, no objects, inline styles allowed, and insecure requests
    /// upgraded.
    fn default() -> (r: Self)
        ensures
            r.spec_directives().len() == 11,
            find_directive(r.spec_directives(), Directive::DefaultSrc) is Some,
            find_directive(r.spec_directives(), Directive::UpgradeInsecureRequests) is Some,
    {
        let mut directives: Vec<(Directive, Vec<DirectiveValues>)> = Vec::new();
        let mut values: Vec<DirectiveValues> = Vec::new();
        values.push(DirectiveValues::_Self);
        directives.push((Directive::DefaultSrc, values));

        let mut values: Vec<DirectiveValues> = Vec::new();
        values.push(DirectiveValues::_Self);
        directives.push((Directive::BaseUri, values));

        let mut values: Vec<DirectiveValues> = Vec::new();
        values.push(DirectiveValues::_Self);
        values.push(DirectiveValues::Scheme(String::from_str("data")));
        values.push(DirectiveValues::Scheme(String::from_str("https")));
        directives.push((Directive::FontSrc, values));

        let mut values: Vec<DirectiveValues> = Vec::new();
        values.push(DirectiveValues::_Self);
        directives.push((Directive::FormAction, values));

        let mut values: Vec<DirectiveValues> = Vec::new();
        values.push(DirectiveValues::_Self);
        directives.push((Directive::FrameAncestors, values));

        let mut values: Vec<DirectiveValues> = Vec::new();
        values.push(DirectiveValues::_Self);
        values.push(DirectiveValues::Scheme(String::from_str("data")));
        directives.push((Directive::ImgSrc, values));

        let mut values: Vec<DirectiveValues> = Vec::new();
        values.push(DirectiveValues::NoValue);
        directives.push((Directive::ObjectSrc, values));

        let mut values: Vec<DirectiveValues> = Vec::new();
        values.push(DirectiveValues::_Self);
        directives.push((Directive::ScriptSrc, values));

        let mut values: Vec<DirectiveValues> = Vec::new();
        values.push(DirectiveValues::NoValue);
        directives.push((Directive::ScriptSrcAttr, values));

        let mut values: Vec<DirectiveValues> = Vec::new();
        values.push(DirectiveValues::_Self);
        values.push(DirectiveValues::Scheme(String::from_str("https")));
        values.push(DirectiveValues::UnsafeInline);
        directives.push((Directive::StyleSrc, values));

        let values: Vec<DirectiveValues> = Vec::new();
        directives.push((Directive::UpgradeInsecureRequests, values));

        let csp = ContentSecurityPolicy { directives };
        proof {
            let es = csp.spec_directives();
            assert(es.len() == 11);
            assert(es[0].0 == Directive::DefaultSrc);
            assert(es[10].0 == Directive::UpgradeInsecureRequests);
            lemma_find_directive_at(es, Directive::DefaultSrc, 0);
            assert(forall|j: int| 0 <= j < 10 ==> (#[trigger] es[j]).0
                != Directive::UpgradeInsecureRequests);
            lemma_find_directive_at(es, Directive::UpgradeInsecureRequests, 10);
        }
        csp
    }
}

} // verus!
