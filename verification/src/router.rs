//! The router: a path-segment trie mapping (method, path pattern) pairs to
//! endpoints, with literal and named-parameter segments, plus the dispatch
//! pipeline that runs the middleware tiers around the matched controller.
//!
//! The route tree is built during registration and is logically read-only
//! while serving; dispatch walks it without structural mutation (only
//! middleware state inside endpoints changes).

use vstd::prelude::*;

use crate::http_method::HttpMethod;
use crate::middleware::{chain_spec, mw_wf, mws_wf, Middleware};
use crate::request::Request;
use crate::response::Response;
use crate::router::endpoint::Controller;
use crate::server::route_handler::HandlerResult;
use crate::router::endpoint::Endpoint;
use crate::string_map::StringMap;
use crate::strutil::{find_char, spec_find, split_str, str_eq, substring};

pub mod endpoint;
pub mod laws;
pub mod methods;
pub mod route;

verus! {

/// One segment of a route pattern: a literal directory name or a named
/// parameter.
#[derive(Debug, Clone, PartialEq, Eq)]
pub enum PathType {
    /// A literal segment, matched by exact text.
    Subdirectory(String),
    /// A named parameter segment, matching any one segment and binding it.
    Parameter(String),
}

/// A pattern segment as the contracts see it.
pub enum PathTypeView {
    /// A literal segment.
    Subdirectory(Seq<char>),
    /// A named parameter segment.
    Parameter(Seq<char>),
}

impl View for PathType {
    type V = PathTypeView;

    open spec fn view(&self) -> PathTypeView {
        match self {
            PathType::Subdirectory(s) => PathTypeView::Subdirectory(s@),
            PathType::Parameter(s) => PathTypeView::Parameter(s@),
        }
    }
}

/// Error for parsing path types while adding a route: the offending segment.
#[derive(Debug, Clone, PartialEq, Eq)]
pub struct ParsePathTypeError(pub String);

/// Registration errors; all of them indicate a configuration mistake and are
/// fatal at start-up.
#[derive(Debug, Clone, PartialEq, Eq)]
pub enum RouteError {
    /// A literal segment holds a character outside the allowed set.
    InvalidPath(ParsePathTypeError),
    /// An endpoint for this method already exists at this exact path.
    DuplicateRoute,
    /// A parameter at this depth was already registered under another name.
    ConflictingParameterName,
}

/// Whether a character may appear in a literal path segment.
pub open spec fn is_path_char(c: char) -> bool {
    ||| ('a' <= c && c <= 'z')
    ||| ('A' <= c && c <= 'Z')
    ||| ('0' <= c && c <= '9')
    ||| c == '_'
    ||| c == '-'
    ||| c == '.'
}

/// Whether a piece of text is a valid literal segment: non-empty, with every
/// character in the allowed set.
pub open spec fn is_valid_literal(s: Seq<char>) -> bool {
    s.len() > 0 && forall|i: int| 0 <= i < s.len() ==> is_path_char(s[i])
}

/// The pattern segment a piece of text denotes: text after a leading colon
/// names a parameter; a valid literal names a subdirectory; anything else is
/// rejected.
pub open spec fn spec_segment_of(s: Seq<char>) -> Option<PathTypeView> {
    if s.len() > 0 && s[0] == ':' {
        Some(PathTypeView::Parameter(s.skip(1)))
    } else if is_valid_literal(s) {
        Some(PathTypeView::Subdirectory(s))
    } else {
        None
    }
}

impl PathType {
    /// Parses one pattern segment; exactly parameters (`:name`) and valid
    /// literals are accepted, and the error names the offending text.
    pub fn parse(value: &str) -> (r: Result<PathType, ParsePathTypeError>)
        ensures
            r matches Ok(pt) ==> spec_segment_of(value@) == Some(pt@),
            r matches Err(e) ==> spec_segment_of(value@) is None && e.0@ == value@,
    {
        let len = value.unicode_len();
        if len > 0 && value.get_char(0) == ':' {
            let rest = substring(value, 1, len);
            return Ok(PathType::Parameter(rest));
        }
        if len == 0 {
            return Err(ParsePathTypeError(value.to_owned()));
        }
        let mut i: usize = 0;
        while i < len
            invariant
                len == value@.len(),
                len > 0,
                value@[0] != ':',
                0 <= i <= len,
                forall|j: int| 0 <= j < i ==> is_path_char(value@[j]),
            decreases len - i,
        {
            let c = value.get_char(i);
            if !(('a' <= c && c <= 'z') || ('A' <= c && c <= 'Z') || ('0' <= c && c <= '9') || c
                == '_' || c == '-' || c == '.') {
                return Err(ParsePathTypeError(value.to_owned()));
            }
            i = i + 1;
        }
        Ok(PathType::Subdirectory(value.to_owned()))
    }
}

/// The pattern a path string denotes: its non-empty slash-separated pieces,
/// each parsed as a segment; `None` when any piece is invalid.
pub open spec fn spec_segments(pieces: Seq<Seq<char>>) -> Option<Seq<PathTypeView>>
    decreases pieces.len(),
{
    if pieces.len() == 0 {
        Some(Seq::empty())
    } else if pieces[0].len() == 0 {
        spec_segments(pieces.drop_first())
    } else {
        match spec_segment_of(pieces[0]) {
            Some(pt) => match spec_segments(pieces.drop_first()) {
                Some(rest) => Some(seq![pt] + rest),
                None => None,
            },
            None => None,
        }
    }
}

/// The pattern of a route path string.
pub open spec fn spec_path_types(path: Seq<char>) -> Option<Seq<PathTypeView>> {
    spec_segments(crate::strutil::spec_split(path, '/'))
}

/// The views of parsed pattern segments.
pub open spec fn pts_view(s: Seq<PathType>) -> Seq<PathTypeView> {
    s.map_values(|p: PathType| p@)
}

/// Splits a route path on slashes, drops empty pieces, and parses each piece
/// as a pattern segment; exactly the paths whose pieces all parse are
/// accepted.
pub fn get_path_types(path: &str) -> (r: Result<Vec<PathType>, ParsePathTypeError>)
    ensures
        r matches Ok(v) ==> spec_path_types(path@) == Some(pts_view(v@)),
        r matches Err(e) ==> spec_path_types(path@) is None,
{
    let pieces = split_str(path, '/');
    let ghost all = pieces.deep_view();
    let n = pieces.len();
    let mut out: Vec<PathType> = Vec::new();
    let mut i: usize = 0;
    proof {
        assert(all.skip(0) =~= all);
    }
    while i < n
        invariant
            pieces.deep_view() == all,
            all == crate::strutil::spec_split(path@, '/'),
            n == all.len(),
            n == pieces@.len(),
            0 <= i <= n,
            spec_segments(all) matches Some(full) ==> (spec_segments(all.skip(i as int)) matches
                Some(rest) && full == pts_view(out@) + rest),
            spec_segments(all) is None ==> spec_segments(all.skip(i as int)) is None,
        decreases n - i,
    {
        proof {
            assert(all.skip(i as int).drop_first() =~= all.skip(i + 1));
            assert(all.skip(i as int)[0] == all[i as int]);
            assert(all[i as int] == pieces@[i as int]@);
        }
        if pieces[i].as_str().unicode_len() > 0 {
            match PathType::parse(pieces[i].as_str()) {
                Ok(pt) => {
                    out.push(pt);
                    proof {
                        assert(pts_view(out@) =~= pts_view(out@.drop_last()).push(
                            out@.last()@,
                        ));
                        if spec_segments(all) is Some {
                            assert(pts_view(out@.drop_last()) + (seq![out@.last()@]
                                + spec_segments(all.skip(i + 1)).unwrap()) =~= pts_view(out@)
                                + spec_segments(all.skip(i + 1)).unwrap());
                        }
                    }
                },
                Err(e) => {
                    proof {
                        assert(spec_segments(all.skip(i as int)) is None);
                    }
                    return Err(e);
                },
            }
        }
        i = i + 1;
    }
    proof {
        assert(all.skip(n as int) =~= Seq::<Seq<char>>::empty());
        if spec_segments(all) is Some {
            assert(pts_view(out@) + Seq::<PathTypeView>::empty() =~= pts_view(out@));
        }
    }
    Ok(out)
}

/// A node of the route tree: the endpoints registered at this depth, the
/// literal children, and at most one parameter child. The fields are public
/// so that the router's contracts can speak of the tree directly.
pub struct RouteNode<C> {
    /// The endpoints registered exactly at this depth, one per method.
    pub endpoints: Vec<Endpoint<C>>,
    /// The literal children, keyed by segment text; keys are unique.
    pub children: Vec<(String, RouteNode<C>)>,
    /// The parameter child, at most one per node.
    pub param_child: Option<Box<(String, RouteNode<C>)>>,
}

/// A router: the root of a route tree plus the router-scoped middleware that
/// runs for every request entering this router.
pub struct Router<C> {
    /// The root node of the route tree.
    pub root: RouteNode<C>,
    /// The router-scoped middleware, in registration order.
    pub middlewares: Vec<Middleware>,
}

/// The route tree invariant: unique child keys, one endpoint per method, and
/// well-formed middleware, recursively.
pub open spec fn node_wf<C>(n: RouteNode<C>) -> bool
    decreases n,
{
    &&& (forall|a: int, b: int|
        0 <= a < b < n.children@.len() ==> (#[trigger] n.children@[a]).0@ != (
        #[trigger] n.children@[b]).0@)
    &&& (forall|a: int, b: int|
        0 <= a < b < n.endpoints@.len() ==> (#[trigger] n.endpoints@[a]).method != (
        #[trigger] n.endpoints@[b]).method)
    &&& (forall|e: int|
        0 <= e < n.endpoints@.len() ==> mws_wf((#[trigger] n.endpoints@[e]).middlewares@))
    &&& (forall|i: int| 0 <= i < n.children@.len() ==> node_wf((#[trigger] n.children@[i]).1))
    &&& (match n.param_child {
        Some(b) => node_wf(b.1),
        None => true,
    })
}

/// The router invariant.
pub open spec fn router_wf<C>(r: Router<C>) -> bool {
    node_wf(r.root) && mws_wf(r.middlewares@)
}

/// A segment with any trailing query string removed: the text before its
/// first `?`.
pub open spec fn strip_query(seg: Seq<char>) -> Seq<char> {
    match spec_find(seg, '?') {
        Some(i) => seg.take(i),
        None => seg,
    }
}

/// The index of the first literal child whose key is the given text.
pub open spec fn find_child<C>(children: Seq<(String, RouteNode<C>)>, seg: Seq<char>) -> Option<
    int,
>
    decreases children.len(),
{
    if children.len() == 0 {
        None
    } else if children[0].0@ == seg {
        Some(0)
    } else {
        match find_child(children.drop_first(), seg) {
            Some(i) => Some(i + 1),
            None => None,
        }
    }
}

/// The index of the first endpoint answering the given method.
pub open spec fn find_endpoint<C>(eps: Seq<Endpoint<C>>, method: HttpMethod) -> Option<int>
    decreases eps.len(),
{
    if eps.len() == 0 {
        None
    } else if eps[0].method == method {
        Some(0)
    } else {
        match find_endpoint(eps.drop_first(), method) {
            Some(i) => Some(i + 1),
            None => None,
        }
    }
}

/// Resolving a request path against the tree: one segment is consumed per
/// level, stripped of any query suffix; empty segments are skipped; a literal
/// child takes precedence over the parameter child, which binds the segment
/// text under its name; at the end of the path, the endpoint for the method
/// answers, with the bindings accumulated on the way.
pub open spec fn lookup_node<C>(
    node: RouteNode<C>,
    segs: Seq<Seq<char>>,
    method: HttpMethod,
    bindings: Map<Seq<char>, Seq<char>>,
) -> Option<(Endpoint<C>, Map<Seq<char>, Seq<char>>)>
    decreases segs.len(),
{
    if segs.len() == 0 {
        match find_endpoint(node.endpoints@, method) {
            Some(e) => Some((node.endpoints@[e], bindings)),
            None => None,
        }
    } else {
        let seg = strip_query(segs[0]);
        if seg.len() == 0 {
            lookup_node(node, segs.drop_first(), method, bindings)
        } else {
            match find_child(node.children@, seg) {
                Some(c) => lookup_node(
                    node.children@[c].1,
                    segs.drop_first(),
                    method,
                    bindings,
                ),
                None => match node.param_child {
                    Some(pc) => lookup_node(
                        pc.1,
                        segs.drop_first(),
                        method,
                        bindings.insert(pc.0@, seg),
                    ),
                    None => None,
                },
            }
        }
    }
}

/// Resolving a request path against a router's tree, starting with no
/// bindings.
pub open spec fn spec_lookup<C>(
    router: Router<C>,
    segs: Seq<Seq<char>>,
    method: HttpMethod,
) -> Option<(Endpoint<C>, Map<Seq<char>, Seq<char>>)> {
    lookup_node(router.root, segs, method, Map::empty())
}

/// Strips the query suffix from one path segment.
fn strip_query_str(seg: &str) -> (r: String)
    ensures
        r@ == strip_query(seg@),
{
    let len = seg.unicode_len();
    match find_char(seg, '?') {
        Some(i) => substring(seg, 0, i),
        None => seg.to_owned(),
    }
}

/// Finds the first literal child with the given key.
fn find_child_idx<C>(children: &Vec<(String, RouteNode<C>)>, seg: &str) -> (r: Option<usize>)
    ensures
        match r {
            Some(i) => i < children@.len() && find_child(children@, seg@) == Some(i as int)
                && children@[i as int].0@ == seg@,
            None => find_child(children@, seg@) is None,
        },
{
    let n = children.len();
    let mut i: usize = 0;
    while i < n
        invariant
            n == children@.len(),
            0 <= i <= n,
            forall|j: int| 0 <= j < i ==> (#[trigger] children@[j]).0@ != seg@,
        decreases n - i,
    {
        if str_eq(children[i].0.as_str(), seg) {
            proof {
                lemma_find_child_at(children@, seg@, i as int);
            }
            return Some(i);
        }
        i = i + 1;
    }
    proof {
        lemma_find_child_none(children@, seg@);
    }
    None
}

proof fn lemma_find_child_at<C>(children: Seq<(String, RouteNode<C>)>, seg: Seq<char>, k: int)
    requires
        0 <= k < children.len(),
        children[k].0@ == seg,
        forall|j: int| 0 <= j < k ==> (#[trigger] children[j]).0@ != seg,
    ensures
        find_child(children, seg) == Some(k),
    decreases k,
{
    if k > 0 {
        assert(children[0].0@ != seg);
        lemma_find_child_at(children.drop_first(), seg, k - 1);
    }
}

proof fn lemma_find_child_none<C>(children: Seq<(String, RouteNode<C>)>, seg: Seq<char>)
    requires
        forall|j: int| 0 <= j < children.len() ==> (#[trigger] children[j]).0@ != seg,
    ensures
        find_child(children, seg) is None,
    decreases children.len(),
{
    if children.len() > 0 {
        lemma_find_child_none(children.drop_first(), seg);
    }
}

/// What `find_child` finds: an in-range index whose key is the text, with no
/// earlier match; `None` means no key matches.
pub proof fn lemma_find_child_props<C>(children: Seq<(String, RouteNode<C>)>, seg: Seq<char>)
    ensures
        match find_child(children, seg) {
            Some(i) => 0 <= i < children.len() && children[i].0@ == seg && forall|j: int|
                0 <= j < i ==> (#[trigger] children[j]).0@ != seg,
            None => forall|j: int|
                0 <= j < children.len() ==> (#[trigger] children[j]).0@ != seg,
        },
    decreases children.len(),
{
    if children.len() > 0 && children[0].0@ != seg {
        lemma_find_child_props(children.drop_first(), seg);
        match find_child(children.drop_first(), seg) {
            Some(i) => {
                assert(children[i + 1] == children.drop_first()[i]);
                assert forall|j: int| 0 <= j < i + 1 implies (#[trigger] children[j]).0@
                    != seg by {
                    if j > 0 {
                        assert(children[j] == children.drop_first()[j - 1]);
                    }
                }
            },
            None => {
                assert forall|j: int| 0 <= j < children.len() implies (#[trigger] children[j]).0@
                    != seg by {
                    if j > 0 {
                        assert(children[j] == children.drop_first()[j - 1]);
                    }
                }
            },
        }
    }
}

/// Finds the first endpoint answering the method.
fn find_endpoint_idx<C>(eps: &Vec<Endpoint<C>>, method: &HttpMethod) -> (r: Option<usize>)
    ensures
        match r {
            Some(i) => i < eps@.len() && find_endpoint(eps@, *method) == Some(i as int)
                && eps@[i as int].method == *method,
            None => find_endpoint(eps@, *method) is None,
        },
{
    let n = eps.len();
    let mut i: usize = 0;
    while i < n
        invariant
            n == eps@.len(),
            0 <= i <= n,
            forall|j: int| 0 <= j < i ==> (#[trigger] eps@[j]).method != *method,
        decreases n - i,
    {
        if eps[i].is_method(method) {
            proof {
                lemma_find_endpoint_at(eps@, *method, i as int);
            }
            return Some(i);
        }
        i = i + 1;
    }
    proof {
        lemma_find_endpoint_none(eps@, *method);
    }
    None
}

proof fn lemma_find_endpoint_at<C>(eps: Seq<Endpoint<C>>, method: HttpMethod, k: int)
    requires
        0 <= k < eps.len(),
        eps[k].method == method,
        forall|j: int| 0 <= j < k ==> (#[trigger] eps[j]).method != method,
    ensures
        find_endpoint(eps, method) == Some(k),
    decreases k,
{
    if k > 0 {
        lemma_find_endpoint_at(eps.drop_first(), method, k - 1);
    }
}

proof fn lemma_find_endpoint_none<C>(eps: Seq<Endpoint<C>>, method: HttpMethod)
    requires
        forall|j: int| 0 <= j < eps.len() ==> (#[trigger] eps[j]).method != method,
    ensures
        find_endpoint(eps, method) is None,
    decreases eps.len(),
{
    if eps.len() > 0 {
        lemma_find_endpoint_none(eps.drop_first(), method);
    }
}

/// What `find_endpoint` finds.
pub proof fn lemma_find_endpoint_props<C>(eps: Seq<Endpoint<C>>, method: HttpMethod)
    ensures
        match find_endpoint(eps, method) {
            Some(i) => 0 <= i < eps.len() && eps[i].method == method,
            None => forall|j: int| 0 <= j < eps.len() ==> (#[trigger] eps[j]).method != method,
        },
    decreases eps.len(),
{
    if eps.len() > 0 && eps[0].method != method {
        lemma_find_endpoint_props(eps.drop_first(), method);
        match find_endpoint(eps.drop_first(), method) {
            Some(i) => {
                assert(eps[i + 1] == eps.drop_first()[i]);
            },
            None => {
                assert forall|j: int| 0 <= j < eps.len() implies (#[trigger] eps[j]).method
                    != method by {
                    if j > 0 {
                        assert(eps[j] == eps.drop_first()[j - 1]);
                    }
                }
            },
        }
    }
}

/// Walks the tree from a node, consuming one path segment per level and
/// accumulating parameter bindings; returns the matched endpoint and the
/// bindings.
fn handle_routes<'a, C>(
    node: &'a RouteNode<C>,
    path_array: &Vec<String>,
    i: usize,
    method: &HttpMethod,
    params: StringMap,
) -> (r: Option<(&'a Endpoint<C>, StringMap)>)
    requires
        params.wf(),
        i <= path_array@.len(),
    ensures
        match r {
            Some(found) => found.1.wf() && lookup_node(
                *node,
                path_array.deep_view().skip(i as int),
                *method,
                params@,
            ) == Some((*found.0, found.1@)),
            None => lookup_node(
                *node,
                path_array.deep_view().skip(i as int),
                *method,
                params@,
            ) is None,
        },
    decreases path_array@.len() - i,
{
    let ghost segs = path_array.deep_view().skip(i as int);
    if i == path_array.len() {
        proof {
            assert(segs =~= Seq::<Seq<char>>::empty());
        }
        match find_endpoint_idx(&node.endpoints, method) {
            Some(e) => Some((&node.endpoints[e], params)),
            None => None,
        }
    } else {
        proof {
            assert(segs[0] == path_array.deep_view()[i as int]);
            assert(path_array.deep_view()[i as int] == path_array@[i as int]@);
            assert(segs.drop_first() =~= path_array.deep_view().skip(i + 1));
        }
        let seg = strip_query_str(path_array[i].as_str());
        if seg.as_str().unicode_len() == 0 {
            handle_routes(node, path_array, i + 1, method, params)
        } else {
            match find_child_idx(&node.children, seg.as_str()) {
                Some(c) => handle_routes(&node.children[c].1, path_array, i + 1, method, params),
                None => match &node.param_child {
                    Some(pc) => {
                        let mut params2 = params;
                        params2.insert(pc.0.as_str(), seg.as_str());
                        handle_routes(&pc.1, path_array, i + 1, method, params2)
                    },
                    None => None,
                },
            }
        }
    }
}

impl<C> Router<C> {
    /// Creates a new router with an empty tree and no middleware.
    pub fn new() -> (r: Self)
        ensures
            router_wf(r),
            r.root.endpoints@ == Seq::<Endpoint<C>>::empty(),
            r.root.children@ == Seq::<(String, RouteNode<C>)>::empty(),
            r.root.param_child is None,
            r.middlewares@ == Seq::<Middleware>::empty(),
    {
        Router {
            root: RouteNode { endpoints: Vec::new(), children: Vec::new(), param_child: None },
            middlewares: Vec::new(),
        }
    }

    /// Adds a middleware to the router-scoped tier; it will run for every
    /// request entering this router, in registration order.
    pub fn use_middleware(&mut self, middleware: Middleware)
        requires
            router_wf(*old(self)),
            crate::middleware::mw_wf(&middleware),
        ensures
            router_wf(*final(self)),
            final(self).root == old(self).root,
            final(self).middlewares@ == old(self).middlewares@.push(middleware),
    {
        proof {
            assert(forall|i: int|
                0 <= i < old(self).middlewares@.len() ==> mw_wf(
                    #[trigger] &old(self).middlewares@[i],
                ));
        }
        self.middlewares.push(middleware);
        proof {
            assert(forall|i: int|
                0 <= i < self.middlewares@.len() ==> mw_wf(#[trigger] &self.middlewares@[i]));
        }
    }

    /// Resolves a request path and method against the tree: the matched
    /// endpoint and the parameter bindings collected along the way, or `None`
    /// when no route matches.
    pub fn route_handler(&self, path_array: &Vec<String>, method: &HttpMethod) -> (r: Option<
        (&Endpoint<C>, StringMap),
    >)
        ensures
            match r {
                Some(found) => found.1.wf() && spec_lookup(
                    *self,
                    path_array.deep_view(),
                    *method,
                ) == Some((*found.0, found.1@)),
                None => spec_lookup(*self, path_array.deep_view(), *method) is None,
            },
    {
        proof {
            assert(path_array.deep_view().skip(0) =~= path_array.deep_view());
        }
        handle_routes(&self.root, path_array, 0, method, StringMap::new())
    }
}

} // verus!

verus! {

/// When inserting an endpoint along a pattern fails: a `DuplicateRoute` when
/// the final node already answers the method, and a
/// `ConflictingParameterName` when a parameter segment meets a parameter
/// child registered under another name.
pub open spec fn insert_error<C>(
    n: RouteNode<C>,
    pts: Seq<PathTypeView>,
    method: HttpMethod,
) -> Option<RouteError>
    decreases pts.len(),
{
    if pts.len() == 0 {
        if find_endpoint(n.endpoints@, method) is Some {
            Some(RouteError::DuplicateRoute)
        } else {
            None
        }
    } else {
        match pts[0] {
            PathTypeView::Subdirectory(name) => match find_child(n.children@, name) {
                Some(c) => insert_error(n.children@[c].1, pts.drop_first(), method),
                None => None,
            },
            PathTypeView::Parameter(name) => match n.param_child {
                Some(pc) => if pc.0@ == name {
                    insert_error(pc.1, pts.drop_first(), method)
                } else {
                    Some(RouteError::ConflictingParameterName)
                },
                None => None,
            },
        }
    }
}

/// A freshly created chain of nodes for the remaining pattern, ending in a
/// node holding exactly the inserted endpoint.
pub open spec fn fresh_chain<C>(pts: Seq<PathTypeView>, ep: Endpoint<C>, n: RouteNode<C>) -> bool
    decreases pts.len(),
{
    if pts.len() == 0 {
        &&& n.endpoints@ == seq![ep]
        &&& n.children@.len() == 0
        &&& n.param_child is None
    } else {
        match pts[0] {
            PathTypeView::Subdirectory(name) => {
                &&& n.endpoints@.len() == 0
                &&& n.param_child is None
                &&& n.children@.len() == 1
                &&& n.children@[0].0@ == name
                &&& fresh_chain(pts.drop_first(), ep, n.children@[0].1)
            },
            PathTypeView::Parameter(name) => {
                &&& n.endpoints@.len() == 0
                &&& n.children@.len() == 0
                &&& (n.param_child matches Some(pc) && pc.0@ == name && fresh_chain(
                    pts.drop_first(),
                    ep,
                    pc.1,
                ))
            },
        }
    }
}

/// How a tree changes when an endpoint is inserted along a pattern: exactly
/// the nodes on the pattern path change, one slot each; missing nodes are
/// created as a fresh chain; at the end the endpoint joins that node's
/// endpoints.
pub open spec fn inserted<C>(
    n: RouteNode<C>,
    pts: Seq<PathTypeView>,
    ep: Endpoint<C>,
    n2: RouteNode<C>,
) -> bool
    decreases pts.len(),
{
    if pts.len() == 0 {
        &&& find_endpoint(n.endpoints@, ep.method) is None
        &&& n2.endpoints@ == n.endpoints@.push(ep)
        &&& n2.children@ == n.children@
        &&& n2.param_child == n.param_child
    } else {
        match pts[0] {
            PathTypeView::Subdirectory(name) => {
                &&& n2.endpoints@ == n.endpoints@
                &&& n2.param_child == n.param_child
                &&& match find_child(n.children@, name) {
                    Some(c) => {
                        &&& n2.children@.len() == n.children@.len()
                        &&& (forall|j: int|
                            0 <= j < n.children@.len() && j != c ==> n2.children@[j]
                                == n.children@[j])
                        &&& n2.children@[c].0 == n.children@[c].0
                        &&& inserted(n.children@[c].1, pts.drop_first(), ep, n2.children@[c].1)
                    },
                    None => {
                        &&& n2.children@.len() == n.children@.len() + 1
                        &&& (forall|j: int|
                            0 <= j < n.children@.len() ==> n2.children@[j] == n.children@[j])
                        &&& n2.children@.last().0@ == name
                        &&& fresh_chain(pts.drop_first(), ep, n2.children@.last().1)
                    },
                }
            },
            PathTypeView::Parameter(name) => {
                &&& n2.endpoints@ == n.endpoints@
                &&& n2.children@ == n.children@
                &&& match n.param_child {
                    Some(pc) => {
                        &&& pc.0@ == name
                        &&& (n2.param_child matches Some(pc2) && pc2.0 == pc.0 && inserted(
                            pc.1,
                            pts.drop_first(),
                            ep,
                            pc2.1,
                        ))
                    },
                    None => n2.param_child matches Some(pc2) && pc2.0@ == name && fresh_chain(
                        pts.drop_first(),
                        ep,
                        pc2.1,
                    ),
                }
            },
        }
    }
}

/// Checks whether inserting would fail, without changing anything.
fn check_insert<C>(node: &RouteNode<C>, pts: &Vec<PathType>, i: usize, method: &HttpMethod) -> (r:
    Option<RouteError>)
    requires
        i <= pts@.len(),
    ensures
        r == insert_error(*node, pts_view(pts@).skip(i as int), *method),
    decreases pts@.len() - i,
{
    let ghost rest = pts_view(pts@).skip(i as int);
    if i == pts.len() {
        proof {
            assert(rest =~= Seq::<PathTypeView>::empty());
        }
        match find_endpoint_idx(&node.endpoints, method) {
            Some(_) => Some(RouteError::DuplicateRoute),
            None => None,
        }
    } else {
        proof {
            assert(rest[0] == pts@[i as int]@);
            assert(rest.drop_first() =~= pts_view(pts@).skip(i + 1));
        }
        match &pts[i] {
            PathType::Subdirectory(name) => {
                match find_child_idx(&node.children, name.as_str()) {
                    Some(c) => check_insert(&node.children[c].1, pts, i + 1, method),
                    None => None,
                }
            },
            PathType::Parameter(name) => {
                match &node.param_child {
                    Some(pc) => {
                        if str_eq(pc.0.as_str(), name.as_str()) {
                            check_insert(&pc.1, pts, i + 1, method)
                        } else {
                            Some(RouteError::ConflictingParameterName)
                        }
                    },
                    None => None,
                }
            },
        }
    }
}

/// Builds the fresh chain of nodes for the rest of a pattern, ending in the
/// endpoint.
fn build_fresh<C>(pts: &Vec<PathType>, i: usize, endpoint: Endpoint<C>) -> (r: RouteNode<C>)
    requires
        i <= pts@.len(),
        mws_wf(endpoint.middlewares@),
    ensures
        fresh_chain(pts_view(pts@).skip(i as int), endpoint, r),
        node_wf(r),
    decreases pts@.len() - i,
{
    let ghost rest = pts_view(pts@).skip(i as int);
    if i == pts.len() {
        proof {
            assert(rest =~= Seq::<PathTypeView>::empty());
        }
        let mut eps: Vec<Endpoint<C>> = Vec::new();
        eps.push(endpoint);
        let r = RouteNode { endpoints: eps, children: Vec::new(), param_child: None };
        proof {
            assert(r.endpoints@ =~= seq![endpoint]);
        }
        r
    } else {
        proof {
            assert(rest[0] == pts@[i as int]@);
            assert(rest.drop_first() =~= pts_view(pts@).skip(i + 1));
        }
        match &pts[i] {
            PathType::Subdirectory(name) => {
                let key = name.clone();
                let child = build_fresh(pts, i + 1, endpoint);
                let mut children: Vec<(String, RouteNode<C>)> = Vec::new();
                children.push((key, child));
                RouteNode { endpoints: Vec::new(), children, param_child: None }
            },
            PathType::Parameter(name) => {
                let key = name.clone();
                let child = build_fresh(pts, i + 1, endpoint);
                RouteNode {
                    endpoints: Vec::new(),
                    children: Vec::new(),
                    param_child: Some(Box::new((key, child))),
                }
            },
        }
    }
}

/// Inserts an endpoint along a pattern known to be insertable.
fn add_endpoint_at<C>(node: &mut RouteNode<C>, pts: &Vec<PathType>, i: usize, endpoint: Endpoint<
    C,
>)
    requires
        node_wf(*old(node)),
        i <= pts@.len(),
        mws_wf(endpoint.middlewares@),
        insert_error(*old(node), pts_view(pts@).skip(i as int), endpoint.method) is None,
    ensures
        node_wf(*final(node)),
        inserted(*old(node), pts_view(pts@).skip(i as int), endpoint, *final(node)),
    decreases pts@.len() - i,
{
    let ghost rest = pts_view(pts@).skip(i as int);
    if i == pts.len() {
        proof {
            assert(rest =~= Seq::<PathTypeView>::empty());
            lemma_find_endpoint_props(node.endpoints@, endpoint.method);
        }
        node.endpoints.push(endpoint);
        proof {
            assert forall|a: int, b: int|
                0 <= a < b < node.endpoints@.len() implies (#[trigger] node.endpoints@[a]).method
                != (#[trigger] node.endpoints@[b]).method by {
                if b == node.endpoints@.len() - 1 {
                    assert(old(node).endpoints@[a].method != endpoint.method);
                }
            }
        }
    } else {
        proof {
            assert(rest[0] == pts@[i as int]@);
            assert(rest.drop_first() =~= pts_view(pts@).skip(i + 1));
        }
        match &pts[i] {
            PathType::Subdirectory(name) => {
                match find_child_idx(&node.children, name.as_str()) {
                    Some(c) => {
                        let ghost old_children = node.children@;
                        let child = &mut node.children[c];
                        add_endpoint_at(&mut child.1, pts, i + 1, endpoint);
                        proof {
                            assert(node.children@ =~= old_children.update(
                                c as int,
                                node.children@[c as int],
                            ));
                            assert(node.children@[c as int].0 == old_children[c as int].0);
                        }
                    },
                    None => {
                        let key = name.clone();
                        let fresh = build_fresh(pts, i + 1, endpoint);
                        let ghost old_children = node.children@;
                        node.children.push((key, fresh));
                        proof {
                            lemma_find_child_props(old_children, name@);
                            assert forall|a: int, b: int|
                                0 <= a < b < node.children@.len() implies (
                            #[trigger] node.children@[a]).0@ != (
                            #[trigger] node.children@[b]).0@ by {
                                if b == node.children@.len() - 1 {
                                    assert(old_children[a].0@ != name@);
                                }
                            }
                        }
                    },
                }
            },
            PathType::Parameter(name) => {
                match &mut node.param_child {
                    Some(pc) => {
                        add_endpoint_at(&mut pc.1, pts, i + 1, endpoint);
                    },
                    None => {
                        let key = name.clone();
                        let fresh = build_fresh(pts, i + 1, endpoint);
                        node.param_child = Some(Box::new((key, fresh)));
                    },
                }
            },
        }
    }
}

impl<C> Router<C> {
    /// Adds an endpoint to the router under a path pattern; the path is
    /// trimmed and split into segments first. Exactly the registration
    /// mistakes of the error type are rejected: an invalid literal segment, a
    /// duplicate (method, path) registration, and a parameter name clashing
    /// with an earlier one at the same depth.
    pub fn use_endpoint(&mut self, path: &str, endpoint: Endpoint<C>) -> (r: Result<
        (),
        RouteError,
    >)
        requires
            router_wf(*old(self)),
            mws_wf(endpoint.middlewares@),
        ensures
            router_wf(*final(self)),
            final(self).middlewares == old(self).middlewares,
            match spec_path_types(crate::strutil::spec_trim(path@)) {
                None => (r matches Err(e) && e matches RouteError::InvalidPath(_))
                    && final(self).root == old(self).root,
                Some(pts) => match insert_error(old(self).root, pts, endpoint.method) {
                    Some(e2) => r == Err::<(), RouteError>(e2)
                        && final(self).root == old(self).root,
                    None => r is Ok && inserted(old(self).root, pts, endpoint, final(self).root),
                },
            },
    {
        let trimmed = crate::strutil::trim_str(path);
        let pts = match get_path_types(trimmed.as_str()) {
            Ok(v) => v,
            Err(e) => {
                return Err(RouteError::InvalidPath(e));
            },
        };
        proof {
            assert(pts_view(pts@).skip(0) =~= pts_view(pts@));
        }
        match check_insert(&self.root, &pts, 0, &endpoint.method) {
            Some(e) => Err(e),
            None => {
                add_endpoint_at(&mut self.root, &pts, 0, endpoint);
                Ok(())
            },
        }
    }
}

} // verus!

verus! {

/// Two trees have the same routes: the same children keys, the same
/// parameter names, and endpoint for endpoint the same method and controller.
/// Only middleware state inside endpoints may differ; this is what one
/// dispatch may change.
pub open spec fn same_shape<C>(a: RouteNode<C>, b: RouteNode<C>) -> bool
    decreases a,
{
    &&& b.endpoints@.len() == a.endpoints@.len()
    &&& (forall|e: int|
        0 <= e < a.endpoints@.len() ==> (#[trigger] b.endpoints@[e]).method
            == a.endpoints@[e].method && b.endpoints@[e].controller == a.endpoints@[e].controller)
    &&& b.children@.len() == a.children@.len()
    &&& (forall|i: int|
        0 <= i < a.children@.len() ==> (#[trigger] b.children@[i]).0 == a.children@[i].0
            && same_shape(a.children@[i].1, b.children@[i].1))
    &&& match a.param_child {
        Some(pa) => b.param_child matches Some(pb) && pb.0 == pa.0 && same_shape(pa.1, pb.1),
        None => b.param_child is None,
    }
}

/// Every tree has its own shape.
pub proof fn lemma_same_shape_refl<C>(n: RouteNode<C>)
    ensures
        same_shape(n, n),
    decreases n,
{
    assert forall|i: int| 0 <= i < n.children@.len() implies (#[trigger] n.children@[i]).0
        == n.children@[i].0 && same_shape(n.children@[i].1, n.children@[i].1) by {
        lemma_same_shape_refl(n.children@[i].1);
    }
    match n.param_child {
        Some(pa) => {
            lemma_same_shape_refl(pa.1);
        },
        None => {},
    }
}

/// How one dispatch ends, before the server decides what to answer.
pub enum DispatchOutcome {
    /// No route matched the path and method.
    Unmatched,
    /// An endpoint middleware ended the chain before the controller.
    Ended,
    /// The controller ran.
    Completed,
}

/// Walks the tree mutably, running the endpoint tier and the controller at
/// the matched endpoint. The response afterwards is pinned in every branch:
/// exactly by the chain when it ends, and by the controller's own `spec_call`
/// of the bound request when the controller ran.
fn dispatch_at<C: Controller>(
    node: &mut RouteNode<C>,
    request: &Request,
    i: usize,
    params: StringMap,
    response: &mut Response,
    now_ms: u64,
) -> (r: DispatchOutcome)
    requires
        node_wf(*old(node)),
        request.wf(),
        old(response).wf(),
        params.wf(),
        i <= request@.path_array.len(),
    ensures
        node_wf(*final(node)),
        same_shape(*old(node), *final(node)),
        final(response).wf(),
        match lookup_node(*old(node), request@.path_array.skip(i as int), request@.method, params@) {
            None => r is Unmatched && final(response)@ == old(response)@,
            Some(m) => {
                let ec = chain_spec(
                    crate::middleware::mws_view(m.0.middlewares@),
                    request@,
                    old(response)@,
                    now_ms,
                );
                if ec.2 is End {
                    r is Ended && final(response)@ == ec.1
                } else {
                    r is Completed && m.0.controller.spec_call(
                        crate::request::RequestView { params: m.1, ..request@ },
                        ec.1,
                        final(response)@,
                    )
                }
            },
        },
    decreases request@.path_array.len() - i,
{
    let ghost segs = request@.path_array.skip(i as int);
    let path_array = request.get_path_array();
    if i == path_array.len() {
        proof {
            assert(segs =~= Seq::<Seq<char>>::empty());
        }
        match find_endpoint_idx(&node.endpoints, request.get_method()) {
            None => {
                proof {
                    lemma_same_shape_refl(*node);
                }
                DispatchOutcome::Unmatched
            },
            Some(e) => {
                let ghost old_node = *node;
                let ep = &mut node.endpoints[e];
                let hr = crate::middleware::run_chain(&mut ep.middlewares, request, response, now_ms);
                let outcome = if matches!(hr, HandlerResult::End) {
                    DispatchOutcome::Ended
                } else {
                    let mut bound = request.clone();
                    bound.add_param(params);
                    ep.controller.call(&bound, response);
                    DispatchOutcome::Completed
                };
                proof {
                    assert(node.endpoints@ =~= old_node.endpoints@.update(
                        e as int,
                        node.endpoints@[e as int],
                    ));
                    assert(node.endpoints@[e as int].method == old_node.endpoints@[e as int].method);
                    assert(node.endpoints@[e as int].controller == old_node.endpoints@[
                        e as int].controller);
                    lemma_same_shape_refl(*node);
                    assert(same_shape(old_node, *node)) by {
                        assert(forall|j: int|
                            0 <= j < node.children@.len() ==> (#[trigger] node.children@[j])
                                == old_node.children@[j]);
                        assert forall|j: int|
                            0 <= j < old_node.children@.len() implies (
                        #[trigger] node.children@[j]).0 == old_node.children@[j].0 && same_shape(
                            old_node.children@[j].1,
                            node.children@[j].1,
                        ) by {
                            lemma_same_shape_refl(old_node.children@[j].1);
                        }
                        match old_node.param_child {
                            Some(pa) => {
                                lemma_same_shape_refl(pa.1);
                            },
                            None => {},
                        }
                    }
                }
                outcome
            },
        }
    } else {
        proof {
            assert(segs[0] == request@.path_array[i as int]);
            assert(path_array.deep_view() == request@.path_array);
            assert(request@.path_array[i as int] == path_array@[i as int]@);
            assert(segs.drop_first() =~= request@.path_array.skip(i + 1));
        }
        let seg = strip_query_str(path_array[i].as_str());
        if seg.as_str().unicode_len() == 0 {
            dispatch_at(node, request, i + 1, params, response, now_ms)
        } else {
            match find_child_idx(&node.children, seg.as_str()) {
                Some(c) => {
                    let ghost old_node = *node;
                    let child = &mut node.children[c];
                    let outcome = dispatch_at(&mut child.1, request, i + 1, params, response, now_ms);
                    proof {
                        assert(node.children@ =~= old_node.children@.update(
                            c as int,
                            node.children@[c as int],
                        ));
                        assert(node.children@[c as int].0 == old_node.children@[c as int].0);
                        assert(same_shape(old_node, *node)) by {
                            assert forall|j: int|
                                0 <= j < old_node.children@.len() implies (
                            #[trigger] node.children@[j]).0 == old_node.children@[j].0
                                && same_shape(old_node.children@[j].1, node.children@[j].1) by {
                                if j != c {
                                    lemma_same_shape_refl(old_node.children@[j].1);
                                }
                            }
                            match old_node.param_child {
                                Some(pa) => {
                                    lemma_same_shape_refl(pa.1);
                                },
                                None => {},
                            }
                            assert forall|e: int|
                                0 <= e < old_node.endpoints@.len() implies (
                            #[trigger] node.endpoints@[e]).method == old_node.endpoints@[e].method
                                && node.endpoints@[e].controller == old_node.endpoints@[
                            e].controller by {}
                        }
                    }
                    outcome
                },
                None => {
                    let ghost old_node = *node;
                    match &mut node.param_child {
                        Some(pc) => {
                            let mut params2 = params;
                            params2.insert(pc.0.as_str(), seg.as_str());
                            let outcome = dispatch_at(&mut pc.1, request, i + 1, params2, response, now_ms);
                            proof {
                                assert(same_shape(old_node, *node)) by {
                                    assert forall|j: int|
                                        0 <= j < old_node.children@.len() implies (
                                    #[trigger] node.children@[j]).0 == old_node.children@[j].0
                                        && same_shape(
                                        old_node.children@[j].1,
                                        node.children@[j].1,
                                    ) by {
                                        lemma_same_shape_refl(old_node.children@[j].1);
                                    }
                                }
                            }
                            outcome
                        },
                        None => {
                            proof {
                                lemma_same_shape_refl(*node);
                            }
                            DispatchOutcome::Unmatched
                        },
                    }
                },
            }
        }
    }
}

/// What one router dispatch does, at one instant: the router tier runs first
/// and may end the chain, leaving the route tree untouched; an unmatched path
/// makes the response Not Found, again leaving the tree untouched, but lets
/// later handlers answer; a match runs the endpoint tier and then the
/// controller, which receives the request with the lookup's bindings merged
/// in and answers for the final response by its own `spec_call`.
pub open spec fn handle_rel<C: Controller>(
    r1: Router<C>,
    r2: Router<C>,
    req: crate::request::RequestView,
    res1: crate::response::ResponseView,
    res2: crate::response::ResponseView,
    hr: HandlerResult,
    now: u64,
) -> bool {
    let rc = chain_spec(crate::middleware::mws_view(r1.middlewares@), req, res1, now);
    &&& crate::middleware::mws_view(r2.middlewares@) == rc.0
    &&& if rc.2 is End {
        res2 == rc.1 && hr is End && r2.root == r1.root
    } else {
        match spec_lookup(r1, req.path_array, req.method) {
            None => res2 == (crate::response::ResponseView {
                status_code: crate::response::status_code::StatusCode::NotFound,
                ..rc.1
            }) && hr is Next && r2.root == r1.root,
            Some(m) => {
                let ec = chain_spec(
                    crate::middleware::mws_view(m.0.middlewares@),
                    req,
                    rc.1,
                    now,
                );
                if ec.2 is End {
                    res2 == ec.1 && hr is End
                } else {
                    hr is Next && m.0.controller.spec_call(
                        crate::request::RequestView { params: m.1, ..req },
                        ec.1,
                        res2,
                    )
                }
            },
        }
    }
}

impl<C: Controller> Router<C> {
    /// Dispatches one request: the router-scoped middleware tier, then the
    /// trie lookup, then the endpoint tier and the controller; any tier
    /// returning `End` stops the chain, and an unmatched path sets status Not
    /// Found but leaves later handlers a chance.
    pub fn handle(&mut self, request: &Request, response: &mut Response) -> (r: HandlerResult)
        requires
            router_wf(*old(self)),
            request.wf(),
            old(response).wf(),
        ensures
            router_wf(*final(self)),
            final(response).wf(),
            same_shape(old(self).root, final(self).root),
            exists|now: u64|
                #[trigger] handle_rel(
                    *old(self),
                    *final(self),
                    request@,
                    old(response)@,
                    final(response)@,
                    r,
                    now,
                ),
    {
        let now = crate::middleware::now_millis();
        let hr = crate::middleware::run_chain(&mut self.middlewares, request, response, now);
        if matches!(hr, HandlerResult::End) {
            proof {
                lemma_same_shape_refl(self.root);
                assert(handle_rel(
                    *old(self),
                    *self,
                    request@,
                    old(response)@,
                    response@,
                    HandlerResult::End,
                    now,
                ));
            }
            return HandlerResult::End;
        }
        let ghost mid_res = response@;
        proof {
            assert(request@.path_array.skip(0) =~= request@.path_array);
        }
        let matched = {
            match self.route_handler(request.get_path_array(), request.get_method()) {
                Some(_) => true,
                None => false,
            }
        };
        if !matched {
            response.status(crate::response::status_code::StatusCode::NotFound);
            proof {
                lemma_same_shape_refl(self.root);
                assert(handle_rel(
                    *old(self),
                    *self,
                    request@,
                    old(response)@,
                    response@,
                    HandlerResult::Next,
                    now,
                ));
            }
            return HandlerResult::Next;
        }
        let outcome = dispatch_at(&mut self.root, request, 0, StringMap::new(), response, now);
        match outcome {
            DispatchOutcome::Unmatched => {
                response.status(crate::response::status_code::StatusCode::NotFound);
                proof {
                    assert(handle_rel(
                        *old(self),
                        *self,
                        request@,
                        old(response)@,
                        response@,
                        HandlerResult::Next,
                        now,
                    ));
                }
                HandlerResult::Next
            },
            DispatchOutcome::Ended => {
                proof {
                    assert(handle_rel(
                        *old(self),
                        *self,
                        request@,
                        old(response)@,
                        response@,
                        HandlerResult::End,
                        now,
                    ));
                }
                HandlerResult::End
            },
            DispatchOutcome::Completed => {
                proof {
                    assert(handle_rel(
                        *old(self),
                        *self,
                        request@,
                        old(response)@,
                        response@,
                        HandlerResult::Next,
                        now,
                    ));
                }
                HandlerResult::Next
            },
        }
    }
}

} // verus!

verus! {

/// When mounting a sub-router along a pattern fails: an empty pattern or an
/// already-occupied final slot is a duplicate route, and a parameter segment
/// meeting a parameter child of another name is a conflict.
pub open spec fn mount_error<C>(n: RouteNode<C>, pts: Seq<PathTypeView>) -> Option<RouteError>
    decreases pts.len(),
{
    if pts.len() == 0 {
        Some(RouteError::DuplicateRoute)
    } else {
        match pts[0] {
            PathTypeView::Subdirectory(name) => match find_child(n.children@, name) {
                Some(c) => if pts.len() == 1 {
                    Some(RouteError::DuplicateRoute)
                } else {
                    mount_error(n.children@[c].1, pts.drop_first())
                },
                None => None,
            },
            PathTypeView::Parameter(name) => match n.param_child {
                Some(pc) => if pc.0@ != name {
                    Some(RouteError::ConflictingParameterName)
                } else if pts.len() == 1 {
                    Some(RouteError::DuplicateRoute)
                } else {
                    mount_error(pc.1, pts.drop_first())
                },
                None => None,
            },
        }
    }
}

/// A freshly created chain of nodes for the remaining pattern, ending in the
/// mounted sub-tree.
pub open spec fn fresh_mount_chain<C>(
    pts: Seq<PathTypeView>,
    sub: RouteNode<C>,
    n: RouteNode<C>,
) -> bool
    decreases pts.len(),
{
    if pts.len() == 0 {
        n == sub
    } else {
        match pts[0] {
            PathTypeView::Subdirectory(name) => {
                &&& n.endpoints@.len() == 0
                &&& n.param_child is None
                &&& n.children@.len() == 1
                &&& n.children@[0].0@ == name
                &&& fresh_mount_chain(pts.drop_first(), sub, n.children@[0].1)
            },
            PathTypeView::Parameter(name) => {
                &&& n.endpoints@.len() == 0
                &&& n.children@.len() == 0
                &&& (n.param_child matches Some(pc) && pc.0@ == name && fresh_mount_chain(
                    pts.drop_first(),
                    sub,
                    pc.1,
                ))
            },
        }
    }
}

/// How a tree changes when a sub-tree is mounted along a pattern: the pattern
/// path is walked, missing nodes are created, and the final (previously
/// empty) slot holds the sub-tree.
pub open spec fn mounted<C>(
    n: RouteNode<C>,
    pts: Seq<PathTypeView>,
    sub: RouteNode<C>,
    n2: RouteNode<C>,
) -> bool
    decreases pts.len(),
{
    if pts.len() == 0 {
        false
    } else {
        match pts[0] {
            PathTypeView::Subdirectory(name) => {
                &&& n2.endpoints@ == n.endpoints@
                &&& n2.param_child == n.param_child
                &&& match find_child(n.children@, name) {
                    Some(c) => {
                        &&& pts.len() > 1
                        &&& n2.children@.len() == n.children@.len()
                        &&& (forall|j: int|
                            0 <= j < n.children@.len() && j != c ==> n2.children@[j]
                                == n.children@[j])
                        &&& n2.children@[c].0 == n.children@[c].0
                        &&& mounted(n.children@[c].1, pts.drop_first(), sub, n2.children@[c].1)
                    },
                    None => {
                        &&& n2.children@.len() == n.children@.len() + 1
                        &&& (forall|j: int|
                            0 <= j < n.children@.len() ==> n2.children@[j] == n.children@[j])
                        &&& n2.children@.last().0@ == name
                        &&& fresh_mount_chain(pts.drop_first(), sub, n2.children@.last().1)
                    },
                }
            },
            PathTypeView::Parameter(name) => {
                &&& n2.endpoints@ == n.endpoints@
                &&& n2.children@ == n.children@
                &&& match n.param_child {
                    Some(pc) => {
                        &&& pc.0@ == name
                        &&& pts.len() > 1
                        &&& (n2.param_child matches Some(pc2) && pc2.0 == pc.0 && mounted(
                            pc.1,
                            pts.drop_first(),
                            sub,
                            pc2.1,
                        ))
                    },
                    None => n2.param_child matches Some(pc2) && pc2.0@ == name
                        && fresh_mount_chain(pts.drop_first(), sub, pc2.1),
                }
            },
        }
    }
}

/// Checks whether mounting would fail, without changing anything.
fn check_mount<C>(node: &RouteNode<C>, pts: &Vec<PathType>, i: usize) -> (r: Option<RouteError>)
    requires
        i <= pts@.len(),
    ensures
        r == mount_error(*node, pts_view(pts@).skip(i as int)),
    decreases pts@.len() - i,
{
    let ghost rest = pts_view(pts@).skip(i as int);
    if i == pts.len() {
        proof {
            assert(rest =~= Seq::<PathTypeView>::empty());
        }
        Some(RouteError::DuplicateRoute)
    } else {
        proof {
            assert(rest[0] == pts@[i as int]@);
            assert(rest.drop_first() =~= pts_view(pts@).skip(i + 1));
        }
        match &pts[i] {
            PathType::Subdirectory(name) => {
                match find_child_idx(&node.children, name.as_str()) {
                    Some(c) => {
                        if i + 1 == pts.len() {
                            Some(RouteError::DuplicateRoute)
                        } else {
                            check_mount(&node.children[c].1, pts, i + 1)
                        }
                    },
                    None => None,
                }
            },
            PathType::Parameter(name) => {
                match &node.param_child {
                    Some(pc) => {
                        if !str_eq(pc.0.as_str(), name.as_str()) {
                            Some(RouteError::ConflictingParameterName)
                        } else if i + 1 == pts.len() {
                            Some(RouteError::DuplicateRoute)
                        } else {
                            check_mount(&pc.1, pts, i + 1)
                        }
                    },
                    None => None,
                }
            },
        }
    }
}

/// Builds the fresh chain of nodes for the rest of a pattern, ending in the
/// mounted sub-tree.
fn build_fresh_mount<C>(pts: &Vec<PathType>, i: usize, sub: RouteNode<C>) -> (r: RouteNode<C>)
    requires
        i <= pts@.len(),
        node_wf(sub),
    ensures
        fresh_mount_chain(pts_view(pts@).skip(i as int), sub, r),
        node_wf(r),
    decreases pts@.len() - i,
{
    let ghost rest = pts_view(pts@).skip(i as int);
    if i == pts.len() {
        proof {
            assert(rest =~= Seq::<PathTypeView>::empty());
        }
        sub
    } else {
        proof {
            assert(rest[0] == pts@[i as int]@);
            assert(rest.drop_first() =~= pts_view(pts@).skip(i + 1));
        }
        match &pts[i] {
            PathType::Subdirectory(name) => {
                let key = name.clone();
                let child = build_fresh_mount(pts, i + 1, sub);
                let mut children: Vec<(String, RouteNode<C>)> = Vec::new();
                children.push((key, child));
                RouteNode { endpoints: Vec::new(), children, param_child: None }
            },
            PathType::Parameter(name) => {
                let key = name.clone();
                let child = build_fresh_mount(pts, i + 1, sub);
                RouteNode {
                    endpoints: Vec::new(),
                    children: Vec::new(),
                    param_child: Some(Box::new((key, child))),
                }
            },
        }
    }
}

/// Mounts a sub-tree along a pattern known to be mountable.
fn add_router_at<C>(node: &mut RouteNode<C>, pts: &Vec<PathType>, i: usize, sub: RouteNode<C>)
    requires
        node_wf(*old(node)),
        i < pts@.len(),
        node_wf(sub),
        mount_error(*old(node), pts_view(pts@).skip(i as int)) is None,
    ensures
        node_wf(*final(node)),
        mounted(*old(node), pts_view(pts@).skip(i as int), sub, *final(node)),
    decreases pts@.len() - i,
{
    let ghost rest = pts_view(pts@).skip(i as int);
    let n = pts.len();
    proof {
        assert(i < n);
        assert(rest[0] == pts@[i as int]@);
        assert(rest.drop_first() =~= pts_view(pts@).skip(i + 1));
    }
    match &pts[i] {
        PathType::Subdirectory(name) => {
            match find_child_idx(&node.children, name.as_str()) {
                Some(c) => {
                    let ghost old_children = node.children@;
                    let child = &mut node.children[c];
                    add_router_at(&mut child.1, pts, i + 1, sub);
                    proof {
                        assert(node.children@ =~= old_children.update(
                            c as int,
                            node.children@[c as int],
                        ));
                        assert(node.children@[c as int].0 == old_children[c as int].0);
                    }
                },
                None => {
                    let key = name.clone();
                    let fresh = build_fresh_mount(pts, i + 1, sub);
                    let ghost old_children = node.children@;
                    node.children.push((key, fresh));
                    proof {
                        lemma_find_child_props(old_children, name@);
                        assert forall|a: int, b: int|
                            0 <= a < b < node.children@.len() implies (
                        #[trigger] node.children@[a]).0@ != (#[trigger] node.children@[b]).0@ by {
                            if b == node.children@.len() - 1 {
                                assert(old_children[a].0@ != name@);
                            }
                        }
                    }
                },
            }
        },
        PathType::Parameter(name) => {
            match &mut node.param_child {
                Some(pc) => {
                    add_router_at(&mut pc.1, pts, i + 1, sub);
                },
                None => {
                    let key = name.clone();
                    let fresh = build_fresh_mount(pts, i + 1, sub);
                    node.param_child = Some(Box::new((key, fresh)));
                },
            }
        },
    }
}

impl<C> Router<C> {
    /// Mounts a sub-router under a path prefix; the sub-router's tree becomes
    /// the subtree at that prefix, which must be free. The sub-router's own
    /// router-scoped middleware is not carried over: middleware tiers belong
    /// to the router a request enters.
    pub fn use_router(&mut self, path: &str, router: Router<C>) -> (r: Result<(), RouteError>)
        requires
            router_wf(*old(self)),
            router_wf(router),
        ensures
            router_wf(*final(self)),
            final(self).middlewares == old(self).middlewares,
            match spec_path_types(crate::strutil::spec_trim(path@)) {
                None => (r matches Err(e) && e matches RouteError::InvalidPath(_))
                    && final(self).root == old(self).root,
                Some(pts) => match mount_error(old(self).root, pts) {
                    Some(e2) => r == Err::<(), RouteError>(e2)
                        && final(self).root == old(self).root,
                    None => r is Ok && mounted(old(self).root, pts, router.root, final(self).root),
                },
            },
    {
        let trimmed = crate::strutil::trim_str(path);
        let pts = match get_path_types(trimmed.as_str()) {
            Ok(v) => v,
            Err(e) => {
                return Err(RouteError::InvalidPath(e));
            },
        };
        proof {
            assert(pts_view(pts@).skip(0) =~= pts_view(pts@));
        }
        match check_mount(&self.root, &pts, 0) {
            Some(e) => Err(e),
            None => {
                proof {
                    assert(pts@.len() > 0);
                }
                add_router_at(&mut self.root, &pts, 0, router.root);
                Ok(())
            },
        }
    }
}

} // verus!
