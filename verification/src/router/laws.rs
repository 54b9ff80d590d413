//! The laws of the route tree: registration/lookup round-trip, the frame of
//! an insertion over other routes, literal precedence, and query isolation.

use vstd::prelude::*;

use crate::http_method::HttpMethod;
use crate::router::endpoint::Endpoint;
use crate::router::{
    find_child, find_endpoint, fresh_chain, inserted, is_valid_literal, lookup_node, strip_query,
    PathTypeView, RouteNode,
};
use crate::strutil::spec_find;

verus! {

/// Whether every segment of a pattern is a valid literal.
pub open spec fn all_literal(pts: Seq<PathTypeView>) -> bool {
    forall|i: int|
        0 <= i < pts.len() ==> ((#[trigger] pts[i]) matches PathTypeView::Subdirectory(name)
            && is_valid_literal(name))
}

/// The literal texts of a literal-only pattern.
pub open spec fn names(pts: Seq<PathTypeView>) -> Seq<Seq<char>> {
    pts.map_values(
        |p: PathTypeView|
            match p {
                PathTypeView::Subdirectory(n) => n,
                PathTypeView::Parameter(n) => n,
            },
    )
}

/// A tree without parameter children anywhere: what a sequence of
/// literal-only registrations builds.
pub open spec fn literal_only<C>(n: RouteNode<C>) -> bool
    decreases n,
{
    &&& n.param_child is None
    &&& forall|i: int| 0 <= i < n.children@.len() ==> literal_only((#[trigger] n.children@[i]).1)
}

/// The segments a lookup actually compares: each segment stripped of its
/// query suffix, with empty results dropped.
pub open spec fn effective_segs(segs: Seq<Seq<char>>) -> Seq<Seq<char>>
    decreases segs.len(),
{
    if segs.len() == 0 {
        Seq::empty()
    } else {
        let s = strip_query(segs[0]);
        if s.len() == 0 {
            effective_segs(segs.drop_first())
        } else {
            seq![s] + effective_segs(segs.drop_first())
        }
    }
}

proof fn lemma_spec_find_props(s: Seq<char>, c: char)
    ensures
        match spec_find(s, c) {
            Some(i) => 0 <= i < s.len() && s[i] == c && forall|j: int| 0 <= j < i ==> s[j] != c,
            None => forall|j: int| 0 <= j < s.len() ==> s[j] != c,
        },
    decreases s.len(),
{
    if s.len() > 0 && s[0] != c {
        lemma_spec_find_props(s.drop_first(), c);
        match spec_find(s.drop_first(), c) {
            Some(i) => {
                assert(s[i + 1] == s.drop_first()[i]);
                assert(forall|j: int| 1 <= j < i + 1 ==> s[j] == s.drop_first()[j - 1]);
            },
            None => {
                assert(forall|j: int| 1 <= j < s.len() ==> s[j] == s.drop_first()[j - 1]);
            },
        }
    }
}

/// A valid literal contains no question mark, so stripping the query suffix
/// leaves it whole, and it is never empty.
pub proof fn lemma_strip_valid_literal(name: Seq<char>)
    requires
        is_valid_literal(name),
    ensures
        strip_query(name) == name,
        name.len() > 0,
{
    lemma_spec_find_props(name, '?');
    match spec_find(name, '?') {
        Some(i) => {
            assert(crate::router::is_path_char(name[i]));
            assert(false);
        },
        None => {},
    }
}

/// Stripping a query suffix is idempotent: the stripped text has no question
/// mark left.
pub proof fn lemma_strip_idempotent(s: Seq<char>)
    ensures
        strip_query(strip_query(s)) == strip_query(s),
{
    lemma_spec_find_props(s, '?');
    match spec_find(s, '?') {
        Some(i) => {
            let t = s.take(i);
            lemma_spec_find_props(t, '?');
            match spec_find(t, '?') {
                Some(j) => {
                    assert(t[j] == s[j]);
                    assert(false);
                },
                None => {},
            }
        },
        None => {},
    }
}

proof fn lemma_find_endpoint_push<C>(eps: Seq<Endpoint<C>>, ep: Endpoint<C>, m: HttpMethod)
    requires
        find_endpoint(eps, m) is None,
    ensures
        find_endpoint(eps.push(ep), m) == (if ep.method == m {
            Some(eps.len() as int)
        } else {
            None::<int>
        }),
    decreases eps.len(),
{
    if eps.len() == 0 {
        assert(eps.push(ep)[0] == ep);
        assert(eps.push(ep).drop_first() =~= Seq::<Endpoint<C>>::empty());
        assert(find_endpoint(Seq::<Endpoint<C>>::empty(), m) is None);
    } else {
        assert(eps.push(ep)[0] == eps[0]);
        assert(eps.push(ep).drop_first() =~= eps.drop_first().push(ep));
        lemma_find_endpoint_push(eps.drop_first(), ep, m);
    }
}

proof fn lemma_find_child_push<C>(
    cs: Seq<(String, RouteNode<C>)>,
    pair: (String, RouteNode<C>),
    seg: Seq<char>,
)
    ensures
        find_child(cs.push(pair), seg) == (match find_child(cs, seg) {
            Some(i) => Some(i),
            None => if pair.0@ == seg {
                Some(cs.len() as int)
            } else {
                None::<int>
            },
        }),
    decreases cs.len(),
{
    if cs.len() == 0 {
        assert(cs.push(pair)[0] == pair);
        assert(cs.push(pair).drop_first() =~= Seq::<(String, RouteNode<C>)>::empty());
        assert(find_child(Seq::<(String, RouteNode<C>)>::empty(), seg) is None);
    } else {
        assert(cs.push(pair)[0] == cs[0]);
        assert(cs.push(pair).drop_first() =~= cs.drop_first().push(pair));
        lemma_find_child_push(cs.drop_first(), pair, seg);
    }
}

proof fn lemma_find_child_same_keys<C>(
    cs1: Seq<(String, RouteNode<C>)>,
    cs2: Seq<(String, RouteNode<C>)>,
    seg: Seq<char>,
)
    requires
        cs1.len() == cs2.len(),
        forall|j: int| 0 <= j < cs1.len() ==> (#[trigger] cs1[j]).0 == cs2[j].0,
    ensures
        find_child(cs1, seg) == find_child(cs2, seg),
    decreases cs1.len(),
{
    if cs1.len() > 0 {
        assert(cs1[0].0 == cs2[0].0);
        assert(forall|j: int|
            0 <= j < cs1.drop_first().len() ==> (#[trigger] cs1.drop_first()[j]).0
                == cs2.drop_first()[j].0 && cs1.drop_first()[j] == cs1[j + 1] && cs2.drop_first()[j]
                == cs2[j + 1]);
        lemma_find_child_same_keys(cs1.drop_first(), cs2.drop_first(), seg);
    }
}

/// Looking a freshly created literal chain up under its own names and method
/// finds exactly the endpoint it was created for, with the bindings
/// untouched.
proof fn lemma_fresh_lookup<C>(
    pts: Seq<PathTypeView>,
    ep: Endpoint<C>,
    n: RouteNode<C>,
    b: Map<Seq<char>, Seq<char>>,
)
    requires
        fresh_chain(pts, ep, n),
        all_literal(pts),
    ensures
        lookup_node(n, names(pts), ep.method, b) == Some((ep, b)),
    decreases pts.len(),
{
    if pts.len() == 0 {
        assert(names(pts) =~= Seq::<Seq<char>>::empty());
        assert(n.endpoints@[0] == ep);
    } else {
        let name = names(pts)[0];
        assert(pts[0] matches PathTypeView::Subdirectory(nm) && nm == name && is_valid_literal(
            name,
        ));
        lemma_strip_valid_literal(name);
        assert(names(pts).drop_first() =~= names(pts.drop_first()));
        assert(pts.drop_first().len() == pts.len() - 1);
        assert(all_literal(pts.drop_first())) by {
            assert(forall|i: int|
                0 <= i < pts.drop_first().len() ==> (#[trigger] pts.drop_first()[i]) == pts[i + 1]);
        }
        assert(find_child(n.children@, name) == Some(0int)) by {
            assert(n.children@[0].0@ == name);
        }
        lemma_fresh_lookup(pts.drop_first(), ep, n.children@[0].1, b);
    }
}

/// Registration/lookup round-trip: after an endpoint is inserted under a
/// literal-only pattern, looking the same literal path up with the endpoint's
/// method yields exactly that endpoint, and adds no bindings.
pub proof fn lemma_insert_lookup<C>(
    n: RouteNode<C>,
    pts: Seq<PathTypeView>,
    ep: Endpoint<C>,
    n2: RouteNode<C>,
    b: Map<Seq<char>, Seq<char>>,
)
    requires
        inserted(n, pts, ep, n2),
        all_literal(pts),
    ensures
        lookup_node(n2, names(pts), ep.method, b) == Some((ep, b)),
    decreases pts.len(),
{
    if pts.len() == 0 {
        assert(names(pts) =~= Seq::<Seq<char>>::empty());
        lemma_find_endpoint_push(n.endpoints@, ep, ep.method);
        assert(n2.endpoints@[n.endpoints@.len() as int] == ep);
    } else {
        let name = names(pts)[0];
        assert(pts[0] matches PathTypeView::Subdirectory(nm) && nm == name && is_valid_literal(
            name,
        ));
        lemma_strip_valid_literal(name);
        assert(names(pts).drop_first() =~= names(pts.drop_first()));
        assert(all_literal(pts.drop_first())) by {
            assert(forall|i: int|
                0 <= i < pts.drop_first().len() ==> (#[trigger] pts.drop_first()[i]) == pts[i + 1]);
        }
        match find_child(n.children@, name) {
            Some(c) => {
                crate::router::lemma_find_child_props(n.children@, name);
                lemma_find_child_same_keys(n2.children@, n.children@, name);
                lemma_insert_lookup(n.children@[c].1, pts.drop_first(), ep, n2.children@[c].1, b);
            },
            None => {
                let pair = n2.children@.last();
                assert(n2.children@ =~= n.children@.push(pair));
                lemma_find_child_push(n.children@, pair, name);
                assert(find_child(n2.children@, name) == Some(n.children@.len() as int));
                lemma_fresh_lookup(pts.drop_first(), ep, pair.1, b);
            },
        }
    }
}

/// A fresh literal chain answers nothing else: any lookup that differs in
/// method or path misses it.
proof fn lemma_fresh_lookup_miss<C>(
    pts: Seq<PathTypeView>,
    ep: Endpoint<C>,
    n: RouteNode<C>,
    segs: Seq<Seq<char>>,
    m2: HttpMethod,
    b: Map<Seq<char>, Seq<char>>,
)
    requires
        fresh_chain(pts, ep, n),
        all_literal(pts),
        !(m2 == ep.method && effective_segs(segs) == names(pts)),
    ensures
        lookup_node(n, segs, m2, b) is None,
    decreases segs.len(),
{
    if segs.len() == 0 {
        assert(effective_segs(segs) =~= Seq::<Seq<char>>::empty());
        if pts.len() == 0 {
            assert(names(pts) =~= Seq::<Seq<char>>::empty());
            assert(m2 != ep.method);
            assert(n.endpoints@ == seq![ep]);
            assert(n.endpoints@[0] == ep);
            assert(n.endpoints@.drop_first() =~= Seq::<Endpoint<C>>::empty());
            assert(find_endpoint(Seq::<Endpoint<C>>::empty(), m2) is None);
        } else {
            assert(names(pts).len() == pts.len());
            assert(n.endpoints@.len() == 0);
        }
    } else {
        let s0 = strip_query(segs[0]);
        if s0.len() == 0 {
            lemma_fresh_lookup_miss(pts, ep, n, segs.drop_first(), m2, b);
        } else {
            assert(effective_segs(segs) == seq![s0] + effective_segs(segs.drop_first()));
            if pts.len() == 0 {
                assert(n.children@.len() == 0);
                assert(find_child(n.children@, s0) is None);
            } else {
                let name = names(pts)[0];
                assert(pts[0] matches PathTypeView::Subdirectory(nm) && nm == name);
                assert(names(pts).drop_first() =~= names(pts.drop_first()));
                assert(all_literal(pts.drop_first())) by {
                    assert(forall|i: int|
                        0 <= i < pts.drop_first().len() ==> (#[trigger] pts.drop_first()[i])
                            == pts[i + 1]);
                }
                if s0 == name {
                    assert(find_child(n.children@, s0) == Some(0int)) by {
                        assert(n.children@[0].0@ == name);
                    }
                    assert((seq![s0] + effective_segs(segs.drop_first())).drop_first()
                        =~= effective_segs(segs.drop_first()));
                    assert((seq![name] + names(pts.drop_first())).drop_first() =~= names(
                        pts.drop_first(),
                    ));
                    assert(names(pts) =~= seq![name] + names(pts.drop_first()));
                    assert(!(m2 == ep.method && effective_segs(segs.drop_first()) == names(
                        pts.drop_first(),
                    ))) by {
                        if m2 == ep.method && effective_segs(segs.drop_first()) == names(
                            pts.drop_first(),
                        ) {
                            assert(effective_segs(segs) =~= names(pts));
                        }
                    }
                    lemma_fresh_lookup_miss(
                        pts.drop_first(),
                        ep,
                        n.children@[0].1,
                        segs.drop_first(),
                        m2,
                        b,
                    );
                } else {
                    assert(find_child(n.children@, s0) is None) by {
                        assert(n.children@[0].0@ == name);
                        assert(n.children@.drop_first() =~= Seq::<(String, RouteNode<C>)>::empty());
                        assert(find_child(Seq::<(String, RouteNode<C>)>::empty(), s0) is None);
                    }
                }
            }
        }
    }
}

/// A fresh literal chain has no parameter children.
proof fn lemma_fresh_literal_only<C>(pts: Seq<PathTypeView>, ep: Endpoint<C>, n: RouteNode<C>)
    requires
        fresh_chain(pts, ep, n),
        all_literal(pts),
    ensures
        literal_only(n),
    decreases pts.len(),
{
    if pts.len() == 0 {
    } else {
        assert(pts[0] matches PathTypeView::Subdirectory(_));
        assert(all_literal(pts.drop_first())) by {
            assert(forall|i: int|
                0 <= i < pts.drop_first().len() ==> (#[trigger] pts.drop_first()[i]) == pts[i + 1]);
        }
        lemma_fresh_literal_only(pts.drop_first(), ep, n.children@[0].1);
    }
}

/// Inserting under a literal-only pattern keeps a literal-only tree
/// literal-only, so the round-trip and frame laws compose over a whole
/// sequence of literal registrations.
pub proof fn lemma_insert_literal_only<C>(
    n: RouteNode<C>,
    pts: Seq<PathTypeView>,
    ep: Endpoint<C>,
    n2: RouteNode<C>,
)
    requires
        inserted(n, pts, ep, n2),
        all_literal(pts),
        literal_only(n),
    ensures
        literal_only(n2),
    decreases pts.len(),
{
    if pts.len() == 0 {
    } else {
        let name = names(pts)[0];
        assert(pts[0] matches PathTypeView::Subdirectory(nm) && nm == name);
        assert(all_literal(pts.drop_first())) by {
            assert(forall|i: int|
                0 <= i < pts.drop_first().len() ==> (#[trigger] pts.drop_first()[i]) == pts[i + 1]);
        }
        match find_child(n.children@, name) {
            Some(c) => {
                crate::router::lemma_find_child_props(n.children@, name);
                lemma_insert_literal_only(n.children@[c].1, pts.drop_first(), ep, n2.children@[c].1);
                assert forall|i: int| 0 <= i < n2.children@.len() implies literal_only(
                    (#[trigger] n2.children@[i]).1,
                ) by {
                    if i != c {
                        assert(n2.children@[i] == n.children@[i]);
                    }
                }
            },
            None => {
                lemma_fresh_literal_only(pts.drop_first(), ep, n2.children@.last().1);
                assert forall|i: int| 0 <= i < n2.children@.len() implies literal_only(
                    (#[trigger] n2.children@[i]).1,
                ) by {
                    if i < n.children@.len() {
                        assert(n2.children@[i] == n.children@[i]);
                    } else {
                        assert(n2.children@[i] == n2.children@.last());
                    }
                }
            },
        }
    }
}

/// The frame of an insertion: in a literal-only tree, inserting an endpoint
/// under a literal-only pattern leaves the lookup of every other (method,
/// path) pair exactly as it was.
pub proof fn lemma_insert_frame<C>(
    n: RouteNode<C>,
    pts: Seq<PathTypeView>,
    ep: Endpoint<C>,
    n2: RouteNode<C>,
    segs: Seq<Seq<char>>,
    m2: HttpMethod,
    b: Map<Seq<char>, Seq<char>>,
)
    requires
        inserted(n, pts, ep, n2),
        all_literal(pts),
        literal_only(n),
        !(m2 == ep.method && effective_segs(segs) == names(pts)),
    ensures
        lookup_node(n2, segs, m2, b) == lookup_node(n, segs, m2, b),
    decreases segs.len(),
{
    if segs.len() == 0 {
        assert(effective_segs(segs) =~= Seq::<Seq<char>>::empty());
        if pts.len() == 0 {
            assert(names(pts) =~= Seq::<Seq<char>>::empty());
            assert(m2 != ep.method);
            lemma_find_endpoint_push(n.endpoints@, ep, ep.method);
            lemma_find_endpoint_push_other(n.endpoints@, ep, m2);
            crate::router::lemma_find_endpoint_props(n.endpoints@, m2);
            match find_endpoint(n.endpoints@, m2) {
                Some(i) => {
                    assert(n2.endpoints@[i] == n.endpoints@[i]);
                },
                None => {},
            }
        } else {
            assert(names(pts).len() == pts.len());
        }
    } else {
        let s0 = strip_query(segs[0]);
        if s0.len() == 0 {
            lemma_insert_frame(n, pts, ep, n2, segs.drop_first(), m2, b);
        } else {
            assert(effective_segs(segs) == seq![s0] + effective_segs(segs.drop_first()));
            if pts.len() == 0 {
                match find_child(n.children@, s0) {
                    Some(c) => {},
                    None => {},
                }
            } else {
                let name = names(pts)[0];
                assert(pts[0] matches PathTypeView::Subdirectory(nm) && nm == name
                    && is_valid_literal(name));
                assert(names(pts).drop_first() =~= names(pts.drop_first()));
                assert(names(pts) =~= seq![name] + names(pts.drop_first()));
                assert(all_literal(pts.drop_first())) by {
                    assert(forall|i: int|
                        0 <= i < pts.drop_first().len() ==> (#[trigger] pts.drop_first()[i])
                            == pts[i + 1]);
                }
                match find_child(n.children@, name) {
                    Some(c) => {
                        crate::router::lemma_find_child_props(n.children@, name);
                        lemma_find_child_same_keys(n2.children@, n.children@, s0);
                        match find_child(n.children@, s0) {
                            Some(d) => {
                                crate::router::lemma_find_child_props(n.children@, s0);
                                if d == c {
                                    assert(s0 == name);
                                    assert(!(m2 == ep.method && effective_segs(segs.drop_first())
                                        == names(pts.drop_first()))) by {
                                        if m2 == ep.method && effective_segs(segs.drop_first())
                                            == names(pts.drop_first()) {
                                            assert(effective_segs(segs) =~= names(pts));
                                        }
                                    }
                                    lemma_insert_frame(
                                        n.children@[c].1,
                                        pts.drop_first(),
                                        ep,
                                        n2.children@[c].1,
                                        segs.drop_first(),
                                        m2,
                                        b,
                                    );
                                } else {
                                    assert(n2.children@[d] == n.children@[d]);
                                }
                            },
                            None => {},
                        }
                    },
                    None => {
                        let pair = n2.children@.last();
                        assert(n2.children@ =~= n.children@.push(pair));
                        lemma_find_child_push(n.children@, pair, s0);
                        match find_child(n.children@, s0) {
                            Some(d) => {
                                crate::router::lemma_find_child_props(n.children@, s0);
                                assert(n2.children@[d] == n.children@[d]);
                            },
                            None => {
                                if s0 == name {
                                    assert(find_child(n2.children@, s0) == Some(
                                        n.children@.len() as int,
                                    ));
                                    assert(!(m2 == ep.method && effective_segs(segs.drop_first())
                                        == names(pts.drop_first()))) by {
                                        if m2 == ep.method && effective_segs(segs.drop_first())
                                            == names(pts.drop_first()) {
                                            assert(effective_segs(segs) =~= names(pts));
                                        }
                                    }
                                    lemma_fresh_lookup_miss(
                                        pts.drop_first(),
                                        ep,
                                        pair.1,
                                        segs.drop_first(),
                                        m2,
                                        b,
                                    );
                                } else {
                                    assert(find_child(n2.children@, s0) is None);
                                }
                            },
                        }
                    },
                }
            }
        }
    }
}

proof fn lemma_find_endpoint_push_other<C>(eps: Seq<Endpoint<C>>, ep: Endpoint<C>, m: HttpMethod)
    requires
        ep.method != m,
    ensures
        find_endpoint(eps.push(ep), m) == find_endpoint(eps, m),
    decreases eps.len(),
{
    if eps.len() == 0 {
        assert(eps.push(ep)[0] == ep);
        assert(eps.push(ep).drop_first() =~= Seq::<Endpoint<C>>::empty());
        assert(find_endpoint(Seq::<Endpoint<C>>::empty(), m) is None);
    } else {
        assert(eps.push(ep)[0] == eps[0]);
        assert(eps.push(ep).drop_first() =~= eps.drop_first().push(ep));
        lemma_find_endpoint_push_other(eps.drop_first(), ep, m);
    }
}

/// A node with no endpoints, no children and no parameter child answers
/// nothing: every lookup misses. With the round-trip and frame laws this
/// pins the outcome of any sequence of literal registrations: exactly the
/// registered (method, path) pairs are found.
pub proof fn lemma_empty_lookup<C>(
    node: RouteNode<C>,
    segs: Seq<Seq<char>>,
    method: HttpMethod,
    b: Map<Seq<char>, Seq<char>>,
)
    requires
        node.endpoints@.len() == 0,
        node.children@.len() == 0,
        node.param_child is None,
    ensures
        lookup_node(node, segs, method, b) is None,
    decreases segs.len(),
{
    if segs.len() > 0 {
        if strip_query(segs[0]).len() == 0 {
            lemma_empty_lookup(node, segs.drop_first(), method, b);
        }
    }
}

/// Literal precedence: when the first (stripped) segment has a literal child,
/// the lookup descends into it — the parameter child is never consulted and
/// no binding is added at this depth.
pub proof fn lemma_literal_precedence<C>(
    node: RouteNode<C>,
    segs: Seq<Seq<char>>,
    method: HttpMethod,
    b: Map<Seq<char>, Seq<char>>,
    c: int,
)
    requires
        segs.len() > 0,
        strip_query(segs[0]).len() > 0,
        find_child(node.children@, strip_query(segs[0])) == Some(c),
    ensures
        lookup_node(node, segs, method, b) == lookup_node(
            node.children@[c].1,
            segs.drop_first(),
            method,
            b,
        ),
{
}

/// Query isolation: a lookup sees only the stripped, non-empty segments — the
/// query text never takes part in any comparison or binding.
pub proof fn lemma_query_isolation<C>(
    node: RouteNode<C>,
    segs: Seq<Seq<char>>,
    method: HttpMethod,
    b: Map<Seq<char>, Seq<char>>,
)
    ensures
        lookup_node(node, segs, method, b) == lookup_node(node, effective_segs(segs), method, b),
    decreases segs.len(),
{
    if segs.len() == 0 {
    } else {
        let s0 = strip_query(segs[0]);
        if s0.len() == 0 {
            lemma_query_isolation(node, segs.drop_first(), method, b);
        } else {
            let eff = effective_segs(segs);
            assert(eff == seq![s0] + effective_segs(segs.drop_first()));
            assert(eff[0] == s0);
            lemma_strip_idempotent(segs[0]);
            assert(strip_query(eff[0]) == s0);
            assert(eff.drop_first() =~= effective_segs(segs.drop_first()));
            match find_child(node.children@, s0) {
                Some(c) => {
                    lemma_query_isolation(node.children@[c].1, segs.drop_first(), method, b);
                },
                None => {
                    match node.param_child {
                        Some(pc) => {
                            lemma_query_isolation(
                                pc.1,
                                segs.drop_first(),
                                method,
                                b.insert(pc.0@, s0),
                            );
                        },
                        None => {},
                    }
                },
            }
        }
    }
}

} // verus!
verus! {

/// The effective form of a literal-only path is the path itself: valid
/// literals are non-empty and carry no query suffix.
pub proof fn lemma_effective_names(pts: Seq<PathTypeView>)
    requires
        all_literal(pts),
    ensures
        effective_segs(names(pts)) == names(pts),
    decreases pts.len(),
{
    if pts.len() > 0 {
        let name = names(pts)[0];
        assert(pts[0] matches PathTypeView::Subdirectory(nm) && nm == name && is_valid_literal(
            name,
        ));
        lemma_strip_valid_literal(name);
        assert(all_literal(pts.drop_first())) by {
            assert(forall|i: int|
                0 <= i < pts.drop_first().len() ==> (#[trigger] pts.drop_first()[i]) == pts[i + 1]);
        }
        assert(names(pts).drop_first() =~= names(pts.drop_first()));
        lemma_effective_names(pts.drop_first());
        assert(effective_segs(names(pts)) =~= names(pts));
    } else {
        assert(effective_segs(names(pts)) =~= names(pts));
    }
}

/// A chain of registrations: each tree arises from the one before by
/// inserting one endpoint under one pattern.
pub open spec fn registered_chain<C>(
    t: RouteNode<C>,
    regs: Seq<(Seq<PathTypeView>, Endpoint<C>)>,
    t2: RouteNode<C>,
) -> bool
    decreases regs.len(),
{
    if regs.len() == 0 {
        t2 == t
    } else {
        exists|mid: RouteNode<C>|
            #[trigger] inserted(t, regs[0].0, regs[0].1, mid) && registered_chain(
                mid,
                regs.drop_first(),
                t2,
            )
    }
}

/// Whether every pattern of a registration sequence is literal-only.
pub open spec fn all_literal_regs<C>(regs: Seq<(Seq<PathTypeView>, Endpoint<C>)>) -> bool {
    forall|k: int| 0 <= k < regs.len() ==> all_literal((#[trigger] regs[k]).0)
}

/// A whole chain of literal-only registrations leaves the lookup of every
/// (method, path) pair it never registers exactly as it was, and keeps the
/// tree literal-only.
pub proof fn lemma_chain_frame<C>(
    t: RouteNode<C>,
    regs: Seq<(Seq<PathTypeView>, Endpoint<C>)>,
    t2: RouteNode<C>,
    m: HttpMethod,
    segs: Seq<Seq<char>>,
    b: Map<Seq<char>, Seq<char>>,
)
    requires
        registered_chain(t, regs, t2),
        literal_only(t),
        all_literal_regs(regs),
        forall|k: int|
            0 <= k < regs.len() ==> !(m == (#[trigger] regs[k]).1.method && effective_segs(segs)
                == names(regs[k].0)),
    ensures
        lookup_node(t2, segs, m, b) == lookup_node(t, segs, m, b),
        literal_only(t2),
    decreases regs.len(),
{
    if regs.len() > 0 {
        let mid = choose|mid: RouteNode<C>|
            #[trigger] inserted(t, regs[0].0, regs[0].1, mid) && registered_chain(
                mid,
                regs.drop_first(),
                t2,
            );
        lemma_insert_frame(t, regs[0].0, regs[0].1, mid, segs, m, b);
        lemma_insert_literal_only(t, regs[0].0, regs[0].1, mid);
        assert(all_literal_regs(regs.drop_first()) && forall|k: int|
            0 <= k < regs.drop_first().len() ==> !(m == (#[trigger] regs.drop_first()[k]).1.method
                && effective_segs(segs) == names(regs.drop_first()[k].0))) by {
            assert(forall|k: int|
                0 <= k < regs.drop_first().len() ==> (#[trigger] regs.drop_first()[k]) == regs[k
                    + 1]);
        }
        lemma_chain_frame(mid, regs.drop_first(), t2, m, segs, b);
    }
}

/// Registration/lookup round-trip over a whole sequence: after any sequence
/// of literal-only registrations with pairwise distinct (method, path) pairs
/// into a literal-only tree, looking each registered path up with its method
/// yields exactly the endpoint registered for it, with the bindings
/// untouched.
pub proof fn lemma_sequence_round_trip<C>(
    t: RouteNode<C>,
    regs: Seq<(Seq<PathTypeView>, Endpoint<C>)>,
    t2: RouteNode<C>,
    i: int,
    b: Map<Seq<char>, Seq<char>>,
)
    requires
        registered_chain(t, regs, t2),
        literal_only(t),
        all_literal_regs(regs),
        0 <= i < regs.len(),
        forall|k: int|
            0 <= k < regs.len() && k != i ==> !((#[trigger] regs[k]).1.method == regs[i].1.method
                && names(regs[k].0) == names(regs[i].0)),
    ensures
        lookup_node(t2, names(regs[i].0), regs[i].1.method, b) == Some((regs[i].1, b)),
    decreases regs.len(),
{
    let mid = choose|mid: RouteNode<C>|
        #[trigger] inserted(t, regs[0].0, regs[0].1, mid) && registered_chain(
            mid,
            regs.drop_first(),
            t2,
        );
    lemma_insert_literal_only(t, regs[0].0, regs[0].1, mid);
    assert(forall|k: int|
        0 <= k < regs.drop_first().len() ==> (#[trigger] regs.drop_first()[k]) == regs[k + 1]);
    if i == 0 {
        lemma_insert_lookup(t, regs[0].0, regs[0].1, mid, b);
        lemma_effective_names(regs[0].0);
        lemma_chain_frame(
            mid,
            regs.drop_first(),
            t2,
            regs[0].1.method,
            names(regs[0].0),
            b,
        );
    } else {
        lemma_sequence_round_trip(mid, regs.drop_first(), t2, i - 1, b);
    }
}

} // verus!
