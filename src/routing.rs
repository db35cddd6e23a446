use vstd::prelude::*;
use crate::query_types::{Content, Query, QueryKind, bound, query_with_path_variables};
use crate::text::{same_text, split_on, split_text, string_of, strings_model};

verus! {

broadcast use {vstd::seq::axiom_seq_subrange_decreases, vstd::seq::axiom_seq_index_decreases, vstd::std_specs::vec::axiom_vec_decreases_to_view};

/// The segment value that marks a wildcard node.
pub const WILDCARD: &'static str = "{}";

/// The literal segment that every API path starts with.
pub const API_ROOT: &'static str = "api";

/// A node of the route tree: a literal segment or the wildcard marker, its
/// children in insertion order, and the template bound to the path that ends
/// here, if any.
pub struct PathSegment {
    pub value: String,
    pub seg_number: u16,
    pub children_segments: Vec<PathSegment>,
    pub query: Option<QueryKind>,
}

/// The mathematical value of a route tree node.
pub struct SegModel {
    pub value: Seq<char>,
    pub children: Seq<SegModel>,
    pub query: Option<QueryKind>,
}

impl View for PathSegment {
    type V = SegModel;

    open spec fn view(&self) -> SegModel
        decreases self,
    {
        SegModel {
            value: self.value@,
            children: children_model(self.children_segments@),
            query: self.query,
        }
    }
}

pub open spec fn children_model(s: Seq<PathSegment>) -> Seq<SegModel>
    decreases s,
{
    if s.len() == 0 {
        Seq::empty()
    } else {
        children_model(s.drop_last()).push(s.last()@)
    }
}

pub proof fn lemma_children_model(s: Seq<PathSegment>)
    ensures
        children_model(s).len() == s.len(),
        forall|i: int| 0 <= i < s.len() ==> #[trigger] children_model(s)[i] == s[i]@,
    decreases s.len(),
{
    if s.len() > 0 {
        lemma_children_model(s.drop_last());
        assert(children_model(s) == children_model(s.drop_last()).push(s.last()@));
    } else {
        assert(children_model(s) == Seq::<SegModel>::empty());
    }
}

pub open spec fn wildcard() -> Seq<char> {
    seq!['{', '}']
}

/// The position of the first child whose segment value is `v`, from `from` on.
pub open spec fn child_index(children: Seq<SegModel>, v: Seq<char>, from: int) -> Option<int>
    decreases children.len() - from,
{
    if from < 0 || from >= children.len() {
        None
    } else if children[from].value == v {
        Some(from)
    } else {
        child_index(children, v, from + 1)
    }
}

/// The outcome of resolving a path.
pub enum Route {
    /// Nothing follows the leading segment.
    Malformed,
    /// The first segment is not `api`.
    NotApi,
    /// The path is `/api` or `/api/`.
    ApiRoot,
    /// The path matches no route.
    InvalidUri,
    /// The path matches a route bound to the template; the wildcard
    /// segments, left to right.
    Found(QueryKind, Seq<Seq<char>>),
}

/// The walk down the tree from `node`, consuming `segs[i..]`: a literal child
/// is taken before the wildcard child, a wildcard step captures its segment,
/// and a final segment that no child takes falls back on `node`'s template.
pub open spec fn walk(node: SegModel, segs: Seq<Seq<char>>, i: int, caps: Seq<Seq<char>>) -> Route
    decreases segs.len() - i,
{
    if i < 0 || i >= segs.len() {
        match node.query {
            Some(k) => Route::Found(k, caps),
            None => Route::InvalidUri,
        }
    } else {
        let seg = segs[i];
        let literal = if seg != wildcard() {
            child_index(node.children, seg, 0)
        } else {
            None
        };
        match literal {
            Some(c) => walk(node.children[c], segs, i + 1, caps),
            None => match child_index(node.children, wildcard(), 0) {
                Some(c) => walk(node.children[c], segs, i + 1, caps.push(seg)),
                None => if i == segs.len() - 1 && node.query is Some {
                    Route::Found(node.query->0, caps)
                } else {
                    Route::InvalidUri
                },
            },
        }
    }
}

/// The segments of a path split on `/`, left to right; empty segments are
/// kept, so a path of `n` slashes has `n + 1` segments.
pub open spec fn path_segments(s: Seq<char>) -> Seq<Seq<char>> {
    split_on(s, '/')
}

/// Resolution of a path already split into segments; the first segment,
/// which precedes the leading `/`, is not read.
pub open spec fn resolve_segments(root: SegModel, segs: Seq<Seq<char>>) -> Route {
    if segs.len() < 2 {
        Route::Malformed
    } else if segs[1] != "api"@ {
        Route::NotApi
    } else if segs.len() == 2 || (segs.len() == 3 && segs[2].len() == 0) {
        Route::ApiRoot
    } else {
        walk(root, segs, 2, Seq::empty())
    }
}

pub open spec fn resolve_path(root: SegModel, path: Seq<char>) -> Route {
    resolve_segments(root, path_segments(path))
}

/// The executable outcome of resolving a path.
pub enum Resolution {
    Malformed,
    NotApi,
    ApiRoot,
    InvalidUri,
    Found(QueryKind, Vec<String>),
}

impl View for Resolution {
    type V = Route;

    open spec fn view(&self) -> Route {
        match self {
            Resolution::Malformed => Route::Malformed,
            Resolution::NotApi => Route::NotApi,
            Resolution::ApiRoot => Route::ApiRoot,
            Resolution::InvalidUri => Route::InvalidUri,
            Resolution::Found(k, caps) => Route::Found(*k, strings_model(caps@)),
        }
    }
}

/// Splits a path on `/`.
pub fn split_path(path: &str) -> (r: Vec<String>)
    ensures
        strings_model(r@) == path_segments(path@),
{
    split_text(path, '/')
}

impl PathSegment {
    pub fn new(value: String, seg_number: u16) -> (r: PathSegment)
        ensures
            r@ == (SegModel { value: value@, children: Seq::empty(), query: None }),
            r.seg_number == seg_number,
    {
        let r = PathSegment { value, seg_number, children_segments: Vec::new(), query: None };
        proof {
            lemma_children_model(r.children_segments@);
        }
        assert(r@.children =~= Seq::empty());
        r
    }

    /// Appends a child node.
    pub fn child_seg(&mut self, child: PathSegment)
        ensures
            final(self)@ == (SegModel { children: old(self)@.children.push(child@), ..old(self)@ }),
            final(self).seg_number == old(self).seg_number,
    {
        let ghost before = self.children_segments@;
        self.children_segments.push(child);
        proof {
            lemma_children_model(before);
            lemma_children_model(self.children_segments@);
        }
        assert(self@.children =~= old(self)@.children.push(child@));
    }

    /// Appends a new empty child one level deeper and returns its position.
    pub fn child_seg_by_value(&mut self, value: String) -> (r: usize)
        requires
            old(self).seg_number < u16::MAX,
        ensures
            r == old(self)@.children.len(),
            final(self)@ == (SegModel {
                children: old(self)@.children.push(SegModel { value: value@, children: Seq::empty(), query: None }),
                ..old(self)@
            }),
            final(self).seg_number == old(self).seg_number,
    {
        proof {
            lemma_children_model(self.children_segments@);
        }
        let r = self.children_segments.len();
        let child = PathSegment::new(value, self.seg_number + 1);
        self.child_seg(child);
        r
    }

    /// The first child whose segment value is `seg_value`.
    pub fn get_next(&self, seg_value: &str) -> (r: Option<&PathSegment>)
        ensures
            match child_index(self@.children, seg_value@, 0) {
                Some(i) => r matches Some(c) && c@ == self@.children[i],
                None => r is None,
            },
    {
        proof {
            lemma_children_model(self.children_segments@);
        }
        let mut i: usize = 0;
        while i < self.children_segments.len()
            invariant
                i <= self.children_segments@.len(),
                self@.children.len() == self.children_segments@.len(),
                forall|j: int| 0 <= j < self.children_segments@.len() ==> #[trigger] self@.children[j] == self.children_segments@[j]@,
                child_index(self@.children, seg_value@, 0) == child_index(self@.children, seg_value@, i as int),
            decreases self.children_segments@.len() - i,
        {
            if same_text(self.children_segments[i].value.as_str(), seg_value) {
                return Some(&self.children_segments[i]);
            }
            i += 1;
        }
        None
    }

    pub fn has_children(&self) -> (r: bool)
        ensures
            r == (self@.children.len() > 0),
    {
        proof {
            lemma_children_model(self.children_segments@);
        }
        self.children_segments.len() > 0
    }
}

/// A node holding `value`, bound to `query`, with the given children.
fn route(value: &str, seg_number: u16, query: Option<QueryKind>, children: Vec<PathSegment>) -> (r: PathSegment)
    ensures
        r@ == (SegModel { value: value@, children: children_model(children@), query }),
{
    PathSegment { value: string_of(value), seg_number, children_segments: children, query }
}

pub open spec fn leaf(value: Seq<char>, q: QueryKind) -> SegModel {
    SegModel { value, children: Seq::empty(), query: Some(q) }
}

/// The endpoint table, as a tree below `api`:
/// `suppliers` (and its `email`, `numbers`, `categories`), `supplier`
/// (create), `supplier/id/{}`, `supplier/{}` (and its `name`, `address`,
/// `rep`, `categories`), `supplier/rep/{}` (and its `numbers`, `email`).
pub open spec fn api_tree_model() -> SegModel {
    SegModel {
        value: "api"@,
        query: None,
        children: seq![
            SegModel {
                value: "suppliers"@,
                query: Some(QueryKind::GETSuppliers),
                children: seq![
                    leaf("email"@, QueryKind::GETSuppliersEmail),
                    leaf("numbers"@, QueryKind::GETSuppliersNumbers),
                    leaf("categories"@, QueryKind::GETSuppliersCategories),
                ],
            },
            SegModel {
                value: "supplier"@,
                query: Some(QueryKind::POSTSupplier),
                children: seq![
                    SegModel {
                        value: "id"@,
                        query: None,
                        children: seq![leaf(wildcard(), QueryKind::GETSupplierIdFromName)],
                    },
                    SegModel {
                        value: wildcard(),
                        query: Some(QueryKind::GETSupplierFromId),
                        children: seq![
                            leaf("name"@, QueryKind::GETSupplierNameFromId),
                            leaf("address"@, QueryKind::GETSupplierAddressFromId),
                            leaf("rep"@, QueryKind::GETSupplierRepFromId),
                            leaf("categories"@, QueryKind::GETSupplierCategoriesFromId),
                        ],
                    },
                    SegModel {
                        value: "rep"@,
                        query: None,
                        children: seq![
                            SegModel {
                                value: wildcard(),
                                query: Some(QueryKind::GETSupplyRepFromId),
                                children: seq![
                                    leaf("numbers"@, QueryKind::GETSupplyRepPhoneNumbersFromId),
                                    leaf("email"@, QueryKind::GETSupplyRepEmailFromId),
                                ],
                            },
                        ],
                    },
                ],
            },
        ],
    }
}

fn build_suppliers() -> (r: PathSegment)
    ensures
        r@ == api_tree_model().children[0],
{
    let mut kids: Vec<PathSegment> = Vec::new();
    kids.push(route("email", 2, Some(QueryKind::GETSuppliersEmail), Vec::new()));
    kids.push(route("numbers", 2, Some(QueryKind::GETSuppliersNumbers), Vec::new()));
    kids.push(route("categories", 2, Some(QueryKind::GETSuppliersCategories), Vec::new()));
    proof {
        lemma_children_model(Seq::<PathSegment>::empty());
        lemma_children_model(kids@);
        assert(children_model(Seq::<PathSegment>::empty()) =~= Seq::<SegModel>::empty());
    }
    let r = route("suppliers", 1, Some(QueryKind::GETSuppliers), kids);
    assert(r@.children =~= api_tree_model().children[0].children);
    r
}

fn build_supplier() -> (r: PathSegment)
    ensures
        r@ == api_tree_model().children[1],
{
    proof {
        reveal_strlit("{}");
        assert(WILDCARD@ =~= wildcard());
        lemma_children_model(Seq::<PathSegment>::empty());
        assert(children_model(Seq::<PathSegment>::empty()) =~= Seq::<SegModel>::empty());
    }
    let ghost m = api_tree_model().children[1];

    let mut by_name: Vec<PathSegment> = Vec::new();
    by_name.push(route(WILDCARD, 3, Some(QueryKind::GETSupplierIdFromName), Vec::new()));
    proof {
        lemma_children_model(by_name@);
    }
    let id_seg = route("id", 2, None, by_name);
    assert(id_seg@.children =~= m.children[0].children);

    let mut of_id: Vec<PathSegment> = Vec::new();
    of_id.push(route("name", 3, Some(QueryKind::GETSupplierNameFromId), Vec::new()));
    of_id.push(route("address", 3, Some(QueryKind::GETSupplierAddressFromId), Vec::new()));
    of_id.push(route("rep", 3, Some(QueryKind::GETSupplierRepFromId), Vec::new()));
    of_id.push(route("categories", 3, Some(QueryKind::GETSupplierCategoriesFromId), Vec::new()));
    proof {
        lemma_children_model(of_id@);
    }
    let id_wild = route(WILDCARD, 2, Some(QueryKind::GETSupplierFromId), of_id);
    assert(id_wild@.children =~= m.children[1].children);

    let mut of_rep: Vec<PathSegment> = Vec::new();
    of_rep.push(route("numbers", 4, Some(QueryKind::GETSupplyRepPhoneNumbersFromId), Vec::new()));
    of_rep.push(route("email", 4, Some(QueryKind::GETSupplyRepEmailFromId), Vec::new()));
    proof {
        lemma_children_model(of_rep@);
    }
    let rep_wild = route(WILDCARD, 3, Some(QueryKind::GETSupplyRepFromId), of_rep);
    assert(rep_wild@.children =~= m.children[2].children[0].children);
    let mut reps: Vec<PathSegment> = Vec::new();
    reps.push(rep_wild);
    proof {
        lemma_children_model(reps@);
    }
    let rep_seg = route("rep", 2, None, reps);
    assert(rep_seg@.children =~= m.children[2].children);

    let mut kids: Vec<PathSegment> = Vec::new();
    kids.push(id_seg);
    kids.push(id_wild);
    kids.push(rep_seg);
    proof {
        lemma_children_model(kids@);
    }
    let r = route("supplier", 1, Some(QueryKind::POSTSupplier), kids);
    assert(r@.children =~= m.children);
    r
}

/// Builds the endpoint table below `root`.
fn build_api_tree(root: &mut PathSegment)
    ensures
        final(root)@ == (SegModel {
            children: old(root)@.children + api_tree_model().children,
            ..old(root)@
        }),
{
    root.child_seg(build_suppliers());
    root.child_seg(build_supplier());
    assert(root@.children =~= old(root)@.children + api_tree_model().children);
}

/// The route tree, rooted at the literal segment `api`.
pub struct ApiTree {
    pub tree: PathSegment,
}

impl ApiTree {
    pub fn new() -> (r: ApiTree)
        ensures
            r.tree@ == api_tree_model(),
    {
        let mut root = PathSegment::new(string_of(API_ROOT), 0);
        build_api_tree(&mut root);
        assert(root@.children =~= api_tree_model().children);
        ApiTree { tree: root }
    }

    /// Resolves a path against the tree.
    pub fn resolve(&self, path: &str) -> (r: Resolution)
        ensures
            r@ == resolve_path(self.tree@, path@),
    {
        let segs = split_path(path);
        let ghost sv = strings_model(segs@);
        if segs.len() < 2 {
            return Resolution::Malformed;
        }
        assert(sv[1] == segs@[1]@);
        if !same_text(segs[1].as_str(), API_ROOT) {
            proof {
                reveal_strlit("api");
            }
            return Resolution::NotApi;
        }
        proof {
            reveal_strlit("api");
        }
        if segs.len() == 2 || (segs.len() == 3 && segs[2].as_str().is_empty()) {
            return Resolution::ApiRoot;
        }
        assert(segs@.len() == 3 ==> sv[2] == segs@[2]@);
        assert(resolve_path(self.tree@, path@) == walk(self.tree@, sv, 2, Seq::empty()));
        proof {
            reveal_strlit("{}");
        }
        let mut node: &PathSegment = &self.tree;
        let mut caps: Vec<String> = Vec::new();
        let mut i: usize = 2;
        assert(strings_model(caps@) =~= Seq::<Seq<char>>::empty());
        while i < segs.len()
            invariant
                sv == strings_model(segs@),
                sv.len() == segs@.len(),
                2 <= i <= segs@.len(),
                WILDCARD@ == wildcard(),
                walk(node@, sv, i as int, strings_model(caps@)) == walk(self.tree@, sv, 2, Seq::empty()),
                resolve_path(self.tree@, path@) == walk(self.tree@, sv, 2, Seq::empty()),
            decreases segs@.len() - i,
        {
            let seg = &segs[i];
            assert(sv[i as int] == seg@);
            let is_wild = same_text(seg.as_str(), WILDCARD);
            let literal = if is_wild {
                None
            } else {
                node.get_next(seg.as_str())
            };
            match literal {
                Some(next) => {
                    node = next;
                    i += 1;
                },
                None => {
                    match node.get_next(WILDCARD) {
                        Some(next) => {
                            let ghost before = strings_model(caps@);
                            caps.push(string_of(seg.as_str()));
                            assert(strings_model(caps@) =~= before.push(sv[i as int]));
                            node = next;
                            i += 1;
                        },
                        None => {
                            assert(walk(node@, sv, i as int, strings_model(caps@)) == if i == sv.len() - 1
                                && node@.query is Some {
                                Route::Found(node@.query->0, strings_model(caps@))
                            } else {
                                Route::InvalidUri
                            });
                            if i + 1 == segs.len() {
                                if let Some(k) = node.query {
                                    return Resolution::Found(k, caps);
                                }
                            }
                            return Resolution::InvalidUri;
                        },
                    }
                },
            }
        }
        match node.query {
            Some(k) => Resolution::Found(k, caps),
            None => Resolution::InvalidUri,
        }
    }
}

/// Resolves a path and binds the matched template to the captured segments
/// and the request body. `None` stands for a path with nothing after its
/// leading segment; paths outside the API give `NoneApi`, `/api` gives
/// `ApiDoc`, and paths that match no route give `ApiInvalidUri`.
pub fn uri_to_api_query(uri: &String, api_tree: &ApiTree, body: Content) -> (r: Option<Query>)
    ensures
        match resolve_path(api_tree.tree@, uri@) {
            Route::Malformed => r is None,
            Route::NotApi => r == Some(Query::NoneApi),
            Route::ApiRoot => r == Some(Query::ApiDoc),
            Route::InvalidUri => r == Some(Query::ApiInvalidUri),
            Route::Found(k, caps) => r matches Some(q) && bound(k, caps, body, q),
        },
{
    match api_tree.resolve(uri.as_str()) {
        Resolution::Malformed => None,
        Resolution::NotApi => Some(Query::NoneApi),
        Resolution::ApiRoot => Some(Query::ApiDoc),
        Resolution::InvalidUri => Some(Query::ApiInvalidUri),
        Resolution::Found(k, caps) => Some(query_with_path_variables(k, &caps, body)),
    }
}

} // verus!

verus! {

/// A segment that names a literal child is never captured: the walk goes on
/// from that child with the captured list unchanged, whatever wildcard
/// sibling the child has.
pub proof fn lemma_literal_before_wildcard(node: SegModel, segs: Seq<Seq<char>>, i: int, caps: Seq<Seq<char>>)
    requires
        0 <= i < segs.len(),
        segs[i] != wildcard(),
        child_index(node.children, segs[i], 0) is Some,
    ensures
        walk(node, segs, i, caps) == walk(
            node.children[child_index(node.children, segs[i], 0)->0],
            segs,
            i + 1,
            caps,
        ),
{
}

proof fn lemma_walk_literal(node: SegModel, segs: Seq<Seq<char>>, i: int, caps: Seq<Seq<char>>, c: int)
    requires
        0 <= i < segs.len(),
        segs[i] != wildcard(),
        child_index(node.children, segs[i], 0) == Some(c),
    ensures
        walk(node, segs, i, caps) == walk(node.children[c], segs, i + 1, caps),
{
}

proof fn lemma_walk_wildcard(node: SegModel, segs: Seq<Seq<char>>, i: int, caps: Seq<Seq<char>>, c: int)
    requires
        0 <= i < segs.len(),
        segs[i] == wildcard() || child_index(node.children, segs[i], 0) is None,
        child_index(node.children, wildcard(), 0) == Some(c),
    ensures
        walk(node, segs, i, caps) == walk(node.children[c], segs, i + 1, caps.push(segs[i])),
{
}

proof fn lemma_walk_end(node: SegModel, segs: Seq<Seq<char>>, caps: Seq<Seq<char>>)
    ensures
        walk(node, segs, segs.len() as int, caps) == match node.query {
            Some(k) => Route::Found(k, caps),
            None => Route::InvalidUri,
        },
{
}

proof fn lemma_route_names_differ()
    ensures
        "api"@ == seq!['a', 'p', 'i'],
        "suppliers"@ == seq!['s', 'u', 'p', 'p', 'l', 'i', 'e', 'r', 's'],
        "supplier"@ == seq!['s', 'u', 'p', 'p', 'l', 'i', 'e', 'r'],
        "email"@ == seq!['e', 'm', 'a', 'i', 'l'],
        "numbers"@ == seq!['n', 'u', 'm', 'b', 'e', 'r', 's'],
        "categories"@ == seq!['c', 'a', 't', 'e', 'g', 'o', 'r', 'i', 'e', 's'],
        "id"@ == seq!['i', 'd'],
        "rep"@ == seq!['r', 'e', 'p'],
        "name"@ == seq!['n', 'a', 'm', 'e'],
        "address"@ == seq!['a', 'd', 'd', 'r', 'e', 's', 's'],
{
    reveal_strlit("api");
    reveal_strlit("suppliers");
    reveal_strlit("supplier");
    reveal_strlit("email");
    reveal_strlit("numbers");
    reveal_strlit("categories");
    reveal_strlit("id");
    reveal_strlit("rep");
    reveal_strlit("name");
    reveal_strlit("address");
    assert("api"@ =~= seq!['a', 'p', 'i']);
    assert("suppliers"@ =~= seq!['s', 'u', 'p', 'p', 'l', 'i', 'e', 'r', 's']);
    assert("supplier"@ =~= seq!['s', 'u', 'p', 'p', 'l', 'i', 'e', 'r']);
    assert("email"@ =~= seq!['e', 'm', 'a', 'i', 'l']);
    assert("numbers"@ =~= seq!['n', 'u', 'm', 'b', 'e', 'r', 's']);
    assert("categories"@ =~= seq!['c', 'a', 't', 'e', 'g', 'o', 'r', 'i', 'e', 's']);
    assert("id"@ =~= seq!['i', 'd']);
    assert("rep"@ =~= seq!['r', 'e', 'p']);
    assert("name"@ =~= seq!['n', 'a', 'm', 'e']);
    assert("address"@ =~= seq!['a', 'd', 'd', 'r', 'e', 's', 's']);
}

/// Every registered path made of literal segments only resolves to its own
/// template with nothing captured.
pub proof fn lemma_literal_routes_resolve()
    ensures
        resolve_segments(api_tree_model(), seq![Seq::empty(), "api"@, "suppliers"@])
            == Route::Found(QueryKind::GETSuppliers, Seq::empty()),
        resolve_segments(api_tree_model(), seq![Seq::empty(), "api"@, "suppliers"@, "email"@])
            == Route::Found(QueryKind::GETSuppliersEmail, Seq::empty()),
        resolve_segments(api_tree_model(), seq![Seq::empty(), "api"@, "suppliers"@, "numbers"@])
            == Route::Found(QueryKind::GETSuppliersNumbers, Seq::empty()),
        resolve_segments(api_tree_model(), seq![Seq::empty(), "api"@, "suppliers"@, "categories"@])
            == Route::Found(QueryKind::GETSuppliersCategories, Seq::empty()),
        resolve_segments(api_tree_model(), seq![Seq::empty(), "api"@, "supplier"@])
            == Route::Found(QueryKind::POSTSupplier, Seq::empty()),
{
    lemma_route_names_differ();
    reveal_with_fuel(child_index, 4);
    let root = api_tree_model();
    let e = Seq::<Seq<char>>::empty();
    let sup = root.children[0];
    assert(child_index(root.children, "suppliers"@, 0) == Some(0int));
    assert(child_index(root.children, "supplier"@, 0) == Some(1int));
    assert(child_index(sup.children, "email"@, 0) == Some(0int));
    assert(child_index(sup.children, "numbers"@, 0) == Some(1int));
    assert(child_index(sup.children, "categories"@, 0) == Some(2int));

    let to_node = seq![Seq::empty(), "api"@, "suppliers"@];
    lemma_walk_literal(root, to_node, 2, e, 0);
    lemma_walk_end(sup, to_node, e);

    let to_first = seq![Seq::empty(), "api"@, "suppliers"@, "email"@];
    lemma_walk_literal(root, to_first, 2, e, 0);
    lemma_walk_literal(sup, to_first, 3, e, 0);
    lemma_walk_end(sup.children[0], to_first, e);

    let to_second = seq![Seq::empty(), "api"@, "suppliers"@, "numbers"@];
    lemma_walk_literal(root, to_second, 2, e, 0);
    lemma_walk_literal(sup, to_second, 3, e, 1);
    lemma_walk_end(sup.children[1], to_second, e);

    let to_third = seq![Seq::empty(), "api"@, "suppliers"@, "categories"@];
    lemma_walk_literal(root, to_third, 2, e, 0);
    lemma_walk_literal(sup, to_third, 3, e, 2);
    lemma_walk_end(sup.children[2], to_third, e);

    let to_fourth = seq![Seq::empty(), "api"@, "supplier"@];
    lemma_walk_literal(root, to_fourth, 2, e, 1);
    lemma_walk_end(root.children[1], to_fourth, e);
}

/// On every registered path with a wildcard segment below `supplier/{}`, the
/// captured list holds exactly the segment found at the wildcard's position,
/// as long as that segment is not one of the literal siblings `id` and `rep`.
pub proof fn lemma_wildcard_routes_capture(x: Seq<char>)
    requires
        x != "id"@,
        x != "rep"@,
    ensures
        resolve_segments(api_tree_model(), seq![Seq::empty(), "api"@, "supplier"@, x])
            == Route::Found(QueryKind::GETSupplierFromId, seq![x]),
        resolve_segments(api_tree_model(), seq![Seq::empty(), "api"@, "supplier"@, x, "name"@])
            == Route::Found(QueryKind::GETSupplierNameFromId, seq![x]),
        resolve_segments(api_tree_model(), seq![Seq::empty(), "api"@, "supplier"@, x, "address"@])
            == Route::Found(QueryKind::GETSupplierAddressFromId, seq![x]),
        resolve_segments(api_tree_model(), seq![Seq::empty(), "api"@, "supplier"@, x, "rep"@])
            == Route::Found(QueryKind::GETSupplierRepFromId, seq![x]),
        resolve_segments(api_tree_model(), seq![Seq::empty(), "api"@, "supplier"@, x, "categories"@])
            == Route::Found(QueryKind::GETSupplierCategoriesFromId, seq![x]),
{
    lemma_route_names_differ();
    reveal_with_fuel(child_index, 5);
    let root = api_tree_model();
    let e = Seq::<Seq<char>>::empty();
    let sup = root.children[1];
    let wid = sup.children[1];
    assert(root.children[0].value.len() != "supplier"@.len());
    assert(child_index(root.children, "supplier"@, 0) == Some(1int));
    assert(x == wildcard() || child_index(sup.children, x, 0) is None);
    assert(child_index(sup.children, wildcard(), 0) == Some(1int));
    assert(child_index(wid.children, "name"@, 0) == Some(0int));
    assert(child_index(wid.children, "address"@, 0) == Some(1int));
    assert(child_index(wid.children, "rep"@, 0) == Some(2int));
    assert(child_index(wid.children, "categories"@, 0) == Some(3int));

    let to_node = seq![Seq::empty(), "api"@, "supplier"@, x];
    lemma_walk_literal(root, to_node, 2, e, 1);
    lemma_walk_wildcard(sup, to_node, 3, e, 1);
    lemma_walk_end(wid, to_node, seq![x]);
    assert(e.push(x) == seq![x]);

    let names = seq!["name"@, "address"@, "rep"@, "categories"@];
    assert forall|j: int| 0 <= j < 4 implies {
        let p = seq![Seq::empty(), "api"@, "supplier"@, x, #[trigger] names[j]];
        walk(root, p, 2, e) == walk(wid.children[j], p, 5, seq![x])
    } by {
        let p = seq![Seq::empty(), "api"@, "supplier"@, x, names[j]];
        lemma_walk_literal(root, p, 2, e, 1);
        lemma_walk_wildcard(sup, p, 3, e, 1);
        lemma_walk_literal(wid, p, 4, seq![x], j);
    }
    let to_first = seq![Seq::empty(), "api"@, "supplier"@, x, "name"@];
    assert(names[0] == "name"@);
    lemma_walk_end(wid.children[0], to_first, seq![x]);
    let to_second = seq![Seq::empty(), "api"@, "supplier"@, x, "address"@];
    assert(names[1] == "address"@);
    lemma_walk_end(wid.children[1], to_second, seq![x]);
    let to_third = seq![Seq::empty(), "api"@, "supplier"@, x, "rep"@];
    assert(names[2] == "rep"@);
    lemma_walk_end(wid.children[2], to_third, seq![x]);
    let to_fourth = seq![Seq::empty(), "api"@, "supplier"@, x, "categories"@];
    assert(names[3] == "categories"@);
    lemma_walk_end(wid.children[3], to_fourth, seq![x]);
}

/// The wildcard routes below `supplier/id` and `supplier/rep` capture their
/// segment, whatever it is.
pub proof fn lemma_named_wildcard_routes_capture(x: Seq<char>)
    ensures
        resolve_segments(api_tree_model(), seq![Seq::empty(), "api"@, "supplier"@, "id"@, x])
            == Route::Found(QueryKind::GETSupplierIdFromName, seq![x]),
        resolve_segments(api_tree_model(), seq![Seq::empty(), "api"@, "supplier"@, "rep"@, x])
            == Route::Found(QueryKind::GETSupplyRepFromId, seq![x]),
        resolve_segments(api_tree_model(), seq![Seq::empty(), "api"@, "supplier"@, "rep"@, x, "numbers"@])
            == Route::Found(QueryKind::GETSupplyRepPhoneNumbersFromId, seq![x]),
        resolve_segments(api_tree_model(), seq![Seq::empty(), "api"@, "supplier"@, "rep"@, x, "email"@])
            == Route::Found(QueryKind::GETSupplyRepEmailFromId, seq![x]),
{
    lemma_route_names_differ();
    reveal_with_fuel(child_index, 5);
    let root = api_tree_model();
    let e = Seq::<Seq<char>>::empty();
    let sup = root.children[1];
    let ids = sup.children[0];
    let reps = sup.children[2];
    let rw = reps.children[0];
    assert(e.push(x) == seq![x]);
    assert(root.children[0].value.len() != "supplier"@.len());
    assert(child_index(root.children, "supplier"@, 0) == Some(1int));
    assert(child_index(sup.children, "id"@, 0) == Some(0int));
    assert(child_index(sup.children, "rep"@, 0) == Some(2int));
    assert(x == wildcard() || child_index(ids.children, x, 0) is None);
    assert(child_index(ids.children, wildcard(), 0) == Some(0int));
    assert(x == wildcard() || child_index(reps.children, x, 0) is None);
    assert(child_index(reps.children, wildcard(), 0) == Some(0int));
    assert(child_index(rw.children, "numbers"@, 0) == Some(0int));
    assert(child_index(rw.children, "email"@, 0) == Some(1int));

    let to_node = seq![Seq::empty(), "api"@, "supplier"@, "id"@, x];
    lemma_walk_literal(root, to_node, 2, e, 1);
    lemma_walk_literal(sup, to_node, 3, e, 0);
    lemma_walk_wildcard(ids, to_node, 4, e, 0);
    lemma_walk_end(ids.children[0], to_node, seq![x]);

    let to_first = seq![Seq::empty(), "api"@, "supplier"@, "rep"@, x];
    lemma_walk_literal(root, to_first, 2, e, 1);
    lemma_walk_literal(sup, to_first, 3, e, 2);
    lemma_walk_wildcard(reps, to_first, 4, e, 0);
    lemma_walk_end(rw, to_first, seq![x]);

    let to_second = seq![Seq::empty(), "api"@, "supplier"@, "rep"@, x, "numbers"@];
    lemma_walk_literal(root, to_second, 2, e, 1);
    lemma_walk_literal(sup, to_second, 3, e, 2);
    lemma_walk_wildcard(reps, to_second, 4, e, 0);
    lemma_walk_literal(rw, to_second, 5, seq![x], 0);
    lemma_walk_end(rw.children[0], to_second, seq![x]);

    let to_third = seq![Seq::empty(), "api"@, "supplier"@, "rep"@, x, "email"@];
    lemma_walk_literal(root, to_third, 2, e, 1);
    lemma_walk_literal(sup, to_third, 3, e, 2);
    lemma_walk_wildcard(reps, to_third, 4, e, 0);
    lemma_walk_literal(rw, to_third, 5, seq![x], 1);
    lemma_walk_end(rw.children[1], to_third, seq![x]);
}

/// An id template bound to a captured segment that is not an unsigned
/// decimal number yields `ApiInvalidUri`.
pub proof fn lemma_non_numeric_id_is_invalid(kind: QueryKind, vars: Seq<Seq<char>>, body: Content, r: Query)
    requires
        kind.takes_id(),
        vars.len() > 0,
        crate::text::parsed_u64(vars[0]) is None,
        bound(kind, vars, body, r),
    ensures
        r == Query::ApiInvalidUri,
{
}

/// An id rendered in decimal as the captured segment binds back to the same
/// id.
pub proof fn lemma_id_round_trip(kind: QueryKind, n: u64, body: Content, r: Query)
    requires
        kind.takes_id(),
        bound(kind, seq![crate::text::decimal(n as nat)], body, r),
    ensures
        r == crate::query_types::with_id(kind, n),
{
    crate::text::lemma_decimal_round_trip(n);
}

pub open spec fn no_slash(x: Seq<char>) -> bool {
    forall|i: int| 0 <= i < x.len() ==> x[i] != '/'
}

/// Appending `/` and a slash-free piece to a path appends that piece to its
/// segments.
pub proof fn lemma_path_segments_push(s: Seq<char>, x: Seq<char>)
    requires
        no_slash(x),
    ensures
        path_segments(s + seq!['/'] + x) == path_segments(s).push(x),
    decreases x.len(),
{
    let t = s + seq!['/'] + x;
    if x.len() == 0 {
        assert(t.drop_last() =~= s);
        assert(t.last() == '/');
        assert(split_on(t, '/') == split_on(s, '/').push(Seq::empty()));
        assert(x =~= Seq::<char>::empty());
    } else {
        let y = x.drop_last();
        assert(no_slash(y));
        lemma_path_segments_push(s, y);
        assert(t.drop_last() =~= s + seq!['/'] + y);
        assert(t.last() == x.last());
        let front = split_on(s + seq!['/'] + y, '/');
        assert(front == path_segments(s).push(y));
        assert(split_on(t, '/') == front.update(front.len() - 1, front.last().push(x.last())));
        assert(y.push(x.last()) =~= x);
        assert(front.update(front.len() - 1, x) =~= path_segments(s).push(x));
    }
}

proof fn lemma_supplier_path()
    ensures
        path_segments("/api/supplier"@) == seq![Seq::<char>::empty(), "api"@, "supplier"@],
{
    lemma_route_names_differ();
    reveal_strlit("/api/supplier");
    let e = Seq::<char>::empty();
    assert("/api/supplier"@ =~= (e + seq!['/'] + "api"@) + seq!['/'] + "supplier"@);
    assert(path_segments(e) =~= seq![e]);
    lemma_path_segments_push(e, "api"@);
    lemma_path_segments_push(e + seq!['/'] + "api"@, "supplier"@);
    assert(seq![e].push("api"@).push("supplier"@) =~= seq![e, "api"@, "supplier"@]);
}

/// Over whole paths: every registered route with a wildcard captures exactly
/// the segment written at the wildcard's position. Below `supplier/{}` that
/// segment must not be one of the literal siblings `id` and `rep`.
pub proof fn lemma_wildcard_paths_capture(x: Seq<char>)
    requires
        no_slash(x),
    ensures
        x != "id"@ && x != "rep"@ ==> resolve_path(api_tree_model(), "/api/supplier"@ + seq!['/'] + x)
            == Route::Found(QueryKind::GETSupplierFromId, seq![x]),
        x != "id"@ && x != "rep"@ ==> resolve_path(
            api_tree_model(),
            "/api/supplier"@ + seq!['/'] + x + seq!['/'] + "name"@,
        ) == Route::Found(QueryKind::GETSupplierNameFromId, seq![x]),
        x != "id"@ && x != "rep"@ ==> resolve_path(
            api_tree_model(),
            "/api/supplier"@ + seq!['/'] + x + seq!['/'] + "address"@,
        ) == Route::Found(QueryKind::GETSupplierAddressFromId, seq![x]),
        x != "id"@ && x != "rep"@ ==> resolve_path(
            api_tree_model(),
            "/api/supplier"@ + seq!['/'] + x + seq!['/'] + "rep"@,
        ) == Route::Found(QueryKind::GETSupplierRepFromId, seq![x]),
        x != "id"@ && x != "rep"@ ==> resolve_path(
            api_tree_model(),
            "/api/supplier"@ + seq!['/'] + x + seq!['/'] + "categories"@,
        ) == Route::Found(QueryKind::GETSupplierCategoriesFromId, seq![x]),
        resolve_path(api_tree_model(), "/api/supplier"@ + seq!['/'] + "id"@ + seq!['/'] + x)
            == Route::Found(QueryKind::GETSupplierIdFromName, seq![x]),
        resolve_path(api_tree_model(), "/api/supplier"@ + seq!['/'] + "rep"@ + seq!['/'] + x)
            == Route::Found(QueryKind::GETSupplyRepFromId, seq![x]),
        resolve_path(
            api_tree_model(),
            "/api/supplier"@ + seq!['/'] + "rep"@ + seq!['/'] + x + seq!['/'] + "numbers"@,
        ) == Route::Found(QueryKind::GETSupplyRepPhoneNumbersFromId, seq![x]),
        resolve_path(
            api_tree_model(),
            "/api/supplier"@ + seq!['/'] + "rep"@ + seq!['/'] + x + seq!['/'] + "email"@,
        ) == Route::Found(QueryKind::GETSupplyRepEmailFromId, seq![x]),
{
    lemma_route_names_differ();
    reveal_strlit("numbers");
    reveal_strlit("email");
    assert("numbers"@ =~= seq!['n', 'u', 'm', 'b', 'e', 'r', 's']);
    assert("email"@ =~= seq!['e', 'm', 'a', 'i', 'l']);
    lemma_supplier_path();
    let base = "/api/supplier"@;
    let bs = seq![Seq::<char>::empty(), "api"@, "supplier"@];
    lemma_path_segments_push(base, x);
    let bx = base + seq!['/'] + x;
    assert(no_slash("name"@) && no_slash("address"@) && no_slash("rep"@) && no_slash("categories"@));
    assert(no_slash("numbers"@) && no_slash("email"@) && no_slash("id"@));
    lemma_path_segments_push(bx, "name"@);
    lemma_path_segments_push(bx, "address"@);
    lemma_path_segments_push(bx, "rep"@);
    lemma_path_segments_push(bx, "categories"@);
    lemma_path_segments_push(base, "id"@);
    lemma_path_segments_push(base + seq!['/'] + "id"@, x);
    lemma_path_segments_push(base, "rep"@);
    let br = base + seq!['/'] + "rep"@;
    lemma_path_segments_push(br, x);
    lemma_path_segments_push(br + seq!['/'] + x, "numbers"@);
    lemma_path_segments_push(br + seq!['/'] + x, "email"@);
    assert(bs.push(x) =~= seq![Seq::empty(), "api"@, "supplier"@, x]);
    assert(bs.push(x).push("name"@) =~= seq![Seq::empty(), "api"@, "supplier"@, x, "name"@]);
    assert(bs.push(x).push("address"@) =~= seq![Seq::empty(), "api"@, "supplier"@, x, "address"@]);
    assert(bs.push(x).push("rep"@) =~= seq![Seq::empty(), "api"@, "supplier"@, x, "rep"@]);
    assert(bs.push(x).push("categories"@) =~= seq![Seq::empty(), "api"@, "supplier"@, x, "categories"@]);
    assert(bs.push("id"@).push(x) =~= seq![Seq::empty(), "api"@, "supplier"@, "id"@, x]);
    assert(bs.push("rep"@).push(x) =~= seq![Seq::empty(), "api"@, "supplier"@, "rep"@, x]);
    assert(bs.push("rep"@).push(x).push("numbers"@) =~= seq![Seq::empty(), "api"@, "supplier"@, "rep"@, x, "numbers"@]);
    assert(bs.push("rep"@).push(x).push("email"@) =~= seq![Seq::empty(), "api"@, "supplier"@, "rep"@, x, "email"@]);
    if x != "id"@ && x != "rep"@ {
        lemma_wildcard_routes_capture(x);
    }
    lemma_named_wildcard_routes_capture(x);
}

} // verus!
