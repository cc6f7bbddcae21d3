//! Run order of several programs: dependencies first, by a depth-first walk kept
//! on an explicit stack. The walk asks its caller to load each dependency file
//! and goes on with whatever came back.
use vstd::prelude::*;
use crate::parser::{Program, ProgramView};
use crate::text::same_text;

verus! {

/// Where a dependency reference points: an absolute reference as it is, a relative
/// one joined to the base directory.
pub open spec fn resolved(base: Seq<char>, dep: Seq<char>) -> Seq<char> {
    if dep.len() > 0 && dep[0] == '/' {
        dep
    } else if base.len() == 0 {
        dep
    } else if base.last() == '/' {
        base + dep
    } else {
        base + seq!['/'] + dep
    }
}

/// The path of the file that `dep` names, relative references being taken from `base`.
pub fn resolve_path(base: &String, dep: &String) -> (r: String)
    ensures
        r@ == resolved(base@, dep@),
{
    let d = dep.as_str();
    let b = base.as_str();
    let dn = d.unicode_len();
    let bn = b.unicode_len();
    if dn > 0 && d.get_char(0) == '/' {
        dep.clone()
    } else if bn == 0 {
        dep.clone()
    } else if b.get_char(bn - 1) == '/' {
        base.clone().concat(d)
    } else {
        let r = base.clone().concat("/").concat(d);
        proof {
            reveal_strlit("/");
        }
        assert(r@ =~= base@ + seq!['/'] + dep@);
        r
    }
}

pub open spec fn names_of(ps: Seq<Program>) -> Seq<Seq<char>> {
    ps.map_values(|p: Program| p.name@)
}

pub open spec fn distinct(s: Seq<Seq<char>>) -> bool {
    forall|i: int, j: int| 0 <= i < j < s.len() ==> s[i] != s[j]
}

pub open spec fn disjoint(a: Seq<Seq<char>>, b: Seq<Seq<char>>) -> bool {
    forall|i: int, j: int| 0 <= i < a.len() && 0 <= j < b.len() ==> a[i] != b[j]
}

/// Some entry before position `i` of `o` is `d`.
pub open spec fn comes_before(o: Seq<Seq<char>>, d: Seq<char>, i: int) -> bool {
    exists|j: int| 0 <= j < i && o[j] == d
}

/// Some entry after position `k` of `s` is `d`.
pub open spec fn above(s: Seq<Seq<char>>, k: int, d: Seq<char>) -> bool {
    exists|k2: int| k < k2 < s.len() && s[k2] == d
}

/// What holds of a loaded dependency edge `e` (declarer, dependency) while the walk
/// goes on, with `o` the names placed so far and `s` the names on the current path.
pub open spec fn edge_ok(o: Seq<Seq<char>>, s: Seq<Seq<char>>, e: (Seq<char>, Seq<char>)) -> bool {
    &&& (s.contains(e.0) || o.contains(e.0))
    &&& forall|k: int| 0 <= k < s.len() && #[trigger] s[k] == e.0 ==> o.contains(e.1) || above(s, k, e.1)
    &&& forall|i: int| 0 <= i < o.len() && #[trigger] o[i] == e.0 ==> comes_before(o, e.1, i)
}

pub open spec fn edges_ok(
    o: Seq<Seq<char>>,
    s: Seq<Seq<char>>,
    edges: Seq<(Seq<char>, Seq<char>)>,
) -> bool {
    forall|x: int| 0 <= x < edges.len() ==> edge_ok(o, s, #[trigger] edges[x])
}

/// `x` is a root's name or the name of a dependency that was loaded.
pub open spec fn reached(
    roots: Seq<Seq<char>>,
    edges: Seq<(Seq<char>, Seq<char>)>,
    x: Seq<char>,
) -> bool {
    roots.contains(x) || exists|k: int| 0 <= k < edges.len() && edges[k].1 == x
}

/// Every name of `names` was reached.
pub open spec fn all_reached(
    roots: Seq<Seq<char>>,
    edges: Seq<(Seq<char>, Seq<char>)>,
    names: Seq<Seq<char>>,
) -> bool {
    forall|i: int| 0 <= i < names.len() ==> reached(roots, edges, #[trigger] names[i])
}

/// A program on the walk's path, with the index of its next dependency reference.
pub struct Frame {
    program: Program,
    next: usize,
}

/// What the walk needs next. `S` is the type of its texts: `String` in programs,
/// `Seq<char>` in specifications.
#[derive(Debug)]
pub enum Request<S> {
    /// Load and read the script at this path, and hand the program (or none, when
    /// it cannot be had) to the next `step`.
    Load(S),
    /// This program was reached again from its own dependencies.
    Cycle(S),
    /// The run order is complete.
    Finished,
}

impl View for Request<String> {
    type V = Request<Seq<char>>;

    open spec fn view(&self) -> Request<Seq<char>> {
        match self {
            Request::Load(p) => Request::Load(p@),
            Request::Cycle(n) => Request::Cycle(n@),
            Request::Finished => Request::Finished,
        }
    }
}

/// A program on the path and the index of its next dependency reference.
#[verifier::ext_equal]
pub struct FrameView {
    pub program: ProgramView,
    pub next: nat,
}

/// The state of a resolution: the base directory, the roots still to visit (the
/// last one next), the path (outermost first), the order so far, whether a load
/// was asked for, the cycle found if any, each dependency that was loaded as
/// (name of the declarer, name of the dependency), and the names of the roots.
#[verifier::ext_equal]
pub struct ResolverView {
    pub base: Seq<char>,
    pub pending: Seq<ProgramView>,
    pub stack: Seq<FrameView>,
    pub order: Seq<ProgramView>,
    pub awaiting: bool,
    pub cycle: Option<Seq<char>>,
    pub edges: Seq<(Seq<char>, Seq<char>)>,
    pub roots: Seq<Seq<char>>,
}

pub open spec fn view_names(ps: Seq<ProgramView>) -> Seq<Seq<char>> {
    ps.map_values(|p: ProgramView| p.name)
}

pub open spec fn stack_names(fs: Seq<FrameView>) -> Seq<Seq<char>> {
    fs.map_values(|f: FrameView| f.program.name)
}

pub open spec fn option_view(o: Option<Program>) -> Option<ProgramView> {
    match o {
        Some(p) => Some(p@),
        None => None,
    }
}

/// The state a resolution of `roots` starts from.
pub open spec fn initial(base: Seq<char>, roots: Seq<Program>) -> ResolverView {
    ResolverView {
        base,
        pending: Seq::new(roots.len(), |i: int| roots[roots.len() - 1 - i]@),
        stack: seq![],
        order: seq![],
        awaiting: false,
        cycle: None,
        edges: seq![],
        roots: names_of(roots),
    }
}

/// Takes in the answer to a load request. A loaded program records an edge from
/// the program on top of the path; its name on the path is a cycle, a name
/// already placed changes nothing more, and a new name goes on the path.
/// Without a pending request, or after a cycle, the answer is ignored.
pub open spec fn absorb(v: ResolverView, loaded: Option<ProgramView>) -> ResolverView {
    if v.cycle is Some || !v.awaiting {
        v
    } else {
        match loaded {
            None => ResolverView { awaiting: false, ..v },
            Some(p) => {
                let v2 = ResolverView {
                    awaiting: false,
                    edges: v.edges.push((stack_names(v.stack).last(), p.name)),
                    ..v
                };
                if stack_names(v.stack).contains(p.name) {
                    ResolverView { cycle: Some(p.name), ..v2 }
                } else if view_names(v.order).contains(p.name) {
                    v2
                } else {
                    ResolverView { stack: v.stack.push(FrameView { program: p, next: 0 }), ..v2 }
                }
            },
        }
    }
}

/// Walks on until a file is needed, a cycle was found, or all is placed: the
/// program on top of the path asks for its next declared reference; when it has
/// none left it leaves the path and is appended to the order; with the path
/// empty the next root goes on it, unless its name is already placed.
pub open spec fn advance(v: ResolverView) -> (ResolverView, Request<Seq<char>>)
    decreases 2 * v.pending.len() + v.stack.len(),
{
    if v.cycle is Some {
        (v, Request::Cycle(v.cycle->0))
    } else if v.stack.len() > 0 {
        let f = v.stack.last();
        if f.next < f.program.depends.len() {
            (
                ResolverView {
                    stack: v.stack.update(v.stack.len() - 1, FrameView { next: f.next + 1, ..f }),
                    awaiting: true,
                    ..v
                },
                Request::Load(resolved(v.base, f.program.depends[f.next as int])),
            )
        } else {
            advance(ResolverView { stack: v.stack.drop_last(), order: v.order.push(f.program), ..v })
        }
    } else if v.pending.len() > 0 {
        let p = v.pending.last();
        let rest = ResolverView { pending: v.pending.drop_last(), ..v };
        if view_names(v.order).contains(p.name) {
            advance(rest)
        } else {
            advance(ResolverView { stack: v.stack.push(FrameView { program: p, next: 0 }), ..rest })
        }
    } else {
        (v, Request::Finished)
    }
}

/// One step of a resolution: the answer taken in, then the walk advanced.
pub open spec fn step_spec(v: ResolverView, loaded: Option<ProgramView>) -> (
    ResolverView,
    Request<Seq<char>>,
) {
    advance(absorb(v, loaded))
}

/// The state of one resolution: the base directory, the roots not yet visited,
/// the path, the order so far, and whether a load is awaited or a cycle was found.
pub struct Resolver {
    base: String,
    pending: Vec<Program>,
    stack: Vec<Frame>,
    order: Vec<Program>,
    awaiting: bool,
    cycle: Option<String>,
    edges: Ghost<Seq<(Seq<char>, Seq<char>)>>,
    roots: Ghost<Seq<Seq<char>>>,
}

impl View for Resolver {
    type V = ResolverView;

    closed spec fn view(&self) -> ResolverView {
        ResolverView {
            base: self.base@,
            pending: self.pending@.map_values(|p: Program| p@),
            stack: self.stack@.map_values(|f: Frame| FrameView { program: f.program@, next: f.next as nat }),
            order: self.order@.map_values(|p: Program| p@),
            awaiting: self.awaiting,
            cycle: match self.cycle {
                Some(n) => Some(n@),
                None => None,
            },
            edges: self.edges@,
            roots: self.roots@,
        }
    }
}

impl Resolver {
    /// The accessors agree with the view.
    pub proof fn lemma_view(&self)
        ensures
            self.base() == self@.base,
            self.order_names() == view_names(self@.order),
            self.path_names() == stack_names(self@.stack),
            self.pending_names() == view_names(self@.pending),
            self.root_names() == self@.roots,
            self.loaded_edges() == self@.edges,
            self.failed() == self@.cycle is Some,
            self.awaiting() == self@.awaiting,
            self.finished() == (self@.stack.len() == 0 && self@.pending.len() == 0 && !self@.awaiting
                && self@.cycle is None),
    {
        assert(self.order_names() =~= view_names(self@.order));
        assert(self.path_names() =~= stack_names(self@.stack));
        assert(self.pending_names() =~= view_names(self@.pending));
    }

    pub closed spec fn base(&self) -> Seq<char> {
        self.base@
    }

    /// The names of the programs of the order, in order.
    pub closed spec fn order_names(&self) -> Seq<Seq<char>> {
        names_of(self.order@)
    }

    /// The names of the programs on the current path, outermost first.
    pub closed spec fn path_names(&self) -> Seq<Seq<char>> {
        self.stack@.map_values(|f: Frame| f.program.name@)
    }

    pub closed spec fn pending_names(&self) -> Seq<Seq<char>> {
        names_of(self.pending@)
    }

    /// The names of the programs that the resolution started from.
    pub closed spec fn root_names(&self) -> Seq<Seq<char>> {
        self.roots@
    }

    /// Each dependency that was loaded, as (name of the declarer, name of the dependency).
    pub closed spec fn loaded_edges(&self) -> Seq<(Seq<char>, Seq<char>)> {
        self.edges@
    }

    pub closed spec fn failed(&self) -> bool {
        self.cycle is Some
    }

    pub closed spec fn awaiting(&self) -> bool {
        self.awaiting
    }

    pub closed spec fn finished(&self) -> bool {
        &&& self.stack@.len() == 0
        &&& self.pending@.len() == 0
        &&& !self.awaiting
        &&& self.cycle is None
    }

    /// The dependency reference most recently asked for.
    pub closed spec fn requested(&self) -> Seq<char> {
        let f = self.stack@.last();
        f.program.depends@[f.next - 1]@
    }

    pub closed spec fn wf(&self) -> bool {
        &&& distinct(self.order_names())
        &&& distinct(self.path_names())
        &&& disjoint(self.path_names(), self.order_names())
        &&& forall|k: int|
            0 <= k < self.stack@.len() ==> (#[trigger] self.stack@[k]).next
                <= self.stack@[k].program.depends@.len()
        &&& self.awaiting ==> self.stack@.len() > 0 && self.stack@.last().next > 0
        &&& all_reached(self.roots@, self.edges@, self.order_names())
        &&& all_reached(self.roots@, self.edges@, self.path_names())
        &&& forall|x: int|
            0 <= x < self.pending@.len() ==> self.roots@.contains(
                (#[trigger] self.pending@[x]).name@,
            )
        &&& self.cycle is None ==> edges_ok(self.order_names(), self.path_names(), self.edges@)
        &&& self.cycle is None ==> forall|x: int|
            0 <= x < self.roots@.len() ==> self.order_names().contains(#[trigger] self.roots@[x])
                || self.path_names().contains(self.roots@[x]) || self.pending_names().contains(
                self.roots@[x],
            )
    }

    /// Starts a resolution of `roots`, in their order, with relative references
    /// taken from `base`.
    pub fn new(base: String, roots: Vec<Program>) -> (r: Resolver)
        ensures
            r.wf(),
            r@ == initial(base@, roots@),
            r.base() == base@,
            r.root_names() == names_of(roots@),
            r.order_names().len() == 0,
            r.loaded_edges().len() == 0,
            !r.failed(),
            !r.awaiting(),
    {
        let ghost names = names_of(roots@);
        let ghost orig = roots@;
        let mut roots = roots;
        let mut pending: Vec<Program> = Vec::new();
        while roots.len() > 0
            invariant
                names == names_of(orig),
                roots@ == orig.subrange(0, roots@.len() as int),
                forall|x: int| 0 <= x < pending@.len() ==> pending@[x] == orig[orig.len() - 1 - x],
                names.len() == roots@.len() + pending@.len(),
                forall|x: int| 0 <= x < roots@.len() ==> names[x] == (#[trigger] roots@[x]).name@,
                forall|x: int|
                    0 <= x < pending@.len() ==> names[names.len() - 1 - x] == (
                    #[trigger] pending@[x]).name@,
            decreases roots.len(),
        {
            let ghost before = roots@;
            let p = roots.pop().unwrap();
            assert(roots@ =~= orig.subrange(0, roots@.len() as int)) by {
                assert(roots@ =~= before.drop_last());
            }
            pending.push(p);
        }
        let ghost no_edges: Seq<(Seq<char>, Seq<char>)> = seq![];
        let r = Resolver {
            base,
            pending,
            stack: Vec::new(),
            order: Vec::new(),
            awaiting: false,
            cycle: None,
            edges: Ghost(no_edges),
            roots: Ghost(names),
        };
        assert forall|x: int| 0 <= x < names.len() implies r.pending_names().contains(
            #[trigger] names[x],
        ) by {
            assert(r.pending_names()[names.len() - 1 - x] == names[x]);
        }
        assert forall|x: int| 0 <= x < r.pending@.len() implies names.contains(
            (#[trigger] r.pending@[x]).name@,
        ) by {
            assert(names[names.len() - 1 - x] == r.pending@[x].name@);
        }
        assert(r@ =~= initial(r.base@, orig));
        r
    }

    /// Whether a program of this name is on the path.
    fn on_path(&self, name: &String) -> (r: bool)
        ensures
            r == self.path_names().contains(name@),
    {
        let mut i: usize = 0;
        while i < self.stack.len()
            invariant
                i <= self.stack@.len(),
                forall|j: int| 0 <= j < i ==> self.path_names()[j] != name@,
            decreases self.stack@.len() - i,
        {
            if same_text(self.stack[i].program.name.as_str(), name.as_str()) {
                assert(self.path_names()[i as int] == name@);
                return true;
            }
            i = i + 1;
        }
        false
    }

    /// Whether a program of this name is already in the order.
    fn placed(&self, name: &String) -> (r: bool)
        ensures
            r == self.order_names().contains(name@),
    {
        let mut i: usize = 0;
        while i < self.order.len()
            invariant
                i <= self.order@.len(),
                forall|j: int| 0 <= j < i ==> self.order_names()[j] != name@,
            decreases self.order@.len() - i,
        {
            if same_text(self.order[i].name.as_str(), name.as_str()) {
                assert(self.order_names()[i as int] == name@);
                return true;
            }
            i = i + 1;
        }
        false
    }

    /// Advances the walk. `loaded` answers the previous `Load` request (the program
    /// read from that file, or none when it could not be loaded or read: that
    /// edge is then skipped); it is ignored when no load was asked for.
    pub fn step(&mut self, loaded: Option<Program>) -> (r: Request<String>)
        requires
            old(self).wf(),
        ensures
            final(self).wf(),
            (final(self)@, r@) == step_spec(old(self)@, option_view(loaded)),
            final(self).base() == old(self).base(),
            final(self).root_names() == old(self).root_names(),
            old(self).order_names().len() <= final(self).order_names().len(),
            final(self).order_names().subrange(0, old(self).order_names().len() as int)
                == old(self).order_names(),
            old(self).loaded_edges().len() <= final(self).loaded_edges().len(),
            final(self).loaded_edges().subrange(0, old(self).loaded_edges().len() as int)
                == old(self).loaded_edges(),
            old(self).failed() ==> final(self).failed() && r is Cycle,
            match r {
                Request::Load(path) => final(self).awaiting() && !final(self).failed() && path@
                    == resolved(old(self).base(), final(self).requested()),
                Request::Cycle(name) => final(self).failed() && (old(self).failed()
                    || old(self).path_names().contains(name@)),
                Request::Finished => final(self).finished(),
            },
    {
        let ghost absorbed = absorb(old(self)@, option_view(loaded));
        proof {
            old(self).lemma_view();
        }
        if self.cycle.is_some() {
            let name = self.cycle.clone().unwrap();
            return Request::Cycle(name);
        }
        if self.awaiting {
            self.awaiting = false;
            if let Some(p) = loaded {
                let ghost o = self.order_names();
                let ghost s = self.path_names();
                let ghost e = (s.last(), p.name@);
                proof {
                    lemma_reached_grow(self.roots@, self.edges@, e, o);
                    lemma_reached_grow(self.roots@, self.edges@, e, s);
                }
                if self.on_path(&p.name) {
                    let ghost grown = self.edges@.push(e);
                    self.edges = Ghost(grown);
                    let name = p.name.clone();
                    self.cycle = Some(p.name);
                    assert(self@ =~= absorbed);
                    return Request::Cycle(name);
                }
                if self.placed(&p.name) {
                    let ghost grown = self.edges@.push(e);
                    self.edges = Ghost(grown);
                    proof {
                        lemma_add_edge(o, s, old(self).edges@, p.name@);
                    }
                    assert(self@ =~= absorbed);
                } else {
                    let ghost d = p.name@;
                    self.stack.push(Frame { program: p, next: 0 });
                    assert(self.path_names() =~= s.push(d));
                    let ghost grown = self.edges@.push(e);
                    self.edges = Ghost(grown);
                    proof {
                        assert(self.edges@[self.edges@.len() - 1].1 == d);
                        assert(reached(self.roots@, self.edges@, d));
                        assert(all_reached(self.roots@, self.edges@, s.push(d))) by {
                            assert forall|k: int| 0 <= k < s.push(d).len() implies reached(
                                self.roots@,
                                self.edges@,
                                #[trigger] s.push(d)[k],
                            ) by {
                                if k < s.len() {
                                    assert(s.push(d)[k] == s[k]);
                                }
                            }
                        }
                        lemma_push_frame(o, s, old(self).edges@, d);
                        lemma_add_edge_above(o, s, old(self).edges@, d);
                        lemma_roots_push(self.roots@, o, s, self.pending_names(), d);
                    }
                    assert(self@ =~= absorbed);
                }
            }
        }
        assert(self.cycle is None);
        assert(self@ =~= absorbed);
        loop
            invariant
                self.wf(),
                absorbed == absorb(old(self)@, option_view(loaded)),
                advance(self@) == advance(absorbed),
                self.cycle is None,
                old(self).cycle is None,
                !self.awaiting,
                self.base@ == old(self).base@,
                self.roots@ == old(self).roots@,
                old(self).order_names().len() <= self.order_names().len(),
                self.order_names().subrange(0, old(self).order_names().len() as int)
                    == old(self).order_names(),
                old(self).loaded_edges().len() <= self.loaded_edges().len(),
                self.loaded_edges().subrange(0, old(self).loaded_edges().len() as int)
                    == old(self).loaded_edges(),
            decreases 2 * self.pending@.len() + self.stack@.len(),
        {
            let ghost prev = self@;
            proof {
                self.lemma_view();
            }
            if self.stack.len() > 0 {
                let top = self.stack.len() - 1;
                let next = self.stack[top].next;
                if next < self.stack[top].program.depends.len() {
                    let path = resolve_path(&self.base, &self.stack[top].program.depends[next]);
                    let ghost s = self.path_names();
                    let mut f = self.stack.pop().unwrap();
                    f.next = next + 1;
                    self.stack.push(f);
                    assert(self.path_names() =~= s);
                    self.awaiting = true;
                    assert(self@ =~= advance(prev).0);
                    return Request::Load(path);
                }
                let ghost o = self.order_names();
                let ghost s = self.path_names();
                let f = self.stack.pop().unwrap();
                self.order.push(f.program);
                assert(self.order_names() =~= o.push(s.last()));
                assert(self.path_names() =~= s.drop_last());
                proof {
                    assert(reached(self.roots@, self.edges@, s[s.len() - 1]));
                    assert forall|i: int| 0 <= i < o.push(s.last()).len() implies reached(
                        self.roots@,
                        self.edges@,
                        #[trigger] o.push(s.last())[i],
                    ) by {
                        if i < o.len() {
                            assert(o.push(s.last())[i] == o[i]);
                        }
                    }
                    assert forall|k: int| 0 <= k < s.drop_last().len() implies reached(
                        self.roots@,
                        self.edges@,
                        #[trigger] s.drop_last()[k],
                    ) by {
                        assert(s.drop_last()[k] == s[k]);
                    }
                    lemma_pop_frame(o, s, self.edges@);
                    lemma_roots_pop(self.roots@, o, s, self.pending_names());
                }
                assert(self@ =~= ResolverView {
                    stack: prev.stack.drop_last(),
                    order: prev.order.push(prev.stack.last().program),
                    ..prev
                });
            } else if self.pending.len() > 0 {
                let ghost o = self.order_names();
                let ghost pn = self.pending_names();
                let p = self.pending.pop().unwrap();
                assert(self.pending_names() =~= pn.drop_last());
                assert(p.name@ == pn.last());
                assert(self.roots@.contains(p.name@));
                if !self.placed(&p.name) {
                    let ghost d = p.name@;
                    self.stack.push(Frame { program: p, next: 0 });
                    assert(self.path_names() =~= seq![d]);
                    assert(self.path_names()[0] == d);
                    assert(reached(self.roots@, self.edges@, d));
                    proof {
                        lemma_push_frame(o, seq![], self.edges@, d);
                        assert(seq![].push(d) =~= seq![d]);
                    }
                }
                proof {
                    lemma_roots_visit(self.roots@, o, self.path_names(), pn);
                }
                let ghost rest = ResolverView { pending: prev.pending.drop_last(), ..prev };
                assert(self@ =~= (if view_names(prev.order).contains(prev.pending.last().name) {
                    rest
                } else {
                    ResolverView {
                        stack: prev.stack.push(FrameView { program: prev.pending.last(), next: 0 }),
                        ..rest
                    }
                }));
            } else {
                return Request::Finished;
            }
        }
    }

    /// The run order: every program after the programs it depends on.
    pub fn into_order(self) -> (r: Vec<Program>)
        ensures
            r@.map_values(|p: Program| p@) == self@.order,
            names_of(r@) == self.order_names(),
    {
        self.order
    }
}

proof fn lemma_reached_grow(
    roots: Seq<Seq<char>>,
    edges: Seq<(Seq<char>, Seq<char>)>,
    e: (Seq<char>, Seq<char>),
    names: Seq<Seq<char>>,
)
    requires
        all_reached(roots, edges, names),
    ensures
        all_reached(roots, edges.push(e), names),
{
    assert forall|i: int| 0 <= i < names.len() implies reached(
        roots,
        edges.push(e),
        #[trigger] names[i],
    ) by {
        assert(reached(roots, edges, names[i]));
        if !roots.contains(names[i]) {
            let k = choose|k: int| 0 <= k < edges.len() && edges[k].1 == names[i];
            assert(edges.push(e)[k] == edges[k]);
        }
    }
}

proof fn lemma_push_frame(
    o: Seq<Seq<char>>,
    s: Seq<Seq<char>>,
    edges: Seq<(Seq<char>, Seq<char>)>,
    d: Seq<char>,
)
    requires
        edges_ok(o, s, edges),
        !s.contains(d),
        !o.contains(d),
    ensures
        edges_ok(o, s.push(d), edges),
{
    let s2 = s.push(d);
    assert forall|x: int| 0 <= x < edges.len() implies edge_ok(o, s2, #[trigger] edges[x]) by {
        let e = edges[x];
        assert(edge_ok(o, s, e));
        if s.contains(e.0) {
            let k = choose|k: int| 0 <= k < s.len() && s[k] == e.0;
            assert(s2[k] == e.0);
        }
        assert forall|k: int| 0 <= k < s2.len() && #[trigger] s2[k] == e.0 implies o.contains(e.1)
            || above(s2, k, e.1) by {
            if k < s.len() {
                assert(s[k] == e.0);
                if !o.contains(e.1) {
                    let k2 = choose|k2: int| k < k2 < s.len() && s[k2] == e.1;
                    assert(s2[k2] == e.1);
                }
            } else {
                assert(s2[k] == d);
                if s.contains(e.0) {
                } else {
                    assert(o.contains(e.0));
                }
            }
        }
    }
}

proof fn lemma_add_edge(
    o: Seq<Seq<char>>,
    s: Seq<Seq<char>>,
    edges: Seq<(Seq<char>, Seq<char>)>,
    d: Seq<char>,
)
    requires
        edges_ok(o, s, edges),
        s.len() > 0,
        distinct(s),
        disjoint(s, o),
        o.contains(d),
    ensures
        edges_ok(o, s, edges.push((s.last(), d))),
{
    let e = (s.last(), d);
    let e2 = edges.push(e);
    assert(s[s.len() - 1] == e.0);
    assert forall|i: int| 0 <= i < o.len() && #[trigger] o[i] == e.0 implies comes_before(
        o,
        e.1,
        i,
    ) by {
        assert(s[s.len() - 1] != o[i]);
    }
    assert(edge_ok(o, s, e));
    assert forall|x: int| 0 <= x < e2.len() implies edge_ok(o, s, #[trigger] e2[x]) by {
        if x < edges.len() {
            assert(e2[x] == edges[x]);
        }
    }
}

proof fn lemma_add_edge_above(
    o: Seq<Seq<char>>,
    s: Seq<Seq<char>>,
    edges: Seq<(Seq<char>, Seq<char>)>,
    d: Seq<char>,
)
    requires
        edges_ok(o, s.push(d), edges),
        s.len() > 0,
        distinct(s),
        disjoint(s, o),
        !s.contains(d),
    ensures
        edges_ok(o, s.push(d), edges.push((s.last(), d))),
{
    let s2 = s.push(d);
    let e = (s.last(), d);
    let e2 = edges.push(e);
    assert(s2[s.len() - 1] == e.0);
    assert forall|k: int| 0 <= k < s2.len() && #[trigger] s2[k] == e.0 implies o.contains(e.1)
        || above(s2, k, e.1) by {
        if k == s.len() {
            assert(s.contains(d)) by {
                assert(s[s.len() - 1] == d);
            }
        }
        assert(s2[s.len() as int] == d);
    }
    assert forall|i: int| 0 <= i < o.len() && #[trigger] o[i] == e.0 implies comes_before(
        o,
        e.1,
        i,
    ) by {
        assert(s[s.len() - 1] != o[i]);
    }
    assert(edge_ok(o, s2, e));
    assert forall|x: int| 0 <= x < e2.len() implies edge_ok(o, s2, #[trigger] e2[x]) by {
        if x < edges.len() {
            assert(e2[x] == edges[x]);
        }
    }
}

proof fn lemma_pop_frame(o: Seq<Seq<char>>, s: Seq<Seq<char>>, edges: Seq<(Seq<char>, Seq<char>)>)
    requires
        edges_ok(o, s, edges),
        s.len() > 0,
        distinct(s),
    ensures
        edges_ok(o.push(s.last()), s.drop_last(), edges),
{
    let p = s.last();
    let o2 = o.push(p);
    let s2 = s.drop_last();
    let top = s.len() - 1;
    assert forall|x: int| 0 <= x < edges.len() implies edge_ok(o2, s2, #[trigger] edges[x]) by {
        let e = edges[x];
        assert(edge_ok(o, s, e));
        if o.contains(e.1) {
            let j = choose|j: int| 0 <= j < o.len() && o[j] == e.1;
            assert(o2[j] == e.1);
        }
        if s.contains(e.0) {
            let k = choose|k: int| 0 <= k < s.len() && s[k] == e.0;
            if k < top {
                assert(s2[k] == e.0);
            } else {
                assert(o2[o.len() as int] == e.0);
            }
        } else {
            let i = choose|i: int| 0 <= i < o.len() && o[i] == e.0;
            assert(o2[i] == e.0);
        }
        assert forall|k: int| 0 <= k < s2.len() && #[trigger] s2[k] == e.0 implies o2.contains(
            e.1,
        ) || above(s2, k, e.1) by {
            assert(s[k] == e.0);
            if !o.contains(e.1) {
                let k2 = choose|k2: int| k < k2 < s.len() && s[k2] == e.1;
                if k2 < top {
                    assert(s2[k2] == e.1);
                } else {
                    assert(o2[o.len() as int] == e.1);
                }
            }
        }
        assert forall|i: int| 0 <= i < o2.len() && #[trigger] o2[i] == e.0 implies comes_before(
            o2,
            e.1,
            i,
        ) by {
            if i < o.len() {
                assert(o[i] == e.0);
                let j = choose|j: int| 0 <= j < i && o[j] == e.1;
                assert(o2[j] == e.1);
            } else {
                assert(s[top] == e.0);
                assert(!above(s, top, e.1));
                let j = choose|j: int| 0 <= j < o.len() && o[j] == e.1;
                assert(o2[j] == e.1);
            }
        }
    }
}

proof fn lemma_roots_push(
    roots: Seq<Seq<char>>,
    o: Seq<Seq<char>>,
    s: Seq<Seq<char>>,
    pn: Seq<Seq<char>>,
    d: Seq<char>,
)
    requires
        forall|x: int|
            0 <= x < roots.len() ==> o.contains(#[trigger] roots[x]) || s.contains(roots[x])
                || pn.contains(roots[x]),
    ensures
        forall|x: int|
            0 <= x < roots.len() ==> o.contains(#[trigger] roots[x]) || s.push(d).contains(roots[x])
                || pn.contains(roots[x]),
{
    assert forall|x: int| 0 <= x < roots.len() implies o.contains(#[trigger] roots[x]) || s.push(
        d,
    ).contains(roots[x]) || pn.contains(roots[x]) by {
        if s.contains(roots[x]) {
            let k = choose|k: int| 0 <= k < s.len() && s[k] == roots[x];
            assert(s.push(d)[k] == roots[x]);
        }
    }
}

proof fn lemma_roots_pop(roots: Seq<Seq<char>>, o: Seq<Seq<char>>, s: Seq<Seq<char>>, pn: Seq<Seq<char>>)
    requires
        s.len() > 0,
        forall|x: int|
            0 <= x < roots.len() ==> o.contains(#[trigger] roots[x]) || s.contains(roots[x])
                || pn.contains(roots[x]),
    ensures
        forall|x: int|
            0 <= x < roots.len() ==> o.push(s.last()).contains(#[trigger] roots[x])
                || s.drop_last().contains(roots[x]) || pn.contains(roots[x]),
{
    assert forall|x: int| 0 <= x < roots.len() implies o.push(s.last()).contains(
        #[trigger] roots[x],
    ) || s.drop_last().contains(roots[x]) || pn.contains(roots[x]) by {
        if o.contains(roots[x]) {
            let j = choose|j: int| 0 <= j < o.len() && o[j] == roots[x];
            assert(o.push(s.last())[j] == roots[x]);
        } else if s.contains(roots[x]) {
            let k = choose|k: int| 0 <= k < s.len() && s[k] == roots[x];
            if k < s.len() - 1 {
                assert(s.drop_last()[k] == roots[x]);
            } else {
                assert(o.push(s.last())[o.len() as int] == roots[x]);
            }
        }
    }
}

proof fn lemma_roots_visit(
    roots: Seq<Seq<char>>,
    o: Seq<Seq<char>>,
    s: Seq<Seq<char>>,
    pn: Seq<Seq<char>>,
)
    requires
        pn.len() > 0,
        o.contains(pn.last()) || s.contains(pn.last()),
        forall|x: int|
            0 <= x < roots.len() ==> o.contains(#[trigger] roots[x]) || pn.contains(roots[x]),
    ensures
        forall|x: int|
            0 <= x < roots.len() ==> o.contains(#[trigger] roots[x]) || s.contains(roots[x])
                || pn.drop_last().contains(roots[x]),
{
    assert forall|x: int| 0 <= x < roots.len() implies o.contains(#[trigger] roots[x]) || s.contains(
        roots[x],
    ) || pn.drop_last().contains(roots[x]) by {
        if !o.contains(roots[x]) {
            let k = choose|k: int| 0 <= k < pn.len() && pn[k] == roots[x];
            if k < pn.len() - 1 {
                assert(pn.drop_last()[k] == roots[x]);
            }
        }
    }
}

/// Every loaded dependency comes before the program that declared it: when the
/// program named `e.0` stands at position `i` of the order and `e` is a loaded
/// edge, a program named `e.1` stands at some position before `i`.
pub proof fn dependencies_come_first(r: &Resolver, e: (Seq<char>, Seq<char>), i: int)
    requires
        r.wf(),
        r@.cycle is None,
        r@.edges.contains(e),
        0 <= i < view_names(r@.order).len(),
        view_names(r@.order)[i] == e.0,
    ensures
        exists|j: int| 0 <= j < i && view_names(r@.order)[j] == e.1,
{
    r.lemma_view();
    let x = choose|x: int| 0 <= x < r.edges@.len() && r.edges@[x] == e;
    assert(edge_ok(r.order_names(), r.path_names(), r.edges@[x]));
}

/// Programs that share a name take one place in the order: the first one visited.
pub proof fn one_place_per_name(r: &Resolver)
    requires
        r.wf(),
    ensures
        distinct(view_names(r@.order)),
{
    r.lemma_view();
}

/// A finished resolution has placed every root.
pub proof fn roots_are_placed(r: &Resolver)
    requires
        r.wf(),
        r@.stack.len() == 0 && r@.pending.len() == 0 && !r@.awaiting && r@.cycle is None,
    ensures
        forall|x: int|
            0 <= x < r@.roots.len() ==> view_names(r@.order).contains(#[trigger] r@.roots[x]),
{
    r.lemma_view();
    assert forall|x: int| 0 <= x < r@.roots.len() implies view_names(r@.order).contains(
        #[trigger] r@.roots[x],
    ) by {
        assert(r.path_names().len() == 0);
        assert(r.pending_names().len() == 0);
    }
}

/// The order holds nothing but roots and dependencies that were loaded.
pub proof fn order_holds_only_reached(r: &Resolver)
    requires
        r.wf(),
    ensures
        forall|i: int|
            0 <= i < view_names(r@.order).len() ==> reached(
                r@.roots,
                r@.edges,
                #[trigger] view_names(r@.order)[i],
            ),
{
    r.lemma_view();
}

/// A finished resolution has placed every dependency that was loaded.
pub proof fn loaded_are_placed(r: &Resolver)
    requires
        r.wf(),
        r@.stack.len() == 0 && r@.pending.len() == 0 && !r@.awaiting && r@.cycle is None,
    ensures
        forall|x: int|
            0 <= x < r@.edges.len() ==> view_names(r@.order).contains(
                (#[trigger] r@.edges[x]).1,
            ),
{
    r.lemma_view();
    assert forall|x: int| 0 <= x < r@.edges.len() implies view_names(r@.order).contains(
        (#[trigger] r@.edges[x]).1,
    ) by {
        let e = r.edges@[x];
        assert(edge_ok(view_names(r@.order), r.path_names(), e));
        assert(r.path_names().len() == 0);
        let i = choose|i: int| 0 <= i < view_names(r@.order).len() && view_names(r@.order)[i] == e.0;
        let j = choose|j: int| 0 <= j < i && view_names(r@.order)[j] == e.1;
    }
}

} // verus!
