//! The dependency tree of several programs, as lines to show. Like the resolver,
//! the walk asks its caller to load each dependency file; a program shown once
//! is not expanded again.
use vstd::prelude::*;
use crate::parser::Program;
use crate::resolver::{distinct, resolve_path, resolved};
use crate::text::same_text;

verus! {

/// One line of a dependency tree. `depth` counts the programs above the line.
#[derive(Debug, Clone, PartialEq, Eq)]
pub enum TreeLine {
    /// A program.
    Program { depth: usize, name: String, version: String },
    /// The program of the line above was shown before; its dependencies are not repeated.
    Repeated { depth: usize },
    /// A dependency reference of the program at `depth`; `found` tells whether its
    /// file could be loaded and read, `last` whether it is the program's last reference.
    Reference { depth: usize, reference: String, last: bool, found: bool },
}

/// What the lines after a loaded program say: line 1 shows it at `depth`; a name
/// shown before is marked repeated on line 2 and not expanded again; a new name
/// is the next one shown.
pub open spec fn shows_loaded(
    before: Seq<Seq<char>>,
    name: Seq<char>,
    depth: nat,
    lines: Seq<TreeLine>,
    after: Seq<Seq<char>>,
) -> bool {
    &&& lines.len() >= 2
    &&& (lines[1] matches TreeLine::Program { depth: d, name: n, .. } && d == depth && n@ == name)
    &&& before.contains(name) ==> lines.len() >= 3 && lines[2] == (TreeLine::Repeated {
        depth: depth as usize,
    })
    &&& !before.contains(name) ==> after.len() > before.len() && after[before.len() as int] == name
}

struct TreeFrame {
    depends: Vec<String>,
    next: usize,
}

/// The state of a tree walk: the roots not yet shown, the path of programs being
/// expanded, and the names shown so far.
pub struct TreeWalker {
    base: String,
    pending: Vec<Program>,
    stack: Vec<TreeFrame>,
    shown: Vec<String>,
    awaiting: bool,
}

impl TreeWalker {
    pub closed spec fn base(&self) -> Seq<char> {
        self.base@
    }

    /// The names of the programs whose dependencies were listed, in order.
    pub closed spec fn shown_names(&self) -> Seq<Seq<char>> {
        self.shown@.map_values(|s: String| s@)
    }

    pub closed spec fn awaiting(&self) -> bool {
        self.awaiting
    }

    /// The depth of the program whose reference was asked for last.
    pub closed spec fn current_depth(&self) -> nat {
        (self.stack@.len() - 1) as nat
    }

    /// The dependency reference most recently asked for.
    pub closed spec fn requested(&self) -> Seq<char> {
        let f = self.stack@.last();
        f.depends@[f.next - 1]@
    }

    /// Whether the reference asked for last is its program's last one.
    pub closed spec fn requested_last(&self) -> bool {
        let f = self.stack@.last();
        f.next == f.depends@.len()
    }

    pub closed spec fn done(&self) -> bool {
        self.stack@.len() == 0 && self.pending@.len() == 0 && !self.awaiting
    }

    pub closed spec fn wf(&self) -> bool {
        &&& distinct(self.shown_names())
        &&& forall|k: int|
            0 <= k < self.stack@.len() ==> (#[trigger] self.stack@[k]).next
                <= self.stack@[k].depends@.len()
        &&& self.awaiting ==> self.stack@.len() > 0 && self.stack@.last().next > 0
    }

    /// Starts the tree of `roots`, in their order, with relative references taken
    /// from `base`.
    pub fn new(base: String, roots: Vec<Program>) -> (r: TreeWalker)
        ensures
            r.wf(),
            r.base() == base@,
            r.shown_names().len() == 0,
            !r.awaiting(),
    {
        let mut roots = roots;
        let mut pending: Vec<Program> = Vec::new();
        while roots.len() > 0
            decreases roots.len(),
        {
            let p = roots.pop().unwrap();
            pending.push(p);
        }
        let r = TreeWalker { base, pending, stack: Vec::new(), shown: Vec::new(), awaiting: false };
        assert(r.shown_names() =~= seq![]);
        r
    }

    fn was_shown(&self, name: &String) -> (r: bool)
        ensures
            r == self.shown_names().contains(name@),
    {
        let mut i: usize = 0;
        while i < self.shown.len()
            invariant
                i <= self.shown@.len(),
                forall|j: int| 0 <= j < i ==> self.shown_names()[j] != name@,
            decreases self.shown@.len() - i,
        {
            if same_text(self.shown[i].as_str(), name.as_str()) {
                assert(self.shown_names()[i as int] == name@);
                return true;
            }
            i = i + 1;
        }
        false
    }

    /// Shows program `p` at the depth of the current path; expands it unless a
    /// program of that name was shown before.
    fn show(&mut self, p: Program, lines: &mut Vec<TreeLine>)
        requires
            old(self).wf(),
            !old(self).awaiting,
        ensures
            final(self).wf(),
            !final(self).awaiting,
            final(self).base@ == old(self).base@,
            final(self).pending@ == old(self).pending@,
            final(self).shown_names() == (if old(self).shown_names().contains(p.name@) {
                old(self).shown_names()
            } else {
                old(self).shown_names().push(p.name@)
            }),
            final(self).stack@.len() == old(self).stack@.len() + (if old(self).shown_names().contains(
                p.name@,
            ) {
                0int
            } else {
                1int
            }),
            forall|k: int|
                0 <= k < old(self).stack@.len() ==> final(self).stack@[k] == old(self).stack@[k],
            final(self).stack@.len() > old(self).stack@.len() ==> final(self).stack@.last().next
                == 0,
            final(old(lines))@.len() == old(lines)@.len() + (if old(self).shown_names().contains(
                p.name@,
            ) {
                2int
            } else {
                1int
            }),
            final(old(lines))@.subrange(0, old(lines)@.len() as int) == old(lines)@,
            (final(old(lines))@[old(lines)@.len() as int] matches TreeLine::Program { depth: d, name: n, .. }
                && d == old(self).stack@.len() && n@ == p.name@),
            old(self).shown_names().contains(p.name@) ==> final(old(lines))@[old(lines)@.len() + 1int]
                == (TreeLine::Repeated { depth: old(self).stack@.len() as usize }),
    {
        let depth = self.stack.len();
        let repeated = self.was_shown(&p.name);
        let Program { name, version, depends, .. } = p;
        if repeated {
            lines.push(TreeLine::Program { depth, name, version });
            lines.push(TreeLine::Repeated { depth });
        } else {
            assert(!self.shown_names().contains(p.name@));
            let ghost before = self.shown_names();
            let ghost n = name@;
            self.shown.push(name.clone());
            assert(self.shown_names() =~= before.push(n));
            lines.push(TreeLine::Program { depth, name, version });
            self.stack.push(TreeFrame { depends, next: 0 });
        }
    }

    /// Advances the walk. `loaded` answers the previous load request (the program
    /// read from that file, or none when it could not be loaded or read); it is
    /// ignored when no load was asked for. Returns the lines now known, and the
    /// path of the next file to load, or none when the tree is complete.
    pub fn step(&mut self, loaded: Option<Program>) -> (r: (Vec<TreeLine>, Option<String>))
        requires
            old(self).wf(),
        ensures
            final(self).wf(),
            final(self).base() == old(self).base(),
            final(self).shown_names().len() >= old(self).shown_names().len(),
            final(self).shown_names().subrange(0, old(self).shown_names().len() as int)
                == old(self).shown_names(),
            old(self).awaiting() ==> r.0@.len() > 0 && r.0@[0] == (TreeLine::Reference {
                depth: old(self).current_depth() as usize,
                reference: r.0@[0]->reference,
                last: old(self).requested_last(),
                found: loaded is Some,
            }) && r.0@[0]->reference@ == old(self).requested(),
            old(self).awaiting() && loaded is Some ==> shows_loaded(
                old(self).shown_names(),
                loaded->0.name@,
                old(self).current_depth() + 1,
                r.0@,
                final(self).shown_names(),
            ),
            match r.1 {
                Some(path) => final(self).awaiting() && path@ == resolved(
                    old(self).base(),
                    final(self).requested(),
                ),
                None => final(self).done(),
            },
    {
        let mut lines: Vec<TreeLine> = Vec::new();
        if self.awaiting {
            self.awaiting = false;
            let top = self.stack.len() - 1;
            let f = &self.stack[top];
            let reference = f.depends[f.next - 1].clone();
            let last = f.next == f.depends.len();
            let found = loaded.is_some();
            lines.push(TreeLine::Reference { depth: top, reference, last, found });
            if let Some(p) = loaded {
                self.show(p, &mut lines);
            }
        }
        let ghost first = lines@;
        let ghost shown_after = self.shown_names();
        assert(old(self).awaiting() && loaded is Some ==> shows_loaded(
            old(self).shown_names(),
            loaded->0.name@,
            old(self).current_depth() + 1,
            first,
            shown_after,
        ));
        let ghost head = (old(self).awaiting() ==> first.len() > 0 && first[0] == (
        TreeLine::Reference {
            depth: old(self).current_depth() as usize,
            reference: first[0]->reference,
            last: old(self).requested_last(),
            found: loaded is Some,
        }) && first[0]->reference@ == old(self).requested());
        assert(head) by {
            if old(self).awaiting() {
                assert(first[0] == lines@.subrange(0, 1)[0]);
            }
        }
        loop
            invariant
                head,
                head == (old(self).awaiting() ==> first.len() > 0 && first[0] == (
                TreeLine::Reference {
                    depth: old(self).current_depth() as usize,
                    reference: first[0]->reference,
                    last: old(self).requested_last(),
                    found: loaded is Some,
                }) && first[0]->reference@ == old(self).requested()),
                self.wf(),
                !self.awaiting,
                self.base@ == old(self).base@,
                self.shown_names().len() >= old(self).shown_names().len(),
                self.shown_names().subrange(0, old(self).shown_names().len() as int)
                    == old(self).shown_names(),
                lines@.len() >= first.len(),
                lines@.subrange(0, first.len() as int) == first,
                old(self).awaiting() && loaded is Some ==> shows_loaded(
                    old(self).shown_names(),
                    loaded->0.name@,
                    old(self).current_depth() + 1,
                    first,
                    shown_after,
                ),
                self.shown_names().len() >= shown_after.len(),
                self.shown_names().subrange(0, shown_after.len() as int) == shown_after,
                shown_after.len() >= old(self).shown_names().len(),
            decreases 2 * self.pending@.len() + self.stack@.len(),
        {
            if self.stack.len() > 0 {
                let top = self.stack.len() - 1;
                let next = self.stack[top].next;
                if next < self.stack[top].depends.len() {
                    let path = resolve_path(&self.base, &self.stack[top].depends[next]);
                    let mut f = self.stack.pop().unwrap();
                    f.next = next + 1;
                    self.stack.push(f);
                    self.awaiting = true;
                    proof {
                        lemma_prefix_lines(lines@, first);
                        lemma_prefix_shown(self.shown_names(), shown_after, old(self).shown_names());
                    }
                    return (lines, Some(path));
                }
                self.stack.pop();
            } else if self.pending.len() > 0 {
                let p = self.pending.pop().unwrap();
                let ghost before = lines@;
                let ghost shown_before = self.shown_names();
                self.show(p, &mut lines);
                assert(lines@.subrange(0, first.len() as int) =~= before.subrange(
                    0,
                    first.len() as int,
                ));
                assert(self.shown_names().subrange(0, shown_after.len() as int) =~= shown_before.subrange(
                    0,
                    shown_after.len() as int,
                ));
            } else {
                proof {
                    lemma_prefix_lines(lines@, first);
                    lemma_prefix_shown(self.shown_names(), shown_after, old(self).shown_names());
                }
                return (lines, None);
            }
        }
    }
}

proof fn lemma_prefix_lines(lines: Seq<TreeLine>, first: Seq<TreeLine>)
    requires
        lines.len() >= first.len(),
        lines.subrange(0, first.len() as int) == first,
    ensures
        forall|i: int| 0 <= i < first.len() ==> lines[i] == first[i],
{
    assert forall|i: int| 0 <= i < first.len() implies lines[i] == first[i] by {
        assert(lines.subrange(0, first.len() as int)[i] == lines[i]);
    }
}

proof fn lemma_prefix_shown(now: Seq<Seq<char>>, after: Seq<Seq<char>>, before: Seq<Seq<char>>)
    requires
        now.len() >= after.len(),
        now.subrange(0, after.len() as int) == after,
        after.len() >= before.len(),
    ensures
        forall|i: int| 0 <= i < after.len() ==> now[i] == after[i],
        now.subrange(0, before.len() as int) == after.subrange(0, before.len() as int),
{
    assert forall|i: int| 0 <= i < after.len() implies now[i] == after[i] by {
        assert(now.subrange(0, after.len() as int)[i] == now[i]);
    }
    assert(now.subrange(0, before.len() as int) =~= after.subrange(0, before.len() as int));
}

/// A walk shows the dependencies of each name at most once.
pub proof fn each_name_expanded_once(w: &TreeWalker)
    requires
        w.wf(),
    ensures
        distinct(w.shown_names()),
{
}

} // verus!
