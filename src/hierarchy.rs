//! The module tree that dotted statement names describe, and the walk that
//! writes it out.

use crate::code_builder::{known_of_code, GenError};
use crate::ir::{Export, Statement};
use crate::name::{lemma_split_dots_len, lemma_split_dots_nonempty, namespaces_of, split_dots, split_fullname, views, FullName};
use crate::stmt_builder::{descend_text, line, opt_cat, statement_text, StmtBuilder};
use vstd::prelude::*;

verus! {

broadcast use vstd::std_specs::vec::group_vec_axioms;

/// A node of the module tree: a statement, or a module holding nodes in the
/// order in which they were first met. The root is the unnamed module of
/// level 0.
#[derive(Debug)]
pub enum Hierarchy {
    Statement(Statement),
    Namespace { level: usize, name: String, children: Vec<Hierarchy> },
}

/// Whether a node is a module of the given name.
pub open spec fn is_namespace_named(h: Hierarchy, name: Seq<char>) -> bool {
    match h {
        Hierarchy::Namespace { name: n, .. } => n@ == name,
        _ => false,
    }
}

/// The position of the first module of the given name among nodes.
pub open spec fn first_namespace(s: Seq<Hierarchy>, name: Seq<char>) -> Option<int>
    decreases s.len(),
{
    if s.len() == 0 {
        None
    } else {
        match first_namespace(s.drop_last(), name) {
            Some(i) => Some(i),
            None => if is_namespace_named(s.last(), name) {
                Some(s.len() - 1)
            } else {
                None
            },
        }
    }
}

/// The statements among nodes, in order.
pub open spec fn direct_statements(s: Seq<Hierarchy>) -> Seq<Statement>
    decreases s.len(),
{
    if s.len() == 0 {
        Seq::empty()
    } else {
        direct_statements(s.drop_last()) + match s.last() {
            Hierarchy::Statement(st) => seq![st],
            _ => Seq::empty(),
        }
    }
}

/// The statements held directly by the module that a path of module names
/// leads to from a node, in order; none where no module lies there.
pub open spec fn statements_at(h: Hierarchy, path: Seq<Seq<char>>) -> Seq<Statement>
    decreases h, path.len(), 1nat,
{
    match h {
        Hierarchy::Statement(_) => Seq::empty(),
        Hierarchy::Namespace { children, .. } => statements_in(children@, path),
    }
}

/// The statements that a path of module names leads to from a module with
/// the given nodes.
pub open spec fn statements_in(s: Seq<Hierarchy>, path: Seq<Seq<char>>) -> Seq<Statement>
    decreases s, path.len(), 0nat,
{
    if path.len() == 0 {
        direct_statements(s)
    } else {
        match first_namespace(s, path[0]) {
            Some(i) => if 0 <= i < s.len() {
                statements_at(s[i], path.drop_first())
            } else {
                Seq::empty()
            },
            None => Seq::empty(),
        }
    }
}

/// The statements whose module path is `path`, in their order.
pub open spec fn statements_with_path(s: Seq<Statement>, path: Seq<Seq<char>>) -> Seq<Statement>
    decreases s.len(),
{
    if s.len() == 0 {
        Seq::empty()
    } else {
        statements_with_path(s.drop_last(), path) + if namespaces_of(s.last().name@) == path {
            seq![s.last()]
        } else {
            Seq::empty()
        }
    }
}

/// What the first `k` statements keep under a path is what fewer of them
/// keep, followed by more.
pub proof fn lemma_statements_with_path_prefix(s: Seq<Statement>, p: Seq<Seq<char>>, k: int, m: int)
    requires
        0 <= k <= m <= s.len(),
    ensures
        statements_with_path(s.take(k), p).len() <= statements_with_path(s.take(m), p).len(),
        statements_with_path(s.take(m), p).take(statements_with_path(s.take(k), p).len() as int)
            == statements_with_path(s.take(k), p),
    decreases m - k,
{
    if k < m {
        lemma_statements_with_path_prefix(s, p, k, m - 1);
        assert(s.take(m).drop_last() =~= s.take(m - 1));
        let short = statements_with_path(s.take(k), p);
        let mid = statements_with_path(s.take(m - 1), p);
        let long = statements_with_path(s.take(m), p);
        assert(long.take(short.len() as int) =~= mid.take(short.len() as int));
    } else {
        let short = statements_with_path(s.take(k), p);
        assert(short.take(short.len() as int) =~= short);
    }
}

/// Statements that share a module keep their relative order: when the
/// `i`-th statement comes before the `j`-th and both name the same module,
/// the first stands before the second among that module's statements.
pub proof fn lemma_order_preserved(h: Hierarchy, stmts: Seq<Statement>, i: int, j: int)
    requires
        forall|p: Seq<Seq<char>>| #[trigger] statements_at(h, p) == statements_with_path(stmts, p),
        0 <= i < j < stmts.len(),
        namespaces_of(stmts[i].name@) == namespaces_of(stmts[j].name@),
    ensures
        ({
            let placed = statements_at(h, namespaces_of(stmts[i].name@));
            exists|a: int, b: int|
                0 <= a < b < placed.len() && #[trigger] placed[a] == stmts[i] && #[trigger] placed[b]
                    == stmts[j]
        }),
{
    let p = namespaces_of(stmts[i].name@);
    let placed = statements_at(h, p);
    assert(placed == statements_with_path(stmts, p));
    let a = statements_with_path(stmts.take(i), p).len() as int;
    let b = statements_with_path(stmts.take(j), p).len() as int;
    assert(stmts.take(i + 1).drop_last() =~= stmts.take(i));
    assert(stmts.take(j + 1).drop_last() =~= stmts.take(j));
    assert(stmts.take(i + 1).last() == stmts[i]);
    assert(stmts.take(j + 1).last() == stmts[j]);
    lemma_statements_with_path_prefix(stmts, p, i + 1, j);
    lemma_statements_with_path_prefix(stmts, p, i + 1, stmts.len() as int);
    lemma_statements_with_path_prefix(stmts, p, j + 1, stmts.len() as int);
    assert(stmts.take(stmts.len() as int) =~= stmts);
    let upto_i = statements_with_path(stmts.take(i + 1), p);
    let upto_j = statements_with_path(stmts.take(j + 1), p);
    assert(upto_i[a] == stmts[i]);
    assert(upto_j[b] == stmts[j]);
    assert(placed.take(upto_i.len() as int)[a] == placed[a]);
    assert(placed.take(upto_j.len() as int)[b] == placed[b]);
    assert(placed[a] == stmts[i]);
    assert(placed[b] == stmts[j]);
}

/// Every statement lands in the module that the segments of its name before
/// the last lead to: `a.b.C` under `b` under `a`, and `C` at the root.
pub proof fn lemma_statement_placed(h: Hierarchy, stmts: Seq<Statement>, i: int)
    requires
        forall|p: Seq<Seq<char>>| #[trigger] statements_at(h, p) == statements_with_path(stmts, p),
        0 <= i < stmts.len(),
    ensures
        ({
            let placed = statements_at(h, namespaces_of(stmts[i].name@));
            exists|a: int| 0 <= a < placed.len() && #[trigger] placed[a] == stmts[i]
        }),
{
    let p = namespaces_of(stmts[i].name@);
    let placed = statements_at(h, p);
    assert(placed == statements_with_path(stmts, p));
    let a = statements_with_path(stmts.take(i), p).len() as int;
    assert(stmts.take(i + 1).drop_last() =~= stmts.take(i));
    assert(stmts.take(i + 1).last() == stmts[i]);
    lemma_statements_with_path_prefix(stmts, p, i + 1, stmts.len() as int);
    assert(stmts.take(stmts.len() as int) =~= stmts);
    let upto_i = statements_with_path(stmts.take(i + 1), p);
    assert(upto_i[a] == stmts[i]);
    assert(placed.take(upto_i.len() as int)[a] == placed[a]);
}

/// Every module one level below its parent and shallow enough to be written
/// out; a statement is always well formed.
pub open spec fn well_formed(h: Hierarchy) -> bool
    decreases h,
{
    match h {
        Hierarchy::Statement(_) => true,
        Hierarchy::Namespace { level, children, .. } => {
            &&& level + 3 < usize::MAX
            &&& forall|i: int|
                0 <= i < children.len() ==> match #[trigger] children[i] {
                    Hierarchy::Namespace { level: l, .. } => l == level + 1,
                    _ => true,
                }
            &&& forall|i: int| 0 <= i < children.len() ==> well_formed(#[trigger] children[i])
        },
    }
}

pub proof fn lemma_first_namespace_bound(s: Seq<Hierarchy>, name: Seq<char>)
    ensures
        first_namespace(s, name) matches Some(i) ==> 0 <= i < s.len() && is_namespace_named(
            s[i],
            name,
        ),
        first_namespace(s, name) is None ==> forall|j: int|
            0 <= j < s.len() ==> !is_namespace_named(#[trigger] s[j], name),
    decreases s.len(),
{
    if s.len() > 0 {
        lemma_first_namespace_bound(s.drop_last(), name);
        if first_namespace(s, name) is None {
            assert forall|j: int| 0 <= j < s.len() implies !is_namespace_named(
                #[trigger] s[j],
                name,
            ) by {
                if j < s.len() - 1 {
                    assert(s[j] == s.drop_last()[j]);
                }
            }
        }
    }
}

/// Replacing a node by one that is a module of the same names leaves every
/// lookup by name as it was.
pub proof fn lemma_first_namespace_update(s: Seq<Hierarchy>, j: int, x: Hierarchy, name: Seq<char>)
    requires
        0 <= j < s.len(),
        forall|m: Seq<char>| is_namespace_named(s[j], m) == is_namespace_named(x, m),
    ensures
        first_namespace(s.update(j, x), name) == first_namespace(s, name),
    decreases s.len(),
{
    if j < s.len() - 1 {
        assert(s.update(j, x).drop_last() =~= s.drop_last().update(j, x));
        lemma_first_namespace_update(s.drop_last(), j, x, name);
    } else {
        assert(s.update(j, x).drop_last() =~= s.drop_last());
    }
}

/// Replacing a module by one of the same name leaves the statements among
/// nodes as they were.
pub proof fn lemma_direct_statements_update(s: Seq<Hierarchy>, j: int, x: Hierarchy)
    requires
        0 <= j < s.len(),
        s[j] is Namespace,
        x is Namespace,
    ensures
        direct_statements(s.update(j, x)) == direct_statements(s),
    decreases s.len(),
{
    if j < s.len() - 1 {
        assert(s.update(j, x).drop_last() =~= s.drop_last().update(j, x));
        lemma_direct_statements_update(s.drop_last(), j, x);
    } else {
        assert(s.update(j, x).drop_last() =~= s.drop_last());
    }
}


proof fn lemma_same_head_and_tail(p: Seq<Seq<char>>, q: Seq<Seq<char>>)
    requires
        p.len() > 0,
        q.len() > 0,
        p[0] == q[0],
        p.drop_first() == q.drop_first(),
    ensures
        p == q,
{
    assert(p.drop_first().len() == p.len() - 1);
    assert(q.drop_first().len() == q.len() - 1);
    assert forall|k: int| 0 <= k < p.len() implies p[k] == q[k] by {
        if k > 0 {
            assert(p[k] == p.drop_first()[k - 1]);
            assert(q[k] == q.drop_first()[k - 1]);
        }
    }
    assert(p =~= q);
}

/// A lookup that succeeds on a prefix of the nodes gives the same on all of
/// them.
pub proof fn lemma_first_namespace_prefix(s: Seq<Hierarchy>, k: int, name: Seq<char>)
    requires
        0 <= k <= s.len(),
        first_namespace(s.take(k), name) is Some,
    ensures
        first_namespace(s, name) == first_namespace(s.take(k), name),
    decreases s.len() - k,
{
    if k < s.len() {
        assert(s.take(k + 1).drop_last() =~= s.take(k));
        lemma_first_namespace_prefix(s, k + 1, name);
    } else {
        assert(s.take(k) =~= s);
    }
}

/// The position of the first module of the given name among nodes.
fn find_namespace(children: &Vec<Hierarchy>, name: &String) -> (r: Option<usize>)
    ensures
        match r {
            Some(i) => first_namespace(children@, name@) == Some(i as int),
            None => first_namespace(children@, name@) is None,
        },
{
    let mut j: usize = 0;
    assert(children@.take(0) =~= Seq::<Hierarchy>::empty());
    while j < children.len()
        invariant
            j <= children.len(),
            first_namespace(children@.take(j as int), name@) is None,
        decreases children.len() - j,
    {
        let hit = match &children[j] {
            Hierarchy::Namespace { name: n, .. } => *n == *name,
            _ => false,
        };
        assert(children@.take(j + 1 as int).drop_last() =~= children@.take(j as int));
        assert(children@.take(j + 1 as int).last() == children@[j as int]);
        if hit {
            proof {
                lemma_first_namespace_prefix(children@, j + 1, name@);
            }
            return Some(j);
        }
        j = j + 1;
    }
    assert(children@.take(j as int) =~= children@);
    None
}

impl Hierarchy {
    /// The empty root module.
    pub fn new() -> (r: Self)
        ensures
            r is Namespace,
            r->level == 0,
            well_formed(r),
            forall|p: Seq<Seq<char>>| #[trigger] statements_at(r, p) == Seq::<Statement>::empty(),
            model(r) == (Tree::Node { level: 0, name: Seq::empty(), children: Seq::empty() }),
    {
        let r = Hierarchy::Namespace { level: 0, name: String::new(), children: Vec::new() };
        assert forall|p: Seq<Seq<char>>| #[trigger] statements_at(r, p) == Seq::<Statement>::empty() by {
            assert(r->children@ =~= Seq::<Hierarchy>::empty());
        }
        assert(models(r->children@, 0) =~= Seq::<Tree>::empty());
        r
    }

    /// Places a statement under the module that its path leads to from this
    /// one, creating the modules that are missing after those already there.
    pub fn append(&mut self, stmt: Statement, full_name: FullName)
        requires
            *old(self) is Namespace,
            well_formed(*old(self)),
            (*old(self))->level <= full_name.namespaces.len(),
            full_name.namespaces.len() + 3 < usize::MAX,
        ensures
            *final(self) is Namespace,
            (*final(self))->level == (*old(self))->level,
            forall|m: Seq<char>|
                is_namespace_named(*final(self), m) == is_namespace_named(*old(self), m),
            well_formed(*final(self)),
            forall|p: Seq<Seq<char>>|
                #[trigger] statements_at(*final(self), p) == statements_at(*old(self), p) + if p
                    == views(full_name.namespaces@).subrange(
                    (*old(self))->level as int,
                    full_name.namespaces.len() as int,
                ) {
                    seq![stmt]
                } else {
                    Seq::empty()
                },
            model(*final(self)) == tree_insert(
                model(*old(self)),
                stmt,
                views(full_name.namespaces@),
                (*old(self))->level as nat,
            ),
            grows_from(model(*final(self)), model(*old(self))),
        decreases full_name.namespaces.len() - (*old(self))->level,
    {
        let ghost before = *self;
        let ghost path = views(full_name.namespaces@);
        let ghost rel = path.subrange(before->level as int, path.len() as int);
        let ghost st = stmt;
        let ghost mut new_children: Seq<Hierarchy> = Seq::empty();
        let ghost target = tree_insert(model(before), st, path, before->level as nat);
        match self {
            Hierarchy::Statement(_) => {},
            Hierarchy::Namespace { level, name: _, children } => {
                let lvl = *level;
                let ghost old_children = children@;
                if full_name.namespaces.len() == lvl {
                    children.push(Hierarchy::Statement(stmt));
                    assert(children@.drop_last() =~= old_children);
                    assert(children@.last() == Hierarchy::Statement(st));
                    assert forall|k: int| 0 <= k < old_children.len() implies children@[k]
                        == old_children[k] by {
                        assert(children@.drop_last()[k] == children@[k]);
                    }
                    proof {
                        lemma_models_index(old_children, old_children.len() as nat);
                        lemma_models_index(children@, children@.len() as nat);
                        assert(models(children@, children@.len() as nat) =~= models(
                            old_children,
                            old_children.len() as nat,
                        ).push(Tree::Leaf(st)));
                    }
                    assert forall|p: Seq<Seq<char>>|
                        #[trigger] statements_in(children@, p) == statements_in(old_children, p) + if p == rel {
                            seq![st]
                        } else {
                            Seq::empty()
                        } by {
                        if p.len() == 0 {
                            assert(rel =~= p);
                        } else {
                            assert(p != rel);
                        }
                    }
                } else {
                    let next_name = full_name.namespaces[lvl].clone();
                    assert(rel[0] == next_name@);
                    let ghost rel_child = path.subrange(lvl + 1, path.len() as int);
                    assert(rel.drop_first() =~= rel_child);
                    proof {
                        lemma_first_namespace_bound(old_children, next_name@);
                    }
                    match find_namespace(children, &next_name) {
                        Some(i) => {
                            let mut child = children.remove(i);
                            let ghost old_child = child;
                            assert(old_child == old_children[i as int]);
                            assert(old_child->level == lvl + 1);
                            child.append(stmt, full_name);
                            let ghost new_child = child;
                            children.insert(i, child);
                            assert(children@ =~= old_children.update(i as int, new_child));
                            proof {
                                lemma_models_index(old_children, old_children.len() as nat);
                                lemma_models_index(children@, children@.len() as nat);
                                lemma_first_node_of_models(
                                    old_children,
                                    models(old_children, old_children.len() as nat),
                                    next_name@,
                                );
                                assert(models(children@, children@.len() as nat) =~= models(
                                    old_children,
                                    old_children.len() as nat,
                                ).update(i as int, model(new_child)));
                                assert forall|m: Seq<char>|
                                    is_namespace_named(old_children[i as int], m)
                                        == is_namespace_named(new_child, m) by {}
                                assert forall|p: Seq<Seq<char>>|
                                    #[trigger] statements_in(children@, p) == statements_in(old_children, p)
                                        + if p == rel {
                                        seq![st]
                                    } else {
                                        Seq::empty()
                                    } by {
                                    if p.len() == 0 {
                                        lemma_direct_statements_update(
                                            old_children,
                                            i as int,
                                            new_child,
                                        );
                                        assert(p != rel);
                                    } else {
                                        lemma_first_namespace_update(
                                            old_children,
                                            i as int,
                                            new_child,
                                            p[0],
                                        );
                                        lemma_first_namespace_bound(old_children, p[0]);
                                        if p[0] == next_name@ {
                                            assert(first_namespace(old_children, p[0]) == Some(
                                                i as int,
                                            ));
                                            assert(p == rel <==> p.drop_first() == rel_child) by {
                                                if p.drop_first() == rel_child {
                                                    lemma_same_head_and_tail(p, rel);
                                                }
                                            }
                                            assert(statements_in(children@, p) == statements_at(
                                                new_child,
                                                p.drop_first(),
                                            ));
                                        } else {
                                            assert(p != rel);
                                            match first_namespace(old_children, p[0]) {
                                                Some(k) => {
                                                    assert(k != i);
                                                    assert(children@[k] == old_children[k]);
                                                },
                                                None => {},
                                            }
                                        }
                                    }
                                }
                            }
                        },
                        None => {
                            let mut child = Hierarchy::Namespace {
                                level: lvl + 1,
                                name: next_name,
                                children: Vec::new(),
                            };
                            let ghost fresh = child;
                            assert(fresh->children@ =~= Seq::<Hierarchy>::empty());
                            child.append(stmt, full_name);
                            let ghost new_child = child;
                            children.push(child);
                            assert(children@.drop_last() =~= old_children);
                            proof {
                                lemma_models_index(old_children, old_children.len() as nat);
                                lemma_models_index(children@, children@.len() as nat);
                                lemma_first_node_of_models(
                                    old_children,
                                    models(old_children, old_children.len() as nat),
                                    next_name@,
                                );
                                assert(model(fresh) == (Tree::Node {
                                    level: lvl as nat + 1,
                                    name: path[lvl as int],
                                    children: Seq::empty(),
                                }));
                                assert forall|k: int| 0 <= k < old_children.len() implies children@[k]
                                    == old_children[k] by {
                                    assert(children@.drop_last()[k] == children@[k]);
                                }
                                assert(models(children@, children@.len() as nat) =~= models(
                                    old_children,
                                    old_children.len() as nat,
                                ).push(model(new_child)));
                                assert forall|p: Seq<Seq<char>>|
                                    #[trigger] statements_in(children@, p) == statements_in(old_children, p)
                                        + if p == rel {
                                        seq![st]
                                    } else {
                                        Seq::empty()
                                    } by {
                                    assert(children@.last() == new_child);
                                    if p.len() == 0 {
                                        assert(p != rel);
                                        assert(direct_statements(children@) =~= direct_statements(
                                            old_children,
                                        ));
                                    } else {
                                        lemma_first_namespace_bound(old_children, p[0]);
                                        match first_namespace(old_children, p[0]) {
                                            Some(k) => {
                                                assert(children@[k] == old_children[k]);
                                            },
                                            None => {},
                                        }
                                        if p[0] == next_name@ {
                                            assert(first_namespace(children@, p[0]) == Some(
                                                old_children.len() as int,
                                            ));
                                            assert(statements_at(fresh, p.drop_first())
                                                =~= Seq::<Statement>::empty());
                                            assert(children@[old_children.len() as int]
                                                == new_child);
                                            assert(statements_in(children@, p) == statements_at(
                                                new_child,
                                                p.drop_first(),
                                            ));
                                            assert(statements_at(new_child, p.drop_first())
                                                == statements_at(fresh, p.drop_first()) + if p.drop_first()
                                                == rel_child {
                                                seq![st]
                                            } else {
                                                Seq::empty()
                                            });
                                            assert(statements_in(children@, p) =~= if p.drop_first()
                                                == rel_child {
                                                seq![st]
                                            } else {
                                                Seq::empty()
                                            });
                                            assert(statements_in(old_children, p) =~= Seq::<
                                                Statement,
                                            >::empty());
                                            assert(p == rel <==> p.drop_first() == rel_child) by {
                                                if p.drop_first() == rel_child {
                                                    lemma_same_head_and_tail(p, rel);
                                                }
                                            }
                                        } else {
                                            assert(p != rel);
                                        }
                                    }
                                }
                            }
                        },
                    }
                }
                proof {
                    new_children = children@;
                }
                assert forall|k: int| 0 <= k < children.len() implies well_formed(
                    #[trigger] children[k],
                ) && match children[k] {
                    Hierarchy::Namespace { level: l, .. } => l == lvl + 1,
                    _ => true,
                } by {}
            },
        }
        assert((*self)->children@ == new_children);
        assert(model(*self) == target);
        proof {
            lemma_insert_grows(model(before), st, path, before->level as nat);
        }
        assert forall|p: Seq<Seq<char>>|
            #[trigger] statements_at(*self, p) == statements_at(before, p) + if p == rel {
                seq![st]
            } else {
                Seq::empty()
            } by {
            assert(statements_in(new_children, p) == statements_in(before->children@, p) + if p == rel {
                seq![st]
            } else {
                Seq::empty()
            });
        }
    }
}


/// The shape of a module tree as plain values: a statement, or a module with
/// its level, its name and its nodes.
pub enum Tree {
    Leaf(Statement),
    Node { level: nat, name: Seq<char>, children: Seq<Tree> },
}

/// The shape of a node.
pub open spec fn model(h: Hierarchy) -> Tree
    decreases h, 1nat,
{
    match h {
        Hierarchy::Statement(s) => Tree::Leaf(s),
        Hierarchy::Namespace { level, name, children } => Tree::Node {
            level: level as nat,
            name: name@,
            children: models(children@, children.len() as nat),
        },
    }
}

/// The shapes of the first `k` nodes.
pub open spec fn models(s: Seq<Hierarchy>, k: nat) -> Seq<Tree>
    decreases s, k,
{
    if k == 0 || k > s.len() {
        Seq::empty()
    } else {
        models(s, (k - 1) as nat).push(model(s[k - 1]))
    }
}

pub proof fn lemma_models_index(s: Seq<Hierarchy>, k: nat)
    requires
        k <= s.len(),
    ensures
        models(s, k).len() == k,
        forall|j: int| 0 <= j < k ==> #[trigger] models(s, k)[j] == model(s[j]),
    decreases k,
{
    if k > 0 {
        lemma_models_index(s, (k - 1) as nat);
    }
}

/// Whether a shape is a module of the given name.
pub open spec fn is_node_named(t: Tree, name: Seq<char>) -> bool {
    match t {
        Tree::Node { name: n, .. } => n == name,
        _ => false,
    }
}

/// The position of the first module of the given name among shapes.
pub open spec fn first_node(s: Seq<Tree>, name: Seq<char>) -> Option<int>
    decreases s.len(),
{
    if s.len() == 0 {
        None
    } else {
        match first_node(s.drop_last(), name) {
            Some(i) => Some(i),
            None => if is_node_named(s.last(), name) {
                Some(s.len() - 1)
            } else {
                None
            },
        }
    }
}

pub proof fn lemma_first_node_of_models(s: Seq<Hierarchy>, ts: Seq<Tree>, name: Seq<char>)
    requires
        ts.len() == s.len(),
        forall|j: int| 0 <= j < s.len() ==> #[trigger] ts[j] == model(s[j]),
    ensures
        first_node(ts, name) == first_namespace(s, name),
    decreases s.len(),
{
    if s.len() > 0 {
        lemma_first_node_of_models(s.drop_last(), ts.drop_last(), name);
        assert(ts.last() == model(s.last()));
    }
}

/// A statement placed in a shape along `path`, from the module at `depth`:
/// into the first module of the next name, or a new module appended after
/// the nodes, down to the end of the path.
pub open spec fn tree_insert(t: Tree, st: Statement, path: Seq<Seq<char>>, depth: nat) -> Tree
    decreases path.len() - depth,
{
    match t {
        Tree::Leaf(_) => t,
        Tree::Node { level, name, children } => if depth >= path.len() {
            Tree::Node { level, name, children: children.push(Tree::Leaf(st)) }
        } else {
            match first_node(children, path[depth as int]) {
                Some(i) => if 0 <= i < children.len() {
                    Tree::Node {
                        level,
                        name,
                        children: children.update(
                            i,
                            tree_insert(children[i], st, path, depth + 1),
                        ),
                    }
                } else {
                    t
                },
                None => Tree::Node {
                    level,
                    name,
                    children: children.push(
                        tree_insert(
                            Tree::Node {
                                level: level + 1,
                                name: path[depth as int],
                                children: Seq::empty(),
                            },
                            st,
                            path,
                            depth + 1,
                        ),
                    ),
                },
            }
        },
    }
}

/// A shape grown from another without reordering: a statement as it was,
/// or the same module whose earlier nodes stay in place, each grown the same
/// way, with any new nodes after them.
pub open spec fn grows_from(new: Tree, old: Tree) -> bool
    decreases old,
{
    match (old, new) {
        (Tree::Leaf(a), Tree::Leaf(b)) => a == b,
        (
            Tree::Node { level: l1, name: n1, children: c1 },
            Tree::Node { level: l2, name: n2, children: c2 },
        ) => {
            &&& l1 == l2
            &&& n1 == n2
            &&& c1.len() <= c2.len()
            &&& forall|j: int| 0 <= j < c1.len() ==> grows_from(c2[j], #[trigger] c1[j])
        },
        _ => false,
    }
}

pub proof fn lemma_grows_from_itself(t: Tree)
    ensures
        grows_from(t, t),
    decreases t,
{
    if let Tree::Node { children, .. } = t {
        assert forall|j: int| 0 <= j < children.len() implies grows_from(
            children[j],
            #[trigger] children[j],
        ) by {
            lemma_grows_from_itself(children[j]);
        }
    }
}

/// Placing a statement only grows a module: nothing already there is
/// removed or reordered, the statement comes after the nodes of the module
/// it lands in, and new modules come after their existing siblings.
pub proof fn lemma_insert_grows(t: Tree, st: Statement, path: Seq<Seq<char>>, depth: nat)
    requires
        t is Node,
    ensures
        grows_from(tree_insert(t, st, path, depth), t),
    decreases path.len() - depth,
{
    if let Tree::Node { level, name, children } = t {
        let r = tree_insert(t, st, path, depth);
        let rc = r->children;
        if depth < path.len() {
            match first_node(children, path[depth as int]) {
                Some(i) => {
                    if 0 <= i < children.len() {
                        lemma_first_node_found(children, path[depth as int]);
                        lemma_insert_grows(children[i], st, path, depth + 1);
                    }
                },
                None => {},
            }
        }
        assert forall|j: int| 0 <= j < children.len() implies grows_from(
            rc[j],
            #[trigger] children[j],
        ) by {
            lemma_grows_from_itself(children[j]);
        }
    }
}

pub proof fn lemma_first_node_found(s: Seq<Tree>, name: Seq<char>)
    ensures
        first_node(s, name) matches Some(i) ==> 0 <= i < s.len() && is_node_named(s[i], name),
    decreases s.len(),
{
    if s.len() > 0 {
        lemma_first_node_found(s.drop_last(), name);
    }
}

/// The shape that the statements build, one after another, from the empty
/// root.
pub open spec fn build_tree(stmts: Seq<Statement>) -> Tree
    decreases stmts.len(),
{
    if stmts.len() == 0 {
        Tree::Node { level: 0, name: Seq::empty(), children: Seq::empty() }
    } else {
        tree_insert(
            build_tree(stmts.drop_last()),
            stmts.last(),
            namespaces_of(stmts.last().name@),
            0,
        )
    }
}

pub proof fn lemma_grows_transitive(a: Tree, b: Tree, c: Tree)
    requires
        grows_from(b, a),
        grows_from(c, b),
    ensures
        grows_from(c, a),
    decreases a,
{
    if let Tree::Node { children, .. } = a {
        let bc = b->children;
        let cc = c->children;
        assert forall|j: int| 0 <= j < children.len() implies grows_from(
            cc[j],
            #[trigger] children[j],
        ) by {
            assert(grows_from(bc[j], children[j]));
            assert(grows_from(cc[j], bc[j]));
            lemma_grows_transitive(children[j], bc[j], cc[j]);
        }
    }
}

/// The tree that the first statements build stays in place as the later
/// ones arrive: modules keep the order in which their names first appeared,
/// and statements the order in which they came.
pub proof fn lemma_build_keeps_order(stmts: Seq<Statement>, k: int, m: int)
    requires
        0 <= k <= m <= stmts.len(),
    ensures
        grows_from(build_tree(stmts.take(m)), build_tree(stmts.take(k))),
        build_tree(stmts.take(m)) is Node,
    decreases m - k,
{
    if k == m {
        lemma_build_is_node(stmts.take(m));
        lemma_grows_from_itself(build_tree(stmts.take(m)));
    } else {
        lemma_build_keeps_order(stmts, k, m - 1);
        let prev = stmts.take(m - 1);
        assert(stmts.take(m).drop_last() =~= prev);
        let t = build_tree(prev);
        let st = stmts.take(m).last();
        lemma_insert_grows(t, st, namespaces_of(st.name@), 0);
        lemma_grows_transitive(build_tree(stmts.take(k)), t, build_tree(stmts.take(m)));
        lemma_build_is_node(stmts.take(m));
    }
}

pub proof fn lemma_build_is_node(stmts: Seq<Statement>)
    ensures
        build_tree(stmts) is Node,
    decreases stmts.len(),
{
    if stmts.len() > 0 {
        lemma_build_is_node(stmts.drop_last());
        let st = stmts.last();
        lemma_insert_grows(build_tree(stmts.drop_last()), st, namespaces_of(st.name@), 0);
    }
}

/// The text that walking a shape writes at level `n`: a statement's text, or
/// a module's nodes in order, enclosed in the module unless it is the root;
/// `None` when a statement names a built-in type that the table lacks.
pub open spec fn tree_text(t: Tree, n: nat) -> Option<Seq<char>>
    decreases t, 1nat,
{
    match t {
        Tree::Leaf(s) => statement_text(n, s),
        Tree::Node { level, name, children } => if level == 0 {
            trees_text(children, children.len(), n)
        } else {
            opt_cat(
                Some(descend_text(n, name)),
                opt_cat(trees_text(children, children.len(), n + 1), Some(line(n, "}"@))),
            )
        },
    }
}

/// The texts of the first `k` shapes walked at level `n`, one after another.
pub open spec fn trees_text(s: Seq<Tree>, k: nat, n: nat) -> Option<Seq<char>>
    decreases s, k,
{
    if k == 0 || k > s.len() {
        Some(Seq::empty())
    } else {
        opt_cat(trees_text(s, (k - 1) as nat, n), tree_text(s[k - 1], n))
    }
}

/// The text that generation writes for statements: the walk of the tree
/// they build; `None` when one names a built-in type that the table lacks.
pub open spec fn generated_text(stmts: Seq<Statement>) -> Option<Seq<char>> {
    tree_text(build_tree(stmts), 0)
}

/// Generation is a function of the statements alone: the same statements
/// give the same text, or fail alike, on every run.
pub proof fn lemma_generation_deterministic(a: Seq<Statement>, b: Seq<Statement>)
    requires
        a == b,
    ensures
        generated_text(a) == generated_text(b),
        build_tree(a) == build_tree(b),
{
}

/// The level of the builder at which a node is walked: a module one level
/// above its own, the root at 0.
pub open spec fn entry_level(h: Hierarchy) -> nat {
    match h {
        Hierarchy::Namespace { level, .. } => if level == 0 {
            0
        } else {
            (level - 1) as nat
        },
        _ => 0,
    }
}

pub proof fn lemma_trees_text_prefix_none(s: Seq<Tree>, i: nat, k: nat, n: nat)
    requires
        i <= k <= s.len(),
        trees_text(s, i, n) is None,
    ensures
        trees_text(s, k, n) is None,
    decreases k - i,
{
    if i < k {
        lemma_trees_text_prefix_none(s, i + 1, k, n);
    }
}

impl Hierarchy {
    /// Writes the tree depth first: a module opens a block, its nodes follow
    /// in order, then the block closes; the root writes its nodes alone.
    pub fn write_to(&self, builder: &mut StmtBuilder) -> (r: Result<(), GenError>)
        requires
            well_formed(*self),
            *self is Statement ==> old(builder).level() + 3 < usize::MAX,
            *self is Namespace ==> old(builder).level() == entry_level(*self),
        ensures
            r matches Err(GenError::UnsupportedType(c)) ==> known_of_code(c) is None,
            r is Ok <==> tree_text(model(*self), old(builder).level()) is Some,
            r is Ok ==> final(builder).text() == old(builder).text() + tree_text(
                model(*self),
                old(builder).level(),
            )->0,
            r is Ok ==> final(builder).level() == old(builder).level(),
        decreases self,
    {
        let ghost n = builder.level();
        match self {
            Hierarchy::Statement(stmt) => builder.append_statemet(stmt),
            Hierarchy::Namespace { level, name, children } => {
                let ghost inner: nat = *level as nat;
                if *level != 0 {
                    builder.descend(name.as_str());
                }
                let ghost base = builder.text();
                let len = children.len();
                let ghost ms = models(children@, len as nat);
                proof {
                    lemma_models_index(children@, len as nat);
                }
                for i in 0..len
                    invariant
                        len == children.len(),
                        *self is Namespace,
                        self->children == *children,
                        self->level == *level,
                        well_formed(*self),
                        builder.level() == inner,
                        inner == *level,
                        n == old(builder).level(),
                        *level != 0 ==> n + 1 == *level,
                        *level == 0 ==> n == 0,
                        ms == models(children@, len as nat),
                        ms.len() == len,
                        forall|j: int| 0 <= j < len ==> #[trigger] ms[j] == model(children[j]),
                        trees_text(ms, i as nat, inner) is Some,
                        builder.text() == base + trees_text(ms, i as nat, inner)->0,
                {
                    assert(decreases_to!(*self => *children));
                    assert(decreases_to!(*children => children[i as int]));
                    assert(well_formed(children[i as int]));
                    assert(ms[i as int] == model(children[i as int]));
                    let r = children[i].write_to(builder);
                    if r.is_err() {
                        proof {
                            lemma_trees_text_prefix_none(ms, (i + 1) as nat, len as nat, inner);
                        }
                        return r;
                    }
                    assert(builder.text() =~= base + trees_text(ms, (i + 1) as nat, inner)->0);
                }
                if *level != 0 {
                    builder.go_up();
                    assert(builder.text() =~= old(builder).text() + tree_text(model(*self), n)->0);
                } else {
                    assert(builder.text() =~= old(builder).text() + tree_text(model(*self), n)->0);
                }
                Ok(())
            },
        }
    }
}

/// Whether every statement has a name.
pub open spec fn names_present(stmts: Seq<Statement>) -> bool {
    forall|i: int| 0 <= i < stmts.len() ==> #[trigger] stmts[i].name@.len() > 0
}

/// Generates the Rust source for an export: its statements placed in the
/// module tree that their names describe, written depth first. A statement
/// with an empty name stops generation.
pub fn generate_code(export: Export) -> (r: Result<String, GenError>)
    requires
        forall|i: int|
            0 <= i < export.statements.len() ==> #[trigger] export.statements[i].name@.len() + 4
                < usize::MAX,
    ensures
        !names_present(export.statements@) ==> r matches Err(GenError::InvalidName),
        names_present(export.statements@) ==> (r is Ok <==> generated_text(
            export.statements@,
        ) is Some),
        r matches Ok(text) ==> text@ == generated_text(export.statements@)->0,
        r matches Err(GenError::UnsupportedType(c)) ==> known_of_code(c) is None,
{
    let len = export.statements.len();
    for i in 0..len
        invariant
            len == export.statements.len(),
            forall|j: int| 0 <= j < i ==> #[trigger] export.statements[j].name@.len() > 0,
    {
        if export.statements[i].name.as_str().is_empty() {
            return Err(GenError::InvalidName);
        }
    }
    let hierarchy = from_export(export);
    let mut builder = StmtBuilder::new();
    let r = hierarchy.write_to(&mut builder);
    match r {
        Ok(()) => {
            let text = builder.build();
            Ok(text)
        },
        Err(e) => Err(e),
    }
}

/// Places the statements of an export, in order, under the modules their
/// names give.
pub fn from_export(export: Export) -> (h: Hierarchy)
    requires
        names_present(export.statements@),
        forall|i: int|
            0 <= i < export.statements.len() ==> #[trigger] export.statements[i].name@.len() + 4
                < usize::MAX,
    ensures
        h is Namespace,
        h->level == 0,
        well_formed(h),
        forall|p: Seq<Seq<char>>|
            #[trigger] statements_at(h, p) == statements_with_path(export.statements@, p),
        model(h) == build_tree(export.statements@),
{
    let mut h = Hierarchy::new();
    let ghost all = export.statements@;
    assert(all.take(0) =~= Seq::<Statement>::empty());
    for stmt in it: export.statements.into_iter()
        invariant
            it.seq() == all,
            forall|i: int| 0 <= i < all.len() ==> #[trigger] all[i].name@.len() + 4 < usize::MAX,
            names_present(all),
            h is Namespace,
            h->level == 0,
            well_formed(h),
            forall|p: Seq<Seq<char>>|
                #[trigger] statements_at(h, p) == statements_with_path(all.take(it.index() as int), p),
            model(h) == build_tree(all.take(it.index() as int)),
    {
        let ghost k = it.index() as int;
        assert(stmt == all[k]);
        let full_name = split_fullname(stmt.name.as_str());
        proof {
            lemma_split_dots_len(stmt.name@);
            lemma_split_dots_nonempty(stmt.name@);
            assert(views(full_name.namespaces@).len() == full_name.namespaces@.len());
            assert(namespaces_of(stmt.name@).len() == split_dots(stmt.name@).len() - 1);
        }
        let ghost st = stmt;
        let ghost path = views(full_name.namespaces@);
        h.append(stmt, full_name);
        assert(path.subrange(0, path.len() as int) =~= path);
        assert(all.take(k + 1).drop_last() =~= all.take(k));
        assert(all.take(k + 1).last() == st);
    }
    assert(all.take(all.len() as int) =~= all);
    h
}

} // verus!
