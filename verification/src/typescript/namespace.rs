//! The tree of namespaces, keyed by the parts of dotted module paths, in
//! which the fragments of each module are collected.

use crate::error::{failure, Error, ErrorKind, ErrorModel};
use crate::sorted_map::{
    as_entries, index_of, insert_into, inserted, lemma_index_of, lemma_lower_bound,
    lemma_same_keys, position_in, sorted_keys, Entries,
};
use crate::typescript::model::{members_model, TSType, TSTypeModel};
use vstd::prelude::*;
use vstd::string::*;

verus! {

/// A node of the tree: the root, which only has namespaces below it, or a
/// namespace with its own fragments and the namespaces below it.
///
/// The namespaces below a node are kept by key. `insert` puts each new one
/// where its key belongs, so a tree that is only ever filled through
/// `insert` has them in key order, each key once.
#[derive(Debug, PartialEq, Eq)]
pub enum NamespaceBuilder {
    Root { name: String, below: Vec<(String, NamespaceBuilder)> },
    Branch { name: String, members: Vec<TSType>, below: Vec<(String, NamespaceBuilder)> },
}

/// A [`NamespaceBuilder`] with its texts as plain sequences of characters.
pub ghost enum NamespaceModel {
    Root { name: Seq<char>, below: Entries<NamespaceModel> },
    Branch { name: Seq<char>, members: Seq<TSTypeModel>, below: Entries<NamespaceModel> },
}

impl NamespaceModel {
    /// The namespaces directly below this node.
    pub open spec fn children(self) -> Entries<NamespaceModel> {
        match self {
            NamespaceModel::Root { below, .. } => below,
            NamespaceModel::Branch { below, .. } => below,
        }
    }

    /// This node with other namespaces below it.
    pub open spec fn with_children(self, below: Entries<NamespaceModel>) -> NamespaceModel {
        match self {
            NamespaceModel::Root { name, .. } => NamespaceModel::Root { name, below },
            NamespaceModel::Branch { name, members, .. } => NamespaceModel::Branch {
                name,
                members,
                below,
            },
        }
    }
}

impl NamespaceBuilder {
    /// The model of a tree.
    pub open spec fn model(self) -> NamespaceModel
        decreases self,
    {
        match self {
            NamespaceBuilder::Root { name, below } => NamespaceModel::Root {
                name: name@,
                below: Seq::new(
                    below@.len(),
                    |i: int|
                        if 0 <= i < below@.len() {
                            (below@[i].0@, below@[i].1.model())
                        } else {
                            arbitrary()
                        },
                ),
            },
            NamespaceBuilder::Branch { name, members, below } => NamespaceModel::Branch {
                name: name@,
                members: members_model(members@),
                below: Seq::new(
                    below@.len(),
                    |i: int|
                        if 0 <= i < below@.len() {
                            (below@[i].0@, below@[i].1.model())
                        } else {
                            arbitrary()
                        },
                ),
            },
        }
    }
}

impl View for NamespaceBuilder {
    type V = NamespaceModel;

    open spec fn view(&self) -> NamespaceModel {
        self.model()
    }
}

/// The models of the namespaces below a node.
pub open spec fn children_model(below: Seq<(String, NamespaceBuilder)>) -> Entries<NamespaceModel> {
    Seq::new(below.len(), |i: int| (below[i].0@, below[i].1@))
}

/// The model of a tree, said over the models of its parts.
pub proof fn lemma_namespace_model(ns: NamespaceBuilder)
    ensures
        ns is Root ==> ns@ == (NamespaceModel::Root {
            name: ns->Root_name@,
            below: children_model(ns->Root_below@),
        }),
        ns is Branch ==> ns@ == (NamespaceModel::Branch {
            name: ns->Branch_name@,
            members: members_model(ns->members@),
            below: children_model(ns->Branch_below@),
        }),
{
    if ns is Root {
        assert(ns@->Root_below =~= children_model(ns->Root_below@));
    }
    if ns is Branch {
        assert(ns@->Branch_below =~= children_model(ns->Branch_below@));
    }
}

/// Storing a namespace commutes with taking models.
pub proof fn lemma_children_inserted(
    before: Seq<(String, NamespaceBuilder)>,
    after: Seq<(String, NamespaceBuilder)>,
    key: Seq<char>,
    value: NamespaceBuilder,
)
    requires
        as_entries(after) == inserted(as_entries(before), key, value),
    ensures
        children_model(after) == inserted(children_model(before), key, value@),
{
    lemma_same_keys(as_entries(before), children_model(before), key);
    lemma_lower_bound(as_entries(before), key);
    let stored = inserted(as_entries(before), key, value);
    let models = inserted(children_model(before), key, value@);
    assert(after.len() == stored.len());
    assert forall|i: int| 0 <= i < after.len() implies (#[trigger] children_model(after)[i])
        == models[i] by {
        assert(as_entries(after)[i] == stored[i]);
        assert(as_entries(after)[i] == (after[i].0@, after[i].1));
    }
    assert(children_model(after) =~= models);
}

/// The failure of storing a fragment at the root.
pub open spec fn root_failure() -> ErrorModel {
    failure(
        ErrorKind::RootInsert,
        "path provided led to a Root namespace builder. Can't insert!"@,
    )
}

/// A namespace that holds nothing yet.
pub open spec fn empty_branch(name: Seq<char>) -> NamespaceModel {
    NamespaceModel::Branch { name, members: Seq::empty(), below: Seq::empty() }
}

/// The namespaces `below` with `child` under the key `part`: in place of
/// the namespace that the key had, or else as a new entry where the key
/// belongs.
pub open spec fn upserted(below: Entries<NamespaceModel>, part: Seq<char>, child: NamespaceModel) -> Entries<
    NamespaceModel,
> {
    let at = index_of(below, part);
    if at < below.len() {
        below.update(at, (part, child))
    } else {
        inserted(below, part, child)
    }
}

/// The namespace below `ns` under the key `part`: the one that is there, or
/// a new, empty one.
pub open spec fn child_or_new(ns: NamespaceModel, part: Seq<char>) -> NamespaceModel {
    let at = index_of(ns.children(), part);
    if at < ns.children().len() {
        ns.children()[at].1
    } else {
        empty_branch(part)
    }
}

/// The tree after the fragment `value` was stored at the end of `path`.
///
/// The path is walked from `ns` downwards; namespaces that are missing on
/// the way are made. The fragment is appended to the fragments of the
/// namespace at which the path ends. A path that ends at a root fails.
pub open spec fn stored(ns: NamespaceModel, path: Seq<Seq<char>>, value: TSTypeModel) -> Result<
    NamespaceModel,
    ErrorModel,
>
    decreases path.len(),
{
    if path.len() == 0 {
        match ns {
            NamespaceModel::Root { .. } => Err(root_failure()),
            NamespaceModel::Branch { name, members, below } => Ok(
                NamespaceModel::Branch { name, members: members.push(value), below },
            ),
        }
    } else {
        match stored(child_or_new(ns, path[0]), path.drop_first(), value) {
            Err(e) => Err(e),
            Ok(child) => Ok(ns.with_children(upserted(ns.children(), path[0], child))),
        }
    }
}

impl NamespaceModel {
    /// The name of the node.
    pub open spec fn name(self) -> Seq<char> {
        match self {
            NamespaceModel::Root { name, .. } => name,
            NamespaceModel::Branch { name, .. } => name,
        }
    }

    /// What holds of every tree that was made by `root` and filled by
    /// `insert`: below every node the namespaces stand in the order of their
    /// keys, each key once, and each is a namespace named by its key.
    pub open spec fn well_formed(self) -> bool
        decreases self,
    {
        &&& sorted_keys(self.children())
        &&& forall|i: int|
            0 <= i < self.children().len() ==> {
                &&& (#[trigger] self.children()[i]).1 is Branch
                &&& self.children()[i].1.name() == self.children()[i].0
                &&& self.children()[i].1.well_formed()
            }
    }
}

/// Storing a fragment in a well-formed tree fails only where the path is
/// empty and the tree is a root, and it leaves the tree well-formed, a root
/// a root and a namespace a namespace of the same name.
pub proof fn lemma_stored_well_formed(ns: NamespaceModel, path: Seq<Seq<char>>, value: TSTypeModel)
    requires
        ns.well_formed(),
    ensures
        stored(ns, path, value) is Err <==> path.len() == 0 && ns is Root,
        stored(ns, path, value) is Ok ==> {
            &&& stored(ns, path, value)->Ok_0.well_formed()
            &&& stored(ns, path, value)->Ok_0.name() == ns.name()
            &&& stored(ns, path, value)->Ok_0 is Branch <==> ns is Branch
        },
    decreases path.len(),
{
    if path.len() > 0 {
        let below = ns.children();
        let part = path[0];
        let at = index_of(below, part);
        let child = child_or_new(ns, part);
        lemma_index_of(below, part);
        if at < below.len() {
            assert(below[at].1.well_formed());
        } else {
            assert(empty_branch(part).well_formed());
        }
        lemma_stored_well_formed(child, path.drop_first(), value);
        let grown = stored(child, path.drop_first(), value)->Ok_0;
        let after = upserted(below, part, grown);
        if at < below.len() {
            assert forall|i: int, j: int| 0 <= i < j < after.len() implies crate::text::key_lt(
                #[trigger] after[i].0,
                #[trigger] after[j].0,
            ) by {
                assert(after[i].0 == below[i].0);
                assert(after[j].0 == below[j].0);
            }
            assert forall|i: int| 0 <= i < after.len() implies {
                &&& (#[trigger] after[i]).1 is Branch
                &&& after[i].1.name() == after[i].0
                &&& after[i].1.well_formed()
            } by {
                if i != at {
                    assert(after[i] == below[i]);
                }
            }
        } else {
            crate::sorted_map::lemma_inserted_sorted(below, part, grown);
            crate::sorted_map::lemma_inserted_entries(below, part, grown);
            assert forall|i: int| 0 <= i < after.len() implies {
                &&& (#[trigger] after[i]).1 is Branch
                &&& after[i].1.name() == after[i].0
                &&& after[i].1.well_formed()
            } by {
                if after[i] != (part, grown) {
                    let j = choose|j: int| 0 <= j < below.len() && below[j] == after[i];
                    assert(below[j].1.well_formed());
                }
            }
        }
        assert(ns.with_children(after).children() == after);
    }
}

/// The declaration that a tree stands for: the root becomes the module, and
/// each namespace below becomes a namespace declaration that holds its own
/// fragments first and then the namespaces below it, in key order.
pub open spec fn declaration_of(ns: NamespaceModel) -> TSTypeModel
    decreases ns,
{
    match ns {
        NamespaceModel::Root { name, below } => TSTypeModel::ModuleDecl {
            name,
            members: Seq::new(
                below.len(),
                |i: int|
                    if 0 <= i < below.len() {
                        declaration_of(below[i].1)
                    } else {
                        arbitrary()
                    },
            ),
        },
        NamespaceModel::Branch { name, members, below } => TSTypeModel::NamespaceDecl {
            name,
            members: members + Seq::new(
                below.len(),
                |i: int|
                    if 0 <= i < below.len() {
                        declaration_of(below[i].1)
                    } else {
                        arbitrary()
                    },
            ),
        },
    }
}

/// The parts of a path as sequences of characters.
pub open spec fn path_model(path: Seq<&str>) -> Seq<Seq<char>> {
    Seq::new(path.len(), |i: int| path[i]@)
}

impl NamespaceBuilder {
    /// The root of a tree; `name` is the name of the module it becomes.
    pub fn root(name: &str) -> (ns: Self)
        ensures
            ns@ == (NamespaceModel::Root { name: name@, below: Seq::empty() }),
            ns@.well_formed(),
    {
        let ns = NamespaceBuilder::Root { name: name.to_owned(), below: Vec::new() };
        proof {
            lemma_namespace_model(ns);
            assert(children_model(ns->Root_below@) =~= Seq::empty());
        }
        ns
    }

    /// A namespace that holds nothing yet.
    fn branch(name: &str) -> (ns: Self)
        ensures
            ns@ == empty_branch(name@),
    {
        let ns = NamespaceBuilder::Branch {
            name: name.to_owned(),
            members: Vec::new(),
            below: Vec::new(),
        };
        proof {
            lemma_namespace_model(ns);
            assert(children_model(ns->Branch_below@) =~= Seq::empty());
            assert(members_model(ns->members@) =~= Seq::empty());
        }
        ns
    }

    /// Stores `value` below the namespaces of `below`, at the end of the
    /// path that starts with part `start`.
    fn store_below(
        below: &mut Vec<(String, NamespaceBuilder)>,
        path: &[&str],
        start: usize,
        value: TSType,
    ) -> (r: Result<(), Error>)
        requires
            start < path@.len(),
        ensures
            match r {
                Ok(_) => {
                    let part = path@[start as int]@;
                    let at = index_of(children_model(old(below)@), part);
                    let child = if at < old(below)@.len() {
                        children_model(old(below)@)[at].1
                    } else {
                        empty_branch(part)
                    };
                    &&& stored(child, path_model(path@).skip(start + 1), value@) is Ok
                    &&& children_model(final(below)@) == upserted(
                        children_model(old(below)@),
                        part,
                        stored(child, path_model(path@).skip(start + 1), value@)->Ok_0,
                    )
                },
                Err(e) => {
                    let part = path@[start as int]@;
                    let at = index_of(children_model(old(below)@), part);
                    let child = if at < old(below)@.len() {
                        children_model(old(below)@)[at].1
                    } else {
                        empty_branch(part)
                    };
                    &&& stored(child, path_model(path@).skip(start + 1), value@) == Err::<
                        NamespaceModel,
                        ErrorModel,
                    >(e@)
                    &&& children_model(final(below)@) == children_model(old(below)@)
                },
            },
        decreases path@.len() - start, 0nat,
    {
        let part = path[start];
        let ghost before = below@;
        proof {
            lemma_same_keys(as_entries(below@), children_model(below@), part@);
            lemma_index_of(as_entries(below@), part@);
        }
        match position_in(below, part) {
            Some(i) => {
                let r = below[i].1.insert_from(path, start + 1, value);
                proof {
                    if r is Ok {
                        assert(children_model(below@) =~= children_model(before).update(
                            i as int,
                            (part@, below@[i as int].1@),
                        ));
                    } else {
                        assert(children_model(below@) =~= children_model(before));
                    }
                }
                r
            },
            None => {
                let mut child = NamespaceBuilder::branch(part);
                match child.insert_from(path, start + 1, value) {
                    Err(e) => Err(e),
                    Ok(_) => {
                        insert_into(below, part.to_owned(), child);
                        proof {
                            lemma_children_inserted(before, below@, part@, child);
                        }
                        Ok(())
                    },
                }
            },
        }
    }

    /// Stores `value` at the end of the path that starts with part `start`.
    fn insert_from(&mut self, path: &[&str], start: usize, value: TSType) -> (r: Result<(), Error>)
        requires
            start <= path@.len(),
        ensures
            match r {
                Ok(_) => stored(old(self)@, path_model(path@).skip(start as int), value@) == Ok::<
                    NamespaceModel,
                    ErrorModel,
                >(final(self)@),
                Err(e) => stored(old(self)@, path_model(path@).skip(start as int), value@)
                    == Err::<NamespaceModel, ErrorModel>(e@) && final(self)@ == old(self)@,
            },
        decreases path@.len() - start, 1nat,
    {
        let ghost rest = path_model(path@).skip(start as int);
        proof {
            lemma_namespace_model(*self);
        }
        if start == path.len() {
            match self {
                NamespaceBuilder::Root { .. } => Err(
                    Error::new(
                        ErrorKind::RootInsert,
                        String::from_str(
                            "path provided led to a Root namespace builder. Can't insert!",
                        ),
                    ),
                ),
                NamespaceBuilder::Branch { members, .. } => {
                    let ghost before = members_model(members@);
                    members.push(value);
                    proof {
                        assert(members_model(members@) =~= before.push(value@));
                        lemma_namespace_model(*self);
                    }
                    Ok(())
                },
            }
        } else {
            proof {
                assert(rest[0] == path@[start as int]@);
                assert(rest.drop_first() =~= path_model(path@).skip(start + 1));
            }
            let r = match self {
                NamespaceBuilder::Root { below, .. } => NamespaceBuilder::store_below(
                    below,
                    path,
                    start,
                    value,
                ),
                NamespaceBuilder::Branch { below, .. } => NamespaceBuilder::store_below(
                    below,
                    path,
                    start,
                    value,
                ),
            };
            proof {
                lemma_namespace_model(*self);
            }
            r
        }
    }

    /// Stores the fragment `value` in the namespace that `path` leads to,
    /// making the namespaces on the way where they are missing. A path
    /// that ends at a root is refused, and the tree stays as it is.
    pub fn insert(&mut self, path: &[&str], value: TSType) -> (r: Result<(), Error>)
        ensures
            match r {
                Ok(_) => stored(old(self)@, path_model(path@), value@) == Ok::<
                    NamespaceModel,
                    ErrorModel,
                >(final(self)@),
                Err(e) => stored(old(self)@, path_model(path@), value@) == Err::<
                    NamespaceModel,
                    ErrorModel,
                >(e@) && final(self)@ == old(self)@,
            },
            old(self)@.well_formed() ==> final(self)@.well_formed(),
            old(self)@.well_formed() ==> (r is Err <==> path@.len() == 0 && old(self)@ is Root),
    {
        proof {
            assert(path_model(path@).skip(0) =~= path_model(path@));
            if self@.well_formed() {
                lemma_stored_well_formed(self@, path_model(path@), value@);
            }
        }
        self.insert_from(path, 0, value)
    }

    /// The declarations of the namespaces of `below`, in order, appended to
    /// `members`.
    fn declare_below(members: &mut Vec<TSType>, below: Vec<(String, NamespaceBuilder)>)
        ensures
            members_model(final(members)@) == members_model(old(members)@) + Seq::new(
                children_model(below@).len(),
                |i: int|
                    if 0 <= i < children_model(below@).len() {
                        declaration_of(children_model(below@)[i].1)
                    } else {
                        arbitrary()
                    },
            ),
        decreases below, 0nat,
    {
        let ghost models = children_model(below@);
        let ghost first = members_model(members@);
        for entry in it: below.into_iter()
            invariant
                it.seq() == below@,
                models == children_model(below@),
                members_model(members@).len() == first.len() + it.index(),
                forall|j: int| 0 <= j < first.len() ==> members_model(members@)[j] == first[j],
                forall|j: int|
                    0 <= j < it.index() ==> members_model(members@)[first.len() + j]
                        == declaration_of(models[j].1),
        {
            let ghost before = members_model(members@);
            proof {
                let done = it.index() as int;
                assert(entry == below@[done]);
                assert(decreases_to!(below => below@[done]));
            }
            let declaration = entry.1.into_tstype();
            members.push(declaration);
            proof {
                assert(members_model(members@) =~= before.push(declaration@));
            }
        }
        proof {
            assert(members_model(members@) =~= first + Seq::new(
                models.len(),
                |i: int|
                    if 0 <= i < models.len() {
                        declaration_of(models[i].1)
                    } else {
                        arbitrary()
                    },
            ));
        }
    }

    /// The declaration that the tree stands for.
    pub fn into_tstype(self) -> (t: TSType)
        ensures
            t@ == declaration_of(self@),
        decreases self, 1nat,
    {
        let ghost tree = self@;
        proof {
            lemma_namespace_model(self);
        }
        match self {
            NamespaceBuilder::Root { name, below } => {
                let mut members: Vec<TSType> = Vec::new();
                proof {
                    assert(members_model(members@) =~= Seq::empty());
                    assert(tree == (NamespaceModel::Root {
                        name: name@,
                        below: children_model(below@),
                    }));
                }
                NamespaceBuilder::declare_below(&mut members, below);
                proof {
                    assert(members_model(members@) =~= declaration_of(tree)->ModuleDecl_members);
                }
                TSType::new_module(name.as_str(), members)
            },
            NamespaceBuilder::Branch { name, members, below } => {
                proof {
                    assert(tree == (NamespaceModel::Branch {
                        name: name@,
                        members: members_model(members@),
                        below: children_model(below@),
                    }));
                }
                let mut members = members;
                NamespaceBuilder::declare_below(&mut members, below);
                proof {
                    assert(members_model(members@) =~= declaration_of(tree)->NamespaceDecl_members);
                }
                TSType::new_namespace(name.as_str(), members)
            },
        }
    }
}

} // verus!
