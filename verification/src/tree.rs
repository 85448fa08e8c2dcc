use vstd::prelude::*;

verus! {

/// A semi-structured document tree: scalars, sequences, and mappings whose
/// entries keep their insertion order.  It stands apart from any particular
/// serialization format.
#[derive(Debug, PartialEq)]
pub enum Tree {
    Null,
    Bool(bool),
    Int(i64),
    Str(String),
    Sequence(Vec<Tree>),
    Mapping(Vec<(String, Tree)>),
}

/// Mathematical model of a `Tree`.
pub enum TreeV {
    Null,
    Bool(bool),
    Int(int),
    Str(Seq<char>),
    Sequence(Seq<TreeV>),
    Mapping(Seq<(Seq<char>, TreeV)>),
}

pub open spec fn items_view(ts: Seq<Tree>) -> Seq<TreeV>
    decreases ts,
{
    if ts.len() == 0 {
        Seq::empty()
    } else {
        seq![tree_view(ts[0])] + items_view(ts.skip(1))
    }
}

pub open spec fn entries_view(es: Seq<(String, Tree)>) -> Seq<(Seq<char>, TreeV)>
    decreases es,
{
    if es.len() == 0 {
        Seq::empty()
    } else {
        seq![(es[0].0@, tree_view(es[0].1))] + entries_view(es.skip(1))
    }
}

pub open spec fn tree_view(t: Tree) -> TreeV
    decreases t,
{
    match t {
        Tree::Null => TreeV::Null,
        Tree::Bool(b) => TreeV::Bool(b),
        Tree::Int(i) => TreeV::Int(i as int),
        Tree::Str(s) => TreeV::Str(s@),
        Tree::Sequence(items) => TreeV::Sequence(items_view(items@)),
        Tree::Mapping(entries) => TreeV::Mapping(entries_view(entries@)),
    }
}

/// `items_view` maps its sequence elementwise.
pub proof fn lemma_items_view(ts: Seq<Tree>)
    ensures
        items_view(ts).len() == ts.len(),
        forall|i: int| 0 <= i < ts.len() ==> items_view(ts)[i] == tree_view(ts[i]),
    decreases ts.len(),
{
    if ts.len() > 0 {
        lemma_items_view(ts.skip(1));
    }
}

/// `entries_view` maps its sequence elementwise.
pub proof fn lemma_entries_view(es: Seq<(String, Tree)>)
    ensures
        entries_view(es).len() == es.len(),
        forall|i: int| 0 <= i < es.len()
            ==> entries_view(es)[i] == (es[i].0@, tree_view(es[i].1)),
    decreases es.len(),
{
    if es.len() > 0 {
        lemma_entries_view(es.skip(1));
    }
}

impl View for Tree {
    type V = TreeV;

    open spec fn view(&self) -> TreeV {
        tree_view(*self)
    }
}

/// Nesting depth of a tree; the recursive parser's termination measure.
pub open spec fn tree_height(t: Tree) -> nat
    decreases t,
{
    match t {
        Tree::Null => 0,
        Tree::Bool(_) => 0,
        Tree::Int(_) => 0,
        Tree::Str(_) => 0,
        Tree::Sequence(items) => 1 + items_height(items@),
        Tree::Mapping(entries) => 1 + entries_height(entries@),
    }
}

pub open spec fn items_height(ts: Seq<Tree>) -> nat
    decreases ts,
{
    if ts.len() == 0 {
        0
    } else if tree_height(ts[0]) > items_height(ts.skip(1)) {
        tree_height(ts[0])
    } else {
        items_height(ts.skip(1))
    }
}

pub open spec fn entries_height(es: Seq<(String, Tree)>) -> nat
    decreases es,
{
    if es.len() == 0 {
        0
    } else if tree_height(es[0].1) > entries_height(es.skip(1)) {
        tree_height(es[0].1)
    } else {
        entries_height(es.skip(1))
    }
}

/// Every item of a sequence is bounded by the sequence's height.
pub proof fn lemma_items_height(ts: Seq<Tree>)
    ensures
        forall|i: int| 0 <= i < ts.len() ==> tree_height(#[trigger] ts[i]) <= items_height(ts),
    decreases ts.len(),
{
    if ts.len() > 0 {
        lemma_items_height(ts.skip(1));
        assert(forall|i: int| 1 <= i < ts.len() ==> #[trigger] ts[i] == ts.skip(1)[i - 1]);
    }
}

/// Every entry value of a mapping is bounded by the mapping's height.
pub proof fn lemma_entries_height(es: Seq<(String, Tree)>)
    ensures
        forall|i: int| 0 <= i < es.len() ==> tree_height((#[trigger] es[i]).1) <= entries_height(es),
    decreases es.len(),
{
    if es.len() > 0 {
        lemma_entries_height(es.skip(1));
        assert(forall|i: int| 1 <= i < es.len() ==> #[trigger] es[i] == es.skip(1)[i - 1]);
    }
}

/// The index of the first entry of a mapping that carries the key, or -1 if
/// no entry does.
pub open spec fn key_index(es: Seq<(Seq<char>, TreeV)>, k: Seq<char>) -> int
    decreases es.len(),
{
    if es.len() == 0 {
        -1
    } else if es[0].0 == k {
        0
    } else {
        let r = key_index(es.skip(1), k);
        if r < 0 {
            -1
        } else {
            r + 1
        }
    }
}

/// `key_index` is -1 exactly when the key is absent; otherwise it is the
/// first index that carries the key.
pub proof fn lemma_key_index(es: Seq<(Seq<char>, TreeV)>, k: Seq<char>)
    ensures
        key_index(es, k) == -1 ==> forall|j: int| 0 <= j < es.len() ==> (#[trigger] es[j]).0 != k,
        key_index(es, k) != -1 ==> {
            let i = key_index(es, k);
            &&& 0 <= i < es.len()
            &&& es[i].0 == k
            &&& forall|j: int| 0 <= j < i ==> (#[trigger] es[j]).0 != k
        },
    decreases es.len(),
{
    if es.len() > 0 && es[0].0 != k {
        lemma_key_index(es.skip(1), k);
        assert(forall|j: int| 1 <= j < es.len() ==> #[trigger] es[j] == es.skip(1)[j - 1]);
    }
}

/// A position that carries the key and is preceded by no position that does
/// is exactly `key_index`.
pub proof fn lemma_key_index_first(es: Seq<(Seq<char>, TreeV)>, k: Seq<char>, m: int)
    requires
        0 <= m < es.len(),
        es[m].0 == k,
        forall|j: int| 0 <= j < m ==> (#[trigger] es[j]).0 != k,
    ensures
        key_index(es, k) == m,
    decreases es.len(),
{
    if m > 0 {
        assert(es[0].0 != k);
        assert(forall|j: int| 0 <= j < es.len() - 1 ==> #[trigger] es.skip(1)[j] == es[j + 1]);
        lemma_key_index_first(es.skip(1), k, m - 1);
    }
}

/// Path-addressed mutation with create-on-write semantics: setting along an
/// empty path replaces the node; otherwise the value is set under the first
/// entry carrying the head key, which is appended when absent, and a node
/// that is not a mapping is replaced by one.
pub open spec fn tree_set(t: TreeV, path: Seq<Seq<char>>, v: TreeV) -> TreeV
    decreases path.len(),
{
    if path.len() == 0 {
        v
    } else {
        let es = match t {
            TreeV::Mapping(es) => es,
            _ => Seq::<(Seq<char>, TreeV)>::empty(),
        };
        let i = key_index(es, path[0]);
        if i >= 0 {
            TreeV::Mapping(es.update(i, (path[0], tree_set(es[i].1, path.skip(1), v))))
        } else {
            TreeV::Mapping(es.push((path[0], tree_set(TreeV::Null, path.skip(1), v))))
        }
    }
}

/// Forcing the same value at the same path twice yields the same tree as
/// doing it once.
pub proof fn lemma_tree_set_idempotent(t: TreeV, path: Seq<Seq<char>>, v: TreeV)
    ensures
        tree_set(tree_set(t, path, v), path, v) == tree_set(t, path, v),
    decreases path.len(),
{
    if path.len() > 0 {
        let es = match t {
            TreeV::Mapping(es) => es,
            _ => Seq::<(Seq<char>, TreeV)>::empty(),
        };
        let k = path[0];
        let rest = path.skip(1);
        let i = key_index(es, k);
        lemma_key_index(es, k);
        if i >= 0 {
            let child1 = tree_set(es[i].1, rest, v);
            let es1 = es.update(i, (k, child1));
            lemma_key_index_first(es1, k, i);
            lemma_tree_set_idempotent(es[i].1, rest, v);
            assert(es1.update(i, (k, tree_set(es1[i].1, rest, v))) =~= es1);
        } else {
            let child1 = tree_set(TreeV::Null, rest, v);
            let es1 = es.push((k, child1));
            let m = es.len() as int;
            assert(forall|j: int| 0 <= j < m ==> #[trigger] es1[j] == es[j]);
            lemma_key_index_first(es1, k, m);
            lemma_tree_set_idempotent(TreeV::Null, rest, v);
            assert(es1.update(m, (k, tree_set(es1[m].1, rest, v))) =~= es1);
        }
    }
}

/// Finds the first entry of a mapping that carries the key.
pub(crate) fn find_key(es: &Vec<(String, Tree)>, key: &String) -> (r: Option<usize>)
    ensures
        match r {
            Some(j) => j < es@.len() && key_index(entries_view(es@), key@) == j as int,
            None => key_index(entries_view(es@), key@) == -1,
        },
{
    let ghost es_v = entries_view(es@);
    proof {
        lemma_entries_view(es@);
    }
    let mut j: usize = 0;
    while j < es.len()
        invariant
            j <= es@.len(),
            es_v == entries_view(es@),
            es_v.len() == es@.len(),
            forall|jj: int| 0 <= jj < es@.len() ==> #[trigger] es_v[jj] == (es@[jj].0@, tree_view(es@[jj].1)),
            forall|jj: int| 0 <= jj < j ==> (#[trigger] es_v[jj]).0 != key@,
        decreases es@.len() - j,
    {
        let e = &es[j];
        if e.0.eq(key) {
            proof {
                lemma_key_index_first(es_v, key@, j as int);
            }
            return Some(j);
        }
        j += 1;
    }
    proof {
        lemma_key_index(es_v, key@);
    }
    None
}

impl Tree {
    /// Forces `value` at `path`, creating intermediate mappings where the
    /// path does not exist and replacing nodes that are not mappings.
    pub fn set_path(self, path: &Vec<String>, value: Tree) -> (r: Tree)
        ensures
            tree_view(r) == tree_set(tree_view(self), path.deep_view(), tree_view(value)),
    {
        proof {
            assert(path.deep_view().skip(0) =~= path.deep_view());
        }
        self.set_path_from(path, 0, value)
    }

    fn set_path_from(self, path: &Vec<String>, from: usize, value: Tree) -> (r: Tree)
        requires
            from <= path@.len(),
        ensures
            tree_view(r) == tree_set(
                tree_view(self),
                path.deep_view().skip(from as int),
                tree_view(value),
            ),
        decreases path@.len() - from,
    {
        let ghost pd = path.deep_view();
        let ghost p = pd.skip(from as int);
        if from == path.len() {
            proof {
                assert(p =~= Seq::<Seq<char>>::empty());
            }
            return value;
        }
        let ghost self_v = tree_view(self);
        let mut es: Vec<(String, Tree)> = match self {
            Tree::Mapping(es) => es,
            _ => Vec::new(),
        };
        let ghost es_v = entries_view(es@);
        proof {
            lemma_entries_view(es@);
            assert(p[0] == pd[from as int]);
            assert(p.skip(1) =~= pd.skip(from as int + 1));
        }
        let key: &String = &path[from];
        let found = find_key(&es, key);
        match found {
            Some(j) => {
                let ghost es0 = es@;
                let (k0, child) = es.remove(j);
                let new_child = child.set_path_from(path, from + 1, value);
                es.insert(j, (k0, new_child));
                proof {
                    lemma_key_index(es_v, key@);
                    assert(es@ =~= es0.update(j as int, (k0, new_child)));
                    lemma_entries_view(es@);
                    assert(entries_view(es@) =~= es_v.update(
                        j as int,
                        (p[0], tree_set(es_v[j as int].1, p.skip(1), tree_view(value))),
                    ));
                }
                Tree::Mapping(es)
            }
            None => {
                let new_child = Tree::Null.set_path_from(path, from + 1, value);
                let k0 = key.clone();
                es.push((k0, new_child));
                proof {
                    lemma_entries_view(es@);
                    assert(entries_view(es@) =~= es_v.push(
                        (p[0], tree_set(TreeV::Null, p.skip(1), tree_view(value))),
                    ));
                }
                Tree::Mapping(es)
            }
        }
    }
}

/// One corrective override: a literal value forced at an absolute path into
/// the tree before strict parsing.
pub struct Override {
    pub path: Vec<String>,
    pub value: Tree,
}

/// The result of applying a list of overrides in order.
pub open spec fn apply_overrides_v(t: TreeV, ovs: Seq<Override>) -> TreeV
    decreases ovs.len(),
{
    if ovs.len() == 0 {
        t
    } else {
        apply_overrides_v(
            tree_set(t, ovs[0].path.deep_view(), tree_view(ovs[0].value)),
            ovs.skip(1),
        )
    }
}

/// Applies each override in order, each one unconditionally.
pub fn apply_overrides(t: Tree, overrides: Vec<Override>) -> (r: Tree)
    ensures
        tree_view(r) == apply_overrides_v(tree_view(t), overrides@),
{
    let ghost ovs0 = overrides@;
    let ghost t0 = tree_view(t);
    let mut t = t;
    let mut overrides = overrides;
    while overrides.len() > 0
        invariant
            apply_overrides_v(t0, ovs0) == apply_overrides_v(tree_view(t), overrides@),
        decreases overrides.len(),
    {
        let ghost r0 = overrides@;
        let o = overrides.remove(0);
        proof {
            assert(r0.remove(0) =~= r0.skip(1));
        }
        let Override { path, value } = o;
        t = t.set_path(&path, value);
    }
    t
}

} // verus!
