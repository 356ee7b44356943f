//! The file tree shown in the sidebar of a recursive render.
use vstd::prelude::*;

use crate::paths::{
    components_of, opt_strs, parent_of, path_components, path_parent, path_strip_prefix,
    stripped_prefix,
};
use crate::html::{escape, escape_chars};
use crate::text::{
    lemma_seq_lt_irreflexive, lemma_seq_lt_transitive, lowercase, push_chars, push_str, seq_lt,
    seq_lt_exec, to_chars, to_lowercase,
};

verus! {

/// One entry of the sidebar tree: a rendered file (`path` is `Some`) or a
/// directory grouping further entries (`path` is `None`).
#[derive(Debug)]
pub struct SidebarNode {
    pub name: String,
    pub path: Option<String>,
    pub is_current: bool,
    pub children: Vec<SidebarNode>,
}

/// The mathematical value of a [`SidebarNode`].
pub struct NodeModel {
    pub name: Seq<char>,
    pub path: Option<Seq<char>>,
    pub is_current: bool,
    pub children: Seq<NodeModel>,
}

/// The text of an optional path.
pub open spec fn opt_view(o: Option<String>) -> Option<Seq<char>> {
    match o {
        Some(p) => Some(p@),
        None => None,
    }
}

/// The value of a node, children included.
pub open spec fn model(n: SidebarNode) -> NodeModel
    decreases n,
{
    NodeModel {
        name: n.name@,
        path: opt_view(n.path),
        is_current: n.is_current,
        children: models(n.children@),
    }
}

/// The values of a sequence of nodes.
pub open spec fn models(ns: Seq<SidebarNode>) -> Seq<NodeModel>
    decreases ns,
{
    if ns.len() == 0 {
        Seq::empty()
    } else {
        models(ns.drop_last()).push(model(ns.last()))
    }
}

/// The values of a sequence of nodes are taken element by element.
pub proof fn lemma_models(ns: Seq<SidebarNode>)
    ensures
        models(ns).len() == ns.len(),
        forall|i: int| 0 <= i < ns.len() ==> #[trigger] models(ns)[i] == model(ns[i]),
    decreases ns.len(),
{
    if ns.len() > 0 {
        lemma_models(ns.drop_last());
    }
}

/// Two node sequences have the same value when their nodes do, index by index.
pub proof fn lemma_models_ext(a: Seq<SidebarNode>, b: Seq<NodeModel>)
    requires
        a.len() == b.len(),
        forall|i: int| 0 <= i < a.len() ==> model(#[trigger] a[i]) == b[i],
    ensures
        models(a) == b,
{
    lemma_models(a);
    assert(models(a) =~= b);
}

/// A leaf entry for a rendered file.
pub open spec fn leaf(name: Seq<char>, path: Seq<char>, is_current: bool) -> NodeModel {
    NodeModel { name, path: Some(path), is_current, children: Seq::empty() }
}

/// The first directory entry at or after `i` named `name`.
pub open spec fn find_dir_from(ns: Seq<NodeModel>, name: Seq<char>, i: int) -> Option<int>
    decreases ns.len() - i,
{
    if i < 0 || i >= ns.len() {
        None
    } else if ns[i].path is None && ns[i].name == name {
        Some(i)
    } else {
        find_dir_from(ns, name, i + 1)
    }
}

/// `ns` with a leaf for the file placed under the directory chain `dirs`,
/// reusing the first existing directory entry of each name and appending
/// new directory entries where none exists.
pub open spec fn insert_entry(
    ns: Seq<NodeModel>,
    dirs: Seq<Seq<char>>,
    name: Seq<char>,
    path: Seq<char>,
    is_current: bool,
) -> Seq<NodeModel>
    decreases dirs.len(),
{
    if dirs.len() == 0 {
        ns.push(leaf(name, path, is_current))
    } else {
        match find_dir_from(ns, dirs[0], 0) {
            Some(i) => ns.update(
                i,
                NodeModel {
                    children: insert_entry(ns[i].children, dirs.drop_first(), name, path, is_current),
                    ..ns[i]
                },
            ),
            None => ns.push(
                NodeModel {
                    name: dirs[0],
                    path: None,
                    is_current: false,
                    children: insert_entry(Seq::empty(), dirs.drop_first(), name, path, is_current),
                },
            ),
        }
    }
}

/// The texts held by a sequence of strings.
pub open spec fn strs(v: Seq<String>) -> Seq<Seq<char>> {
    Seq::new(v.len(), |i: int| v[i]@)
}

proof fn lemma_find_dir_from(ns: Seq<NodeModel>, name: Seq<char>, i: int)
    requires
        0 <= i,
    ensures
        find_dir_from(ns, name, i) matches Some(j) ==> i <= j < ns.len() && ns[j].path is None
            && ns[j].name == name,
        find_dir_from(ns, name, i) is None ==> forall|k: int|
            i <= k < ns.len() ==> !(ns[k].path is None && ns[k].name == name),
    decreases ns.len() - i,
{
    if i < ns.len() && !(ns[i].path is None && ns[i].name == name) {
        lemma_find_dir_from(ns, name, i + 1);
    }
}

/// Place the file `display_name` → `html_path` in the tree under the
/// directories `directories[d..]`.
fn insert_sidebar_entry(
    nodes: &mut Vec<SidebarNode>,
    directories: &Vec<String>,
    d: usize,
    display_name: &str,
    html_path: &str,
    is_current: bool,
)
    requires
        d <= directories.len(),
    ensures
        models(final(nodes)@) == insert_entry(
            models(old(nodes)@),
            strs(directories@).skip(d as int),
            display_name@,
            html_path@,
            is_current,
        ),
    decreases directories.len() - d,
{
    let ghost old_nodes = nodes@;
    let ghost dirs = strs(directories@).skip(d as int);
    proof {
        lemma_models(nodes@);
    }
    if d == directories.len() {
        nodes.push(
            SidebarNode {
                name: display_name.to_owned(),
                path: Some(html_path.to_owned()),
                is_current,
                children: Vec::new(),
            },
        );
        proof {
            assert(dirs.len() == 0);
            lemma_models(nodes@);
            let leaf_node = nodes@.last();
            assert(models(leaf_node.children@) =~= Seq::<NodeModel>::empty());
            lemma_models_ext(
                nodes@,
                models(old_nodes).push(leaf(display_name@, html_path@, is_current)),
            );
        }
        return ;
    }
    let head = &directories[d];
    proof {
        assert(dirs[0] == head@);
        assert(dirs.drop_first() =~= strs(directories@).skip(d + 1));
    }
    let mut index: usize = 0;
    while index < nodes.len()
        invariant
            index <= nodes.len(),
            nodes@ == old_nodes,
            models(old_nodes).len() == old_nodes.len(),
            find_dir_from(models(old_nodes), head@, 0) == find_dir_from(
                models(old_nodes),
                head@,
                index as int,
            ),
        ensures
            index <= nodes.len(),
            nodes@ == old_nodes,
            index < nodes.len() ==> find_dir_from(models(old_nodes), head@, 0) == Some(
                index as int,
            ),
            index == nodes.len() ==> find_dir_from(models(old_nodes), head@, 0) is None,
        decreases nodes.len() - index,
    {
        proof {
            lemma_models(old_nodes);
        }
        if nodes[index].path.is_none() && nodes[index].name == *head {
            proof {
                assert(models(old_nodes)[index as int] == model(nodes@[index as int]));
            }
            break ;
        }
        index = index + 1;
    }
    proof {
        lemma_models(old_nodes);
    }
    if index == nodes.len() {
        let mut children: Vec<SidebarNode> = Vec::new();
        insert_sidebar_entry(&mut children, directories, d + 1, display_name, html_path, is_current);
        proof {
            assert(models(Seq::<SidebarNode>::empty()) =~= Seq::<NodeModel>::empty());
        }
        nodes.push(SidebarNode { name: head.clone(), path: None, is_current: false, children });
        proof {
            assert(find_dir_from(models(old_nodes), head@, 0) is None);
            let expected = insert_entry(models(old_nodes), dirs, display_name@, html_path@, is_current);
            assert(expected == models(old_nodes).push(model(nodes@.last())));
            lemma_models_ext(nodes@, expected);
        }
    } else {
        proof {
            assert(find_dir_from(models(old_nodes), head@, 0) == Some(index as int));
        }
        let child = &mut nodes[index];
        insert_sidebar_entry(
            &mut child.children,
            directories,
            d + 1,
            display_name,
            html_path,
            is_current,
        );
        proof {
            let expected = insert_entry(models(old_nodes), dirs, display_name@, html_path@, is_current);
            assert forall|k: int| 0 <= k < nodes@.len() implies model(#[trigger] nodes@[k])
                == expected[k] by {
                if k == index {
                    assert(model(nodes@[k]).children == expected[k].children);
                }
            }
            lemma_models_ext(nodes@, expected);
        }
    }
}

/// A directory entry (as opposed to a file).
pub open spec fn is_dir(n: NodeModel) -> bool {
    n.path is None
}

/// `a` sorts strictly before `b`: files before directories, then by
/// lowercase name, then by name.
pub open spec fn sorts_before(a: NodeModel, b: NodeModel) -> bool {
    if is_dir(a) != is_dir(b) {
        !is_dir(a)
    } else if lowercase(a.name) != lowercase(b.name) {
        seq_lt(lowercase(a.name), lowercase(b.name))
    } else {
        seq_lt(a.name, b.name)
    }
}

/// `x` placed into `s` just before the first element it sorts before.
pub open spec fn insert_sorted(s: Seq<NodeModel>, x: NodeModel) -> Seq<NodeModel>
    decreases s.len(),
{
    if s.len() == 0 {
        seq![x]
    } else if sorts_before(x, s[0]) {
        seq![x] + s
    } else {
        seq![s[0]] + insert_sorted(s.drop_first(), x)
    }
}

/// `s` sorted by [`sorts_before`], keeping equal entries in their order
/// (a stable sort).
pub open spec fn sort_level(s: Seq<NodeModel>) -> Seq<NodeModel>
    decreases s.len(),
{
    if s.len() == 0 {
        Seq::empty()
    } else {
        insert_sorted(sort_level(s.drop_last()), s.last())
    }
}

/// `n` with its subtree sorted.
pub open spec fn sort_node(n: NodeModel) -> NodeModel
    decreases n, 2int,
{
    NodeModel { children: sort_tree(n.children), ..n }
}

/// Each node of `ns` with its subtree sorted.
pub open spec fn sort_each(ns: Seq<NodeModel>) -> Seq<NodeModel>
    decreases ns, 0int,
{
    if ns.len() == 0 {
        Seq::empty()
    } else {
        sort_each(ns.drop_last()).push(sort_node(ns.last()))
    }
}

/// `ns` sorted at every level of the tree.
pub open spec fn sort_tree(ns: Seq<NodeModel>) -> Seq<NodeModel>
    decreases ns, 1int,
{
    sort_level(sort_each(ns))
}

proof fn lemma_sort_each(ns: Seq<NodeModel>)
    ensures
        sort_each(ns).len() == ns.len(),
        forall|i: int| 0 <= i < ns.len() ==> #[trigger] sort_each(ns)[i] == sort_node(ns[i]),
    decreases ns.len(),
{
    if ns.len() > 0 {
        lemma_sort_each(ns.drop_last());
    }
}

proof fn lemma_insert_sorted_at(s: Seq<NodeModel>, x: NodeModel, j: int)
    requires
        0 <= j <= s.len(),
        forall|k: int| 0 <= k < j ==> !sorts_before(x, #[trigger] s[k]),
        j < s.len() ==> sorts_before(x, s[j]),
    ensures
        insert_sorted(s, x) == s.insert(j, x),
    decreases s.len(),
{
    if s.len() == 0 {
        assert(s.insert(j, x) =~= seq![x]);
    } else if j == 0 {
        assert(s.insert(0, x) =~= seq![x] + s);
    } else {
        assert(!sorts_before(x, s[0]));
        lemma_insert_sorted_at(s.drop_first(), x, j - 1);
        assert(seq![s[0]] + s.drop_first().insert(j - 1, x) =~= s.insert(j, x));
    }
}

/// [`sorts_before`] is a strict order: irreflexive and transitive.
proof fn lemma_sorts_before_strict(a: NodeModel, b: NodeModel, c: NodeModel)
    ensures
        !sorts_before(a, a),
        sorts_before(a, b) && sorts_before(b, c) ==> sorts_before(a, c),
{
    lemma_seq_lt_irreflexive(a.name);
    lemma_seq_lt_irreflexive(lowercase(a.name));
    if sorts_before(a, b) && sorts_before(b, c) && is_dir(a) == is_dir(b) && is_dir(b) == is_dir(c) {
        let (la, lb, lc) = (lowercase(a.name), lowercase(b.name), lowercase(c.name));
        if la != lb && lb != lc {
            lemma_seq_lt_transitive(la, lb, lc);
        } else if la == lb && lb == lc {
            lemma_seq_lt_transitive(a.name, b.name, c.name);
        }
    }
}

/// Each entry of a level is placed no later than any entry it sorts
/// before: in particular no directory comes before a file.
pub open spec fn level_ordered(s: Seq<NodeModel>) -> bool {
    forall|i: int, j: int| 0 <= i < j < s.len() ==> !sorts_before(#[trigger] s[j], #[trigger] s[i])
}

/// A level ordered by [`sorts_before`] lists all files before all directories.
pub proof fn lemma_ordered_files_first(s: Seq<NodeModel>)
    requires
        level_ordered(s),
    ensures
        forall|i: int, j: int| 0 <= i < j < s.len() && is_dir(#[trigger] s[i]) ==> is_dir(#[trigger] s[j]),
{
    assert forall|i: int, j: int| 0 <= i < j < s.len() && is_dir(#[trigger] s[i]) implies is_dir(
        #[trigger] s[j],
    ) by {
        if !is_dir(s[j]) {
            assert(sorts_before(s[j], s[i]));
        }
    }
}

/// Where [`insert_sorted`] places `x` in `s`: before the first element it
/// sorts before.
spec fn insert_position(s: Seq<NodeModel>, x: NodeModel) -> int
    decreases s.len(),
{
    if s.len() == 0 || sorts_before(x, s[0]) {
        0
    } else {
        1 + insert_position(s.drop_first(), x)
    }
}

proof fn lemma_insert_position(s: Seq<NodeModel>, x: NodeModel)
    ensures
        0 <= insert_position(s, x) <= s.len(),
        forall|k: int| 0 <= k < insert_position(s, x) ==> !sorts_before(x, #[trigger] s[k]),
        insert_position(s, x) < s.len() ==> sorts_before(x, s[insert_position(s, x)]),
    decreases s.len(),
{
    if s.len() > 0 && !sorts_before(x, s[0]) {
        let t = s.drop_first();
        lemma_insert_position(t, x);
        assert forall|k: int| 0 <= k < insert_position(s, x) implies !sorts_before(x, #[trigger] s[k]) by {
            if k > 0 {
                assert(s[k] == t[k - 1]);
            }
        }
    }
}

/// Inserting into an ordered level keeps it ordered and adds exactly `x`.
proof fn lemma_insert_sorted_ordered(s: Seq<NodeModel>, x: NodeModel)
    requires
        level_ordered(s),
    ensures
        level_ordered(insert_sorted(s, x)),
        insert_sorted(s, x).to_multiset() == s.to_multiset().insert(x),
{
    let j = insert_position(s, x);
    lemma_insert_position(s, x);
    lemma_insert_sorted_at(s, x, j);
    let r = s.insert(j, x);
    vstd::seq_lib::to_multiset_insert(s, j, x);
    assert forall|p: int, q: int| 0 <= p < q < r.len() implies !sorts_before(#[trigger] r[q], #[trigger] r[p]) by {
        if q < j {
            assert(r[p] == s[p] && r[q] == s[q]);
        } else if q == j {
            assert(r[q] == x && r[p] == s[p]);
        } else if p == j {
            let m = q - 1;
            assert(r[p] == x && r[q] == s[m]);
            lemma_sorts_before_strict(s[m], x, s[j]);
            lemma_sorts_before_strict(s[j], s[j], s[j]);
        } else if p < j {
            assert(r[p] == s[p] && r[q] == s[q - 1]);
        } else {
            assert(r[p] == s[p - 1] && r[q] == s[q - 1]);
        }
    }
}

/// Sorting a level orders it and neither loses nor adds an entry.
pub proof fn lemma_sort_level(s: Seq<NodeModel>)
    ensures
        level_ordered(sort_level(s)),
        sort_level(s).to_multiset() == s.to_multiset(),
    decreases s.len(),
{
    broadcast use vstd::seq_lib::group_to_multiset_ensures;

    if s.len() > 0 {
        lemma_sort_level(s.drop_last());
        lemma_insert_sorted_ordered(sort_level(s.drop_last()), s.last());
        vstd::seq_lib::to_multiset_build(s.drop_last(), s.last());
        assert(s.drop_last().push(s.last()) =~= s);
    } else {
        assert(sort_level(s) =~= Seq::<NodeModel>::empty());
    }
}

/// The subtree of `n` is ordered at every level.
pub open spec fn node_ordered(n: NodeModel) -> bool
    decreases n, 2int,
{
    tree_ordered(n.children)
}

/// Every node of `ns` has a subtree ordered at every level.
pub open spec fn each_ordered(ns: Seq<NodeModel>) -> bool
    decreases ns, 0int,
{
    if ns.len() == 0 {
        true
    } else {
        each_ordered(ns.drop_last()) && node_ordered(ns.last())
    }
}

/// `ns` is ordered by [`sorts_before`] at every level of the tree.
pub open spec fn tree_ordered(ns: Seq<NodeModel>) -> bool
    decreases ns, 1int,
{
    level_ordered(ns) && each_ordered(ns)
}

proof fn lemma_each_ordered(ns: Seq<NodeModel>)
    ensures
        each_ordered(ns) <==> forall|i: int| 0 <= i < ns.len() ==> node_ordered(#[trigger] ns[i]),
    decreases ns.len(),
{
    if ns.len() > 0 {
        lemma_each_ordered(ns.drop_last());
        if forall|i: int| 0 <= i < ns.len() ==> node_ordered(#[trigger] ns[i]) {
            assert forall|i: int| 0 <= i < ns.drop_last().len() implies node_ordered(
                #[trigger] ns.drop_last()[i],
            ) by {
                assert(ns.drop_last()[i] == ns[i]);
            }
        }
        if each_ordered(ns) {
            assert forall|i: int| 0 <= i < ns.len() implies node_ordered(#[trigger] ns[i]) by {
                if i < ns.len() - 1 {
                    assert(ns.drop_last()[i] == ns[i]);
                }
            }
        }
    }
}

/// Sorting a tree orders it at every level.
pub proof fn lemma_sort_tree_ordered(ns: Seq<NodeModel>)
    ensures
        tree_ordered(sort_tree(ns)),
    decreases ns,
{
    broadcast use vstd::seq_lib::group_to_multiset_ensures;

    let e = sort_each(ns);
    let t = sort_level(e);
    lemma_sort_each(ns);
    lemma_sort_level(e);
    lemma_each_ordered(t);
    assert forall|i: int| 0 <= i < t.len() implies node_ordered(#[trigger] t[i]) by {
        assert(t.contains(t[i]));
        assert(e.to_multiset().count(t[i]) > 0);
        let k = choose|k: int| 0 <= k < e.len() && e[k] == t[i];
        assert(e[k] == sort_node(ns[k]));
        assert(decreases_to!(ns => ns[k]));
        assert(decreases_to!(ns[k] => ns[k].children));
        lemma_sort_tree_ordered(ns[k].children);
    }
}

/// The sidebar tree lists, at every level, files before directories, then
/// entries by lowercase name, then by name.
pub proof fn lemma_sidebar_tree_ordered(files: Seq<(Seq<char>, Seq<char>, bool)>, run_dir: Seq<char>)
    ensures
        tree_ordered(sidebar_tree(files, run_dir)),
{
    lemma_sort_tree_ordered(insert_all(files, run_dir));
}

fn sorts_before_exec(a: &SidebarNode, b: &SidebarNode) -> (r: bool)
    ensures
        r == sorts_before(model(*a), model(*b)),
{
    let a_dir = a.path.is_none();
    let b_dir = b.path.is_none();
    if a_dir != b_dir {
        return !a_dir;
    }
    let la = to_chars(to_lowercase(a.name.as_str()).as_str());
    let lb = to_chars(to_lowercase(b.name.as_str()).as_str());
    if !crate::text::chars_eq(&la, &lb) {
        return seq_lt_exec(&la, &lb);
    }
    seq_lt_exec(&to_chars(a.name.as_str()), &to_chars(b.name.as_str()))
}

/// Sort `nodes` and, recursively, every directory's children: files before
/// directories, then case-insensitively by name, then by name; the sort is
/// stable.
fn sort_sidebar_nodes(nodes: &mut Vec<SidebarNode>)
    ensures
        models(final(nodes)@) == sort_tree(models(old(nodes)@)),
    decreases old(nodes)@,
{
    let ghost orig = nodes@;
    let n = nodes.len();
    let mut i: usize = 0;
    while i < n
        invariant
            n == nodes.len(),
            orig == old(nodes)@,
            orig.len() == n,
            i <= n,
            forall|k: int| 0 <= k < i ==> model(#[trigger] nodes@[k]) == sort_node(model(orig[k])),
            forall|k: int| i <= k < n ==> #[trigger] nodes@[k] == orig[k],
        decreases n - i,
    {
        proof {
            assert(decreases_to!(orig => orig[i as int]));
            assert(decreases_to!(orig[i as int] => orig[i as int].children));
            assert(decreases_to!(orig[i as int].children => orig[i as int].children@));
        }
        let child = &mut nodes[i];
        proof {
            assert(child.children == orig[i as int].children);
        }
        if child.children.len() > 0 {
            sort_sidebar_nodes(&mut child.children);
        } else {
            proof {
                assert(models(child.children@) =~= Seq::<NodeModel>::empty());
                assert(sort_tree(Seq::<NodeModel>::empty()) =~= Seq::<NodeModel>::empty());
            }
        }
        proof {
            assert(model(nodes@[i as int]) == sort_node(model(orig[i as int])));
        }
        i = i + 1;
    }
    proof {
        lemma_models(orig);
        lemma_sort_each(models(orig));
        lemma_models_ext(nodes@, sort_each(models(orig)));
    }
    let ghost each = nodes@;
    let mut input: Vec<SidebarNode> = Vec::new();
    std::mem::swap(nodes, &mut input);
    let mut k: usize = 0;
    proof {
        assert(input@.skip(0) =~= each);
        lemma_models(each);
        assert(models(nodes@) =~= Seq::<NodeModel>::empty());
        assert(models(each).take(0) =~= Seq::<NodeModel>::empty());
    }
    while input.len() > 0
        invariant
            k <= each.len(),
            each.len() == n,
            input@ == each.skip(k as int),
            models(each).len() == each.len(),
            forall|m: int| 0 <= m < each.len() ==> #[trigger] models(each)[m] == model(each[m]),
            models(nodes@) == sort_level(models(each).take(k as int)),
        decreases input.len(),
    {
        proof {
            assert(input@.len() == each.len() - k);
        }
        let x = input.remove(0);
        proof {
            assert(x == each[k as int]);
            assert(input@ =~= each.skip(k + 1));
        }
        let mut j: usize = 0;
        while j < nodes.len() && !sorts_before_exec(&x, &nodes[j])
            invariant
                j <= nodes.len(),
                forall|q: int| 0 <= q < j ==> !sorts_before(model(x), model(#[trigger] nodes@[q])),
            decreases nodes.len() - j,
        {
            j = j + 1;
        }
        let ghost before = nodes@;
        proof {
            lemma_models(before);
            lemma_insert_sorted_at(models(before), model(x), j as int);
        }
        nodes.insert(j, x);
        proof {
            let taken = models(each).take(k + 1);
            assert(taken.drop_last() =~= models(each).take(k as int));
            assert(taken.last() == model(x));
            lemma_models_ext(nodes@, models(before).insert(j as int, model(x)));
        }
        k = k + 1;
    }
    proof {
        assert(models(each).take(k as int) =~= models(each));
    }
}

/// The names of the normal components among `parts`, in order.
pub open spec fn normal_names(parts: Seq<Option<Seq<char>>>) -> Seq<Seq<char>>
    decreases parts.len(),
{
    if parts.len() == 0 {
        Seq::empty()
    } else {
        match parts.last() {
            Some(name) => normal_names(parts.drop_last()).push(name),
            None => normal_names(parts.drop_last()),
        }
    }
}

/// The directories under which the file at `path` is listed: the normal
/// components of the parent of `path` relative to `run_dir` (of `path`
/// itself when it does not lie under `run_dir`).
pub open spec fn entry_dirs(path: Seq<char>, run_dir: Seq<char>) -> Seq<Seq<char>> {
    let relative = match stripped_prefix(path, run_dir) {
        Some(r) => r,
        None => path,
    };
    match parent_of(relative) {
        Some(p) => normal_names(components_of(p)),
        None => Seq::empty(),
    }
}

/// The values of the `(display name, html path, is current)` entries.
pub open spec fn file_entries(files: Seq<(String, String, bool)>) -> Seq<(Seq<char>, Seq<char>, bool)> {
    Seq::new(files.len(), |i: int| (files[i].0@, files[i].1@, files[i].2))
}

/// The unsorted tree: each entry inserted in turn.
pub open spec fn insert_all(files: Seq<(Seq<char>, Seq<char>, bool)>, run_dir: Seq<char>) -> Seq<NodeModel>
    decreases files.len(),
{
    if files.len() == 0 {
        Seq::empty()
    } else {
        let (name, path, current) = files.last();
        insert_entry(insert_all(files.drop_last(), run_dir), entry_dirs(path, run_dir), name, path, current)
    }
}

/// The sidebar tree of `files` rendered under `run_dir`.
pub open spec fn sidebar_tree(files: Seq<(Seq<char>, Seq<char>, bool)>, run_dir: Seq<char>) -> Seq<NodeModel> {
    sort_tree(insert_all(files, run_dir))
}

fn normal_names_exec(parts: &Vec<Option<String>>) -> (r: Vec<String>)
    ensures
        strs(r@) == normal_names(opt_strs(parts@)),
{
    let mut r: Vec<String> = Vec::new();
    let mut i: usize = 0;
    while i < parts.len()
        invariant
            i <= parts.len(),
            strs(r@) == normal_names(opt_strs(parts@).take(i as int)),
        decreases parts.len() - i,
    {
        proof {
            let t = opt_strs(parts@).take(i + 1);
            assert(t.drop_last() =~= opt_strs(parts@).take(i as int));
        }
        match &parts[i] {
            Some(name) => {
                let ghost before = r@;
                r.push(name.clone());
                proof {
                    assert(strs(r@) =~= strs(before).push(name@));
                }
            },
            None => {},
        }
        i = i + 1;
    }
    proof {
        assert(opt_strs(parts@).take(i as int) =~= opt_strs(parts@));
    }
    r
}

/// The directories under which the file at `html_path` is listed.
fn entry_directories(html_path: &str, run_dir: &str) -> (r: Vec<String>)
    ensures
        strs(r@) == entry_dirs(html_path@, run_dir@),
{
    let relative = match path_strip_prefix(html_path, run_dir) {
        Some(r) => r,
        None => html_path.to_owned(),
    };
    match path_parent(relative.as_str()) {
        Some(parent) => {
            let parts = path_components(parent.as_str());
            normal_names_exec(&parts)
        },
        None => {
            let r: Vec<String> = Vec::new();
            assert(strs(r@) =~= Seq::<Seq<char>>::empty());
            r
        },
    }
}

/// Build the sidebar tree from the flat `all_files` list of
/// `(display_name, html_path, is_current)` entries.
///
/// Each entry is placed under the directories of its path relative to
/// `run_dir`; the tree is then sorted at every level, files before
/// directories, case-insensitively by name.
pub fn build_sidebar_tree(all_files: &[(String, String, bool)], run_dir: &str) -> (tree: Vec<
    SidebarNode,
>)
    ensures
        models(tree@) == sidebar_tree(file_entries(all_files@), run_dir@),
{
    let mut tree: Vec<SidebarNode> = Vec::new();
    let mut i: usize = 0;
    proof {
        assert(models(tree@) =~= Seq::<NodeModel>::empty());
        assert(file_entries(all_files@).take(0) =~= Seq::<(Seq<char>, Seq<char>, bool)>::empty());
    }
    while i < all_files.len()
        invariant
            i <= all_files.len(),
            models(tree@) == insert_all(file_entries(all_files@).take(i as int), run_dir@),
        decreases all_files.len() - i,
    {
        let entry = &all_files[i];
        let directories = entry_directories(entry.1.as_str(), run_dir);
        proof {
            let t = file_entries(all_files@).take(i + 1);
            assert(t.drop_last() =~= file_entries(all_files@).take(i as int));
            assert(strs(directories@).skip(0) =~= strs(directories@));
        }
        insert_sidebar_entry(&mut tree, &directories, 0, entry.0.as_str(), entry.1.as_str(), entry.2);
        i = i + 1;
    }
    proof {
        assert(file_entries(all_files@).take(i as int) =~= file_entries(all_files@));
    }
    sort_sidebar_nodes(&mut tree);
    tree
}

/// The HTML of one sidebar entry: a highlighted span for the current page,
/// a link for another page, a collapsible `<details>` for a directory.
pub open spec fn node_html(n: NodeModel) -> Seq<char>
    decreases n, 1int,
{
    if n.children.len() == 0 {
        "<div class=\"space-y-2\">"@ + (if n.is_current {
            CURRENT_OPEN@ + escape(n.name) + "</span>"@
        } else {
            match n.path {
                Some(p) => LINK_OPEN@ + escape(p) + "\">"@ + escape(n.name) + "</a>"@,
                None => Seq::empty(),
            }
        }) + "</div>"@
    } else {
        "<div class=\"space-y-2\">"@ + DIR_OPEN@ + escape(n.name) + "/"@ + DIR_BODY@ + nodes_html(
            n.children,
        ) + "</div></div></details></div>"@
    }
}

/// The HTML of a sequence of sidebar entries, one after the other.
pub open spec fn nodes_html(ns: Seq<NodeModel>) -> Seq<char>
    decreases ns, 0int,
{
    if ns.len() == 0 {
        Seq::empty()
    } else {
        nodes_html(ns.drop_last()) + node_html(ns.last())
    }
}

/// The opening tag of the current page in the sidebar.
pub const CURRENT_OPEN: &'static str = "<span class=\"mark-sidebar-link mark-sidebar-current rounded-md px-3 py-2 font-medium text-[var(--foreground)]\" aria-current=\"page\">";

/// The start of a sidebar link, up to its target.
pub const LINK_OPEN: &'static str = "<a class=\"mark-sidebar-link flex items-center rounded-md px-3 py-2 text-[var(--foreground)] transition-colors hover:bg-[var(--muted)]\" href=\"";

/// The opening of a collapsible directory, up to its name.
pub const DIR_OPEN: &'static str = "<details class=\"mark-sidebar-dir mark-sidebar-group\" open><summary class=\"mark-sidebar-summary rounded-md px-3 py-2 text-[var(--foreground)] transition-colors hover:bg-[var(--muted)]\">";

/// The end of a directory summary and the opening of its entries.
pub const DIR_BODY: &'static str = "</summary><div class=\"ml-4 border-l border-[var(--border)] pl-3\"><div class=\"space-y-2\">";

/// Append the HTML of the entries `nodes` to `out`.
pub fn render_sidebar_nodes(nodes: &Vec<SidebarNode>, out: &mut Vec<char>)
    ensures
        final(out)@ == old(out)@ + nodes_html(models(nodes@)),
    decreases nodes@,
{
    let ghost start = out@;
    let mut i: usize = 0;
    proof {
        lemma_models(nodes@);
        assert(models(nodes@).take(0) =~= Seq::<NodeModel>::empty());
    }
    while i < nodes.len()
        invariant
            i <= nodes.len(),
            models(nodes@).len() == nodes@.len(),
            forall|k: int| 0 <= k < nodes@.len() ==> #[trigger] models(nodes@)[k] == model(nodes@[k]),
            out@ == start + nodes_html(models(nodes@).take(i as int)),
        decreases nodes.len() - i,
    {
        let node = &nodes[i];
        proof {
            let t = models(nodes@).take(i + 1);
            assert(t.drop_last() =~= models(nodes@).take(i as int));
            assert(t.last() == model(*node));
            assert(decreases_to!(nodes@ => nodes@[i as int]));
            assert(decreases_to!(nodes@[i as int] => nodes@[i as int].children));
            assert(decreases_to!(nodes@[i as int].children => nodes@[i as int].children@));
            lemma_models(node.children@);
        }
        let ghost o = out@;
        push_str(out, "<div class=\"space-y-2\">");
        if node.children.len() == 0 {
            let name = escape_chars(&to_chars(node.name.as_str()));
            if node.is_current {
                push_str(out, CURRENT_OPEN);
                push_chars(out, &name);
                push_str(out, "</span>");
            } else {
                match &node.path {
                    Some(p) => {
                        push_str(out, LINK_OPEN);
                        push_chars(out, &escape_chars(&to_chars(p.as_str())));
                        push_str(out, "\">");
                        push_chars(out, &name);
                        push_str(out, "</a>");
                    },
                    None => {},
                }
            }
            push_str(out, "</div>");
        } else {
            push_str(out, DIR_OPEN);
            push_chars(out, &escape_chars(&to_chars(node.name.as_str())));
            push_str(out, "/");
            push_str(out, DIR_BODY);
            render_sidebar_nodes(&node.children, out);
            push_str(out, "</div></div></details></div>");
        }
        proof {
            assert(out@ =~= o + node_html(model(*node)));
        }
        i = i + 1;
    }
    proof {
        assert(models(nodes@).take(i as int) =~= models(nodes@));
    }
}

} // verus!
