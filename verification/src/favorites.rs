//! The favorites tree: groups (named, nested) and favorite folders. Groups are addressed by
//! their index path from the roots and shown by their name path ("Work/Sub").
use vstd::prelude::*;
use crate::text::{chars_of, string_of, trim, trim_chars};
use crate::textset::{distinct_texts, text_set, toggle_text, toggled};

verus! {

/// A node of the favorites tree.
pub enum FavNode {
    /// A favorite folder.
    Favorite { path: String, label: String },
    /// A named group of nodes.
    Group { name: String, children: Vec<FavNode> },
}

/// Every list of the tree fits in memory (its length is a `usize`), as for any real tree.
pub open spec fn tree_fits(nodes: Seq<FavNode>) -> bool
    decreases nodes,
{
    &&& nodes.len() <= usize::MAX
    &&& forall|i: int|
        0 <= i < nodes.len() ==> match #[trigger] nodes[i] {
            FavNode::Group { children, .. } => tree_fits(children@),
            FavNode::Favorite { .. } => true,
        }
}

/// The name path of a child group `name` under the name path `parent` (empty at the root).
pub open spec fn join_name(parent: Seq<char>, name: Seq<char>) -> Seq<char> {
    if parent.len() == 0 {
        name
    } else {
        parent + seq!['/'] + name
    }
}

/// The groups of `nodes[i..]` and their descendants in preorder, each as (name path, index
/// path), below the group with index path `pid` and name path `pnp`.
pub open spec fn group_options_from(nodes: Seq<FavNode>, i: int, pid: Seq<usize>, pnp: Seq<char>) -> Seq<
    (Seq<char>, Seq<usize>),
>
    decreases nodes, nodes.len() - i,
{
    if i < 0 || i >= nodes.len() {
        Seq::empty()
    } else {
        let here = match nodes[i] {
            FavNode::Group { name, children } => {
                let id = pid.push(i as usize);
                let np = join_name(pnp, name@);
                seq![(np, id)] + group_options_from(children@, 0, id, np)
            },
            FavNode::Favorite { .. } => Seq::empty(),
        };
        here + group_options_from(nodes, i + 1, pid, pnp)
    }
}

/// Every group of the tree in preorder, as (name path, index path): the destinations offered
/// by "Move to…" (the root aside).
pub open spec fn group_options(roots: Seq<FavNode>) -> Seq<(Seq<char>, Seq<usize>)> {
    group_options_from(roots, 0, Seq::empty(), Seq::empty())
}

/// The name path of the group at index path `id` below name path `np`, or `None` when the
/// path does not lead to a group.
pub open spec fn name_path_from(nodes: Seq<FavNode>, id: Seq<usize>, np: Seq<char>) -> Option<Seq<char>>
    decreases id.len(),
{
    if id.len() == 0 || id[0] >= nodes.len() {
        None
    } else {
        match nodes[id[0] as int] {
            FavNode::Group { name, children } => {
                let np2 = join_name(np, name@);
                if id.len() == 1 {
                    Some(np2)
                } else {
                    name_path_from(children@, id.drop_first(), np2)
                }
            },
            FavNode::Favorite { .. } => None,
        }
    }
}

/// The views of the listed options.
pub open spec fn option_views(v: Seq<(String, Vec<usize>)>) -> Seq<(Seq<char>, Seq<usize>)> {
    v.map_values(|p: (String, Vec<usize>)| (p.0@, p.1@))
}

fn join_name_exec(parent: &Vec<char>, name: &str) -> (r: Vec<char>)
    ensures
        r@ == join_name(parent@, name@),
{
    let n = chars_of(name);
    if parent.len() == 0 {
        return n;
    }
    let mut out: Vec<char> = Vec::new();
    let mut i: usize = 0;
    while i < parent.len()
        invariant
            i <= parent.len(),
            out@ == parent@.take(i as int),
        decreases parent.len() - i,
    {
        out.push(parent[i]);
        assert(parent@.take(i + 1) == parent@.take(i as int).push(parent@[i as int]));
        i = i + 1;
    }
    out.push('/');
    let ghost mid = out@;
    let mut j: usize = 0;
    while j < n.len()
        invariant
            j <= n.len(),
            out@ == mid + n@.take(j as int),
        decreases n.len() - j,
    {
        out.push(n[j]);
        assert(n@.take(j + 1) == n@.take(j as int).push(n@[j as int]));
        j = j + 1;
    }
    assert(parent@.take(parent.len() as int) == parent@);
    assert(n@.take(n.len() as int) == n@);
    assert(out@ =~= parent@ + seq!['/'] + name@);
    out
}

fn push_index(pid: &Vec<usize>, i: usize) -> (r: Vec<usize>)
    ensures
        r@ == pid@.push(i),
{
    let mut out: Vec<usize> = Vec::new();
    let mut k: usize = 0;
    while k < pid.len()
        invariant
            k <= pid.len(),
            out@ == pid@.take(k as int),
        decreases pid.len() - k,
    {
        out.push(pid[k]);
        assert(pid@.take(k + 1) == pid@.take(k as int).push(pid@[k as int]));
        k = k + 1;
    }
    assert(pid@.take(pid.len() as int) == pid@);
    out.push(i);
    out
}

fn walk_groups(
    nodes: &Vec<FavNode>,
    pid: &Vec<usize>,
    pnp: &Vec<char>,
    out: &mut Vec<(String, Vec<usize>)>,
)
    ensures
        option_views(final(out)@) == option_views(old(out)@) + group_options_from(nodes@, 0, pid@, pnp@),
    decreases nodes@,
{
    let mut i: usize = 0;
    let ghost start = option_views(out@);
    while i < nodes.len()
        invariant
            i <= nodes.len(),
            start + group_options_from(nodes@, 0, pid@, pnp@) == option_views(out@)
                + group_options_from(nodes@, i as int, pid@, pnp@),
        decreases nodes.len() - i,
    {
        let ghost before = option_views(out@);
        match &nodes[i] {
            FavNode::Group { name, children } => {
                let id = push_index(pid, i);
                let np = join_name_exec(pnp, name.as_str());
                let np_text = string_of(&np);
                out.push((np_text, id.clone()));
                assert(option_views(out@) =~= before.push((np@, id@)));
                assert(decreases_to!(nodes@ => nodes@[i as int]));
                walk_groups(children, &id, &np, out);
                assert(group_options_from(nodes@, i as int, pid@, pnp@) == (seq![(np@, id@)]
                    + group_options_from(children@, 0, id@, np@)) + group_options_from(
                    nodes@,
                    i + 1,
                    pid@,
                    pnp@,
                ));
                assert(before.push((np@, id@)) =~= before + seq![(np@, id@)]);
            },
            FavNode::Favorite { .. } => {
                assert(group_options_from(nodes@, i as int, pid@, pnp@) =~= group_options_from(
                    nodes@,
                    i + 1,
                    pid@,
                    pnp@,
                ));
            },
        }
        i = i + 1;
    }
    assert(group_options_from(nodes@, i as int, pid@, pnp@) =~= Seq::empty());
}

/// Every group of the tree in preorder, as (name path, index path).
pub fn fav_group_options(roots: &Vec<FavNode>) -> (r: Vec<(String, Vec<usize>)>)
    ensures
        option_views(r@) == group_options(roots@),
{
    let mut out: Vec<(String, Vec<usize>)> = Vec::new();
    let pid: Vec<usize> = Vec::new();
    let pnp: Vec<char> = Vec::new();
    walk_groups(roots, &pid, &pnp, &mut out);
    assert(option_views(Seq::<(String, Vec<usize>)>::empty()) =~= Seq::empty());
    assert(Seq::<(Seq<char>, Seq<usize>)>::empty() + group_options(roots@) =~= group_options(roots@));
    out
}

/// The name path of the group at index path `id` ("Work/Sub"), or `None` when the path does
/// not lead to a group.
pub fn fav_group_name_path(roots: &Vec<FavNode>, id: &Vec<usize>) -> (r: Option<String>)
    ensures
        match r {
            Some(s) => name_path_from(roots@, id@, Seq::empty()) == Some(s@),
            None => name_path_from(roots@, id@, Seq::empty()) is None,
        },
{
    let mut nodes: &Vec<FavNode> = roots;
    let mut np: Vec<char> = Vec::new();
    let mut depth: usize = 0;
    assert(id@.skip(0) == id@);
    while depth < id.len()
        invariant
            depth <= id.len(),
            name_path_from(roots@, id@, Seq::empty()) == name_path_from(
                nodes@,
                id@.skip(depth as int),
                np@,
            ),
        decreases id.len() - depth,
    {
        let idx = id[depth];
        assert(id@.skip(depth as int)[0] == idx);
        assert(id@.skip(depth as int).drop_first() == id@.skip(depth + 1));
        if idx >= nodes.len() {
            return None;
        }
        match &nodes[idx] {
            FavNode::Group { name, children } => {
                let np2 = join_name_exec(&np, name.as_str());
                if depth + 1 == id.len() {
                    return Some(string_of(&np2));
                }
                nodes = children;
                np = np2;
            },
            FavNode::Favorite { .. } => {
                return None;
            },
        }
        depth = depth + 1;
    }
    assert(id@.skip(depth as int).len() == 0);
    None
}

proof fn lemma_options_from_name_paths(nodes: Seq<FavNode>, i: int, pid: Seq<usize>, pnp: Seq<char>)
    requires
        0 <= i,
        tree_fits(nodes),
    ensures
        forall|k: int|
            0 <= k < group_options_from(nodes, i, pid, pnp).len() ==> {
                let o = #[trigger] group_options_from(nodes, i, pid, pnp)[k];
                &&& o.1.len() > pid.len()
                &&& o.1.take(pid.len() as int) == pid
                &&& name_path_from(nodes, o.1.skip(pid.len() as int), pnp) == Some(o.0)
            },
    decreases nodes, nodes.len() - i,
{
    if i < nodes.len() {
        lemma_options_from_name_paths(nodes, i + 1, pid, pnp);
        let rest = group_options_from(nodes, i + 1, pid, pnp);
        match nodes[i] {
            FavNode::Group { name, children } => {
                let id = pid.push(i as usize);
                let np = join_name(pnp, name@);
                assert(decreases_to!(nodes => nodes[i]));
                assert(tree_fits(children@));
                assert((i as usize) as int == i);
                lemma_options_from_name_paths(children@, 0, id, np);
                let sub = group_options_from(children@, 0, id, np);
                let all = group_options_from(nodes, i, pid, pnp);
                assert(all == seq![(np, id)] + sub + rest);
                assert(id.skip(pid.len() as int) =~= seq![i as usize]);
                assert(name_path_from(nodes, seq![i as usize], pnp) == Some(np));
                assert forall|k: int| 0 <= k < all.len() implies {
                    let o = #[trigger] all[k];
                    &&& o.1.len() > pid.len()
                    &&& o.1.take(pid.len() as int) == pid
                    &&& name_path_from(nodes, o.1.skip(pid.len() as int), pnp) == Some(o.0)
                } by {
                    if k == 0 {
                        assert(all[k] == (np, id));
                        assert(id.take(pid.len() as int) =~= pid);
                    } else if k < 1 + sub.len() {
                        let o = sub[k - 1];
                        assert(all[k] == o);
                        assert(o.1.take(id.len() as int) == id);
                        assert(o.1.take(pid.len() as int) =~= id.take(pid.len() as int));
                        assert(id.take(pid.len() as int) =~= pid);
                        let tail = o.1.skip(pid.len() as int);
                        assert(tail[0] == o.1[pid.len() as int]);
                        assert(o.1[pid.len() as int] == id[pid.len() as int]);
                        assert(tail.drop_first() =~= o.1.skip(id.len() as int));
                        assert(tail.len() > 1);
                    } else {
                        assert(all[k] == rest[k - 1 - sub.len()]);
                    }
                }
            },
            FavNode::Favorite { .. } => {
                assert(group_options_from(nodes, i, pid, pnp) =~= rest);
            },
        }
    }
}

/// Every option offered by "Move to…" names its group truly: the name path listed with an
/// index path is the name path of the group at that index path.
pub proof fn lemma_options_name_their_groups(roots: Seq<FavNode>)
    requires
        tree_fits(roots),
    ensures
        forall|k: int|
            0 <= k < group_options(roots).len() ==> name_path_from(
                roots,
                (#[trigger] group_options(roots)[k]).1,
                Seq::empty(),
            ) == Some(group_options(roots)[k].0),
{
    lemma_options_from_name_paths(roots, 0, Seq::empty(), Seq::empty());
    assert forall|k: int| 0 <= k < group_options(roots).len() implies name_path_from(
        roots,
        (#[trigger] group_options(roots)[k]).1,
        Seq::empty(),
    ) == Some(group_options(roots)[k].0) by {
        let o = group_options(roots)[k];
        assert(o.1.skip(0) == o.1);
    }
}

/// `p` is an index-path prefix of `s` (`s` is the group `p` or one of its descendants).
pub open spec fn is_prefix(p: Seq<usize>, s: Seq<usize>) -> bool {
    p.len() <= s.len() && s.take(p.len() as int) == p
}

fn starts_with_ids(s: &Vec<usize>, p: &Vec<usize>) -> (r: bool)
    ensures
        r == is_prefix(p@, s@),
{
    if p.len() > s.len() {
        return false;
    }
    let mut i: usize = 0;
    while i < p.len()
        invariant
            p.len() <= s.len(),
            i <= p.len(),
            forall|k: int| 0 <= k < i ==> s@[k] == p@[k],
        decreases p.len() - i,
    {
        if s[i] != p[i] {
            assert(s@.take(p.len() as int)[i as int] != p@[i as int]);
            return false;
        }
        i = i + 1;
    }
    assert(s@.take(p.len() as int) =~= p@);
    true
}

/// The valid destinations of "Move to…" among the options: any group for a favorite; for a
/// group, every group but itself and its descendants (a group never moves into itself).
pub fn fav_move_targets(options: Vec<(String, Vec<usize>)>, is_group: bool, origin: &Vec<usize>) -> (r: Vec<(String, Vec<usize>)>)
    ensures
        !is_group ==> option_views(r@) == option_views(options@),
        is_group ==> option_views(r@) == option_views(options@).filter(
            |o: (Seq<char>, Seq<usize>)| !is_prefix(origin@, o.1),
        ),
{
    if !is_group {
        return options;
    }
    let mut out: Vec<(String, Vec<usize>)> = Vec::new();
    let mut i: usize = 0;
    let ghost all = option_views(options@);
    while i < options.len()
        invariant
            i <= options.len(),
            all == option_views(options@),
            option_views(out@) == all.take(i as int).filter(
                |o: (Seq<char>, Seq<usize>)| !is_prefix(origin@, o.1),
            ),
        decreases options.len() - i,
    {
        proof {
            reveal(Seq::filter);
            assert(all.take(i + 1).drop_last() == all.take(i as int));
            assert(all.take(i + 1).last() == all[i as int]);
        }
        let (name, id) = &options[i];
        if !starts_with_ids(id, origin) {
            let ghost before = out@;
            out.push((name.clone(), id.clone()));
            assert(option_views(out@) =~= option_views(before).push(all[i as int]));
        }
        i = i + 1;
    }
    assert(all.take(options.len() as int) == all);
    out
}

/// No destination offered for moving a group is the group itself or one of its descendants,
/// and every other group is offered.
pub proof fn lemma_move_targets_exclude_subtree(options: Seq<(Seq<char>, Seq<usize>)>, origin: Seq<usize>)
    ensures
        ({
            let kept = options.filter(|o: (Seq<char>, Seq<usize>)| !is_prefix(origin, o.1));
            &&& forall|k: int| 0 <= k < kept.len() ==> !is_prefix(origin, (#[trigger] kept[k]).1)
            &&& forall|k: int|
                0 <= k < options.len() && !is_prefix(origin, (#[trigger] options[k]).1) ==> kept.contains(
                    options[k],
                )
        }),
{
    let pred = |o: (Seq<char>, Seq<usize>)| !is_prefix(origin, o.1);
    let kept = options.filter(pred);
    assert forall|k: int| 0 <= k < kept.len() implies !is_prefix(origin, (#[trigger] kept[k]).1) by {
        options.lemma_filter_pred(pred, k);
    }
    assert forall|k: int|
        0 <= k < options.len() && !is_prefix(origin, (#[trigger] options[k]).1) implies kept.contains(
        options[k],
    ) by {
        options.lemma_filter_contains(pred, k);
    }
}

/// The key `k` lies in the subtree whose name path is `old` (it is `old` or below it).
pub open spec fn under_key(k: Seq<char>, old: Seq<char>) -> bool {
    k == old || (k.len() > old.len() && k.take(old.len() as int + 1) == old.push('/'))
}

/// The expansion key `k` after the group at `old` was renamed to `new`: the keys of its
/// subtree move under `new`, the others stay.
pub open spec fn remap_key(k: Seq<char>, old: Seq<char>, new: Seq<char>) -> Seq<char> {
    if under_key(k, old) {
        new + k.skip(old.len() as int)
    } else {
        k
    }
}

fn is_under(k: &Vec<char>, old: &Vec<char>) -> (r: bool)
    ensures
        r == under_key(k@, old@),
{
    if k.len() < old.len() {
        return false;
    }
    let mut i: usize = 0;
    while i < old.len()
        invariant
            old.len() <= k.len(),
            i <= old.len(),
            forall|j: int| 0 <= j < i ==> k@[j] == old@[j],
        decreases old.len() - i,
    {
        if k[i] != old[i] {
            proof {
                assert(k@[i as int] != old@[i as int]);
                assert(k@ != old@);
                if k.len() > old.len() {
                    assert(k@.take(old.len() as int + 1)[i as int] == k@[i as int]);
                    assert(old@.push('/')[i as int] == old@[i as int]);
                }
            }
            return false;
        }
        i = i + 1;
    }
    if k.len() == old.len() {
        assert(k@ =~= old@);
        return true;
    }
    let r = k[old.len()] == '/';
    proof {
        if r {
            assert(k@.take(old.len() as int + 1) =~= old@.push('/'));
        } else {
            assert(k@.take(old.len() as int + 1)[old.len() as int] != old@.push('/')[old.len() as int]);
        }
    }
    r
}

/// The expansion keys after the group with name path `old` was renamed to name path `new`
/// (expansion is remembered by name path): the subtree's keys are moved, so that the renamed
/// group does not collapse.
pub fn remap_expanded(keys: &Vec<String>, old: &str, new: &str) -> (r: Vec<String>)
    requires
        distinct_texts(keys@),
    ensures
        distinct_texts(r@),
        text_set(r@) == text_set(keys@).map(|k: Seq<char>| remap_key(k, old@, new@)),
{
    let o = chars_of(old);
    let nw = chars_of(new);
    let mut out: Vec<String> = Vec::new();
    let mut i: usize = 0;
    while i < keys.len()
        invariant
            o@ == old@,
            nw@ == new@,
            i <= keys.len(),
            distinct_texts(out@),
            text_set(out@) == text_set(keys@.take(i as int)).map(|k: Seq<char>| remap_key(k, old@, new@)),
        decreases keys.len() - i,
    {
        let k = chars_of(keys[i].as_str());
        let mapped: Vec<char> = if is_under(&k, &o) {
            let mut m = nw.clone();
            let mut j: usize = o.len();
            let ghost head = m@;
            assert(head == new@);
            while j < k.len()
                invariant
                    o.len() <= j <= k.len(),
                    m@ == head + k@.subrange(o.len() as int, j as int),
                decreases k.len() - j,
            {
                m.push(k[j]);
                assert(k@.subrange(o.len() as int, j + 1) == k@.subrange(o.len() as int, j as int).push(k@[j as int]));
                j = j + 1;
            }
            assert(k@.subrange(o.len() as int, k.len() as int) == k@.skip(o.len() as int));
            m
        } else {
            k.clone()
        };
        assert(mapped@ == remap_key(keys@[i as int]@, old@, new@));
        let ghost before = out@;
        let t = string_of(&mapped);
        let mut present = false;
        let mut q: usize = 0;
        while q < out.len()
            invariant
                q <= out.len(),
                out@ == before,
                !present ==> forall|z: int| 0 <= z < q ==> out@[z]@ != t@,
                present ==> text_set(out@).contains(t@),
            decreases out.len() - q,
        {
            if crate::text::text_is(out[q].as_str(), t.as_str()) {
                present = true;
                proof {
                    let mo = out@.map_values(|s: String| s@);
                    assert(mo[q as int] == t@);
                }
            }
            q = q + 1;
        }
        proof {
            assert(keys@.take(i + 1) == keys@.take(i as int).push(keys@[i as int]));
            lemma_text_set_push(keys@.take(i as int), keys@[i as int]);
            lemma_map_insert(text_set(keys@.take(i as int)), keys@[i as int]@, old@, new@);
        }
        if !present {
            proof {
                let mo = out@.map_values(|s: String| s@);
                assert(!text_set(out@).contains(t@)) by {
                    if text_set(out@).contains(t@) {
                        let z = choose|z: int| 0 <= z < mo.len() && mo[z] == t@;
                        assert(out@[z]@ == t@);
                    }
                }
            }
            out.push(t);
            proof {
                crate::textset::lemma_push_distinct(before, out@.last(), mapped@);
                assert(out@ == before.push(out@.last()));
            }
        } else {
            proof {
                assert(text_set(out@).insert(t@) =~= text_set(out@));
            }
        }
        i = i + 1;
    }
    assert(keys@.take(keys.len() as int) == keys@);
    out
}

proof fn lemma_text_set_push(v: Seq<String>, s: String)
    ensures
        text_set(v.push(s)) == text_set(v).insert(s@),
{
    let mv = v.map_values(|x: String| x@);
    let mw = v.push(s).map_values(|x: String| x@);
    assert(mw =~= mv.push(s@));
    assert forall|x: Seq<char>| text_set(v.push(s)).contains(x) <==> text_set(v).insert(s@).contains(x) by {
        if mw.contains(x) {
            let k = choose|k: int| 0 <= k < mw.len() && mw[k] == x;
            if k < mv.len() {
                assert(mv[k] == x);
            }
        }
        if mv.contains(x) {
            let k = choose|k: int| 0 <= k < mv.len() && mv[k] == x;
            assert(mw[k] == x);
        }
        if x == s@ {
            assert(mw[mv.len() as int] == x);
        }
    }
    assert(text_set(v.push(s)) =~= text_set(v).insert(s@));
}

proof fn lemma_map_insert(s: Set<Seq<char>>, x: Seq<char>, old: Seq<char>, new: Seq<char>)
    ensures
        s.insert(x).map(|k: Seq<char>| remap_key(k, old, new)) == s.map(
            |k: Seq<char>| remap_key(k, old, new),
        ).insert(remap_key(x, old, new)),
{
    let f = |k: Seq<char>| remap_key(k, old, new);
    assert forall|y: Seq<char>| #[trigger] s.insert(x).map(f).contains(y) <==> s.map(f).insert(f(x)).contains(y) by {
        if s.insert(x).map(f).contains(y) {
            let z = choose|z: Seq<char>| s.insert(x).contains(z) && f(z) == y;
            if z != x {
                assert(s.contains(z));
                assert(s.map(f).contains(f(z)));
            }
        }
        if s.map(f).contains(y) {
            let z = choose|z: Seq<char>| s.contains(z) && f(z) == y;
            assert(s.insert(x).contains(z));
            assert(s.insert(x).map(f).contains(f(z)));
        }
        if y == f(x) {
            assert(s.insert(x).contains(x));
            assert(s.insert(x).map(f).contains(f(x)));
        }
    }
    assert(s.insert(x).map(f) =~= s.map(f).insert(f(x)));
}

/// Renaming a group moves exactly its subtree's expansion keys: a key below the old name path
/// lands below the new one with the same remainder, any other key stays as it was.
pub proof fn lemma_rename_moves_subtree(k: Seq<char>, old: Seq<char>, new: Seq<char>)
    ensures
        under_key(k, old) ==> remap_key(k, old, new) == new + k.skip(old.len() as int)
            && under_key(remap_key(k, old, new), new),
        !under_key(k, old) ==> remap_key(k, old, new) == k,
{
    if under_key(k, old) {
        let r = new + k.skip(old.len() as int);
        if k == old {
            assert(k.skip(old.len() as int) =~= Seq::<char>::empty());
            assert(r =~= new);
        } else {
            assert(k[old.len() as int] == old.push('/')[old.len() as int]);
            assert(r.take(new.len() as int + 1) =~= new.push('/'));
        }
    }
}

/// Expands a collapsed group or collapses an expanded one (keys are name paths).
pub fn fav_toggle_expand(expanded: &mut Vec<String>, name_path: &str)
    requires
        distinct_texts(old(expanded)@),
    ensures
        distinct_texts(final(expanded)@),
        text_set(final(expanded)@) == toggled(text_set(old(expanded)@), name_path@),
{
    toggle_text(expanded, name_path);
}

/// The name given to a new group: the typed name trimmed, or "Nuevo grupo" when nothing is
/// left.
pub fn new_group_name(name: &str) -> (r: String)
    ensures
        trim(name@).len() > 0 ==> r@ == trim(name@),
        trim(name@).len() == 0 ==> r@ == "Nuevo grupo"@,
{
    let cs = chars_of(name);
    let t = trim_chars(&cs);
    if t.len() == 0 {
        "Nuevo grupo".to_string()
    } else {
        string_of(&t)
    }
}

} // verus!
