//! A small map keyed by path, kept as a list of (path, value) pairs in which no
//! path occurs twice.

use vstd::prelude::*;

use crate::doc_path::{is_prefix_of, rebase_spec, DocPath};

verus! {

/// A path given by its component texts.
pub type PathView = Seq<Seq<char>>;

/// No two pairs of `s` have the same path.
pub open spec fn keys_distinct<V>(s: Seq<(DocPath, V)>) -> bool {
    forall|i: int, j: int| 0 <= i < j < s.len() ==> s[i].0@ != s[j].0@
}

/// Whether some pair of `s` has path `k`.
pub open spec fn has_key<V>(s: Seq<(DocPath, V)>, k: PathView) -> bool {
    exists|i: int| 0 <= i < s.len() && s[i].0@ == k
}

/// The map that a list of pairs with distinct paths stands for.
pub open spec fn pairs_map<V>(s: Seq<(DocPath, V)>) -> Map<PathView, V> {
    Map::new(
        |k: PathView| has_key(s, k),
        |k: PathView| s[choose|i: int| 0 <= i < s.len() && s[i].0@ == k].1,
    )
}

/// The paths that do not lie under `root`.
pub open spec fn outside_of(root: PathView) -> Set<PathView> {
    Set::new(|k: PathView| !is_prefix_of(root, k))
}

/// Some key of `m` moves to `k` when `old_root` moves to `new_root`.
pub open spec fn moved_to<V>(m: Map<PathView, V>, k: PathView, old_root: PathView, new_root: PathView) -> bool {
    exists|j: PathView| m.contains_key(j) && rebase_spec(j, old_root, new_root) == Some(k)
}

/// `new` is `old` with every key under `old_root` moved to its place under
/// `new_root`, keeping its value. A moved key replaces a key that was already
/// there; where several keys move onto the same path, the value is that of one
/// of them.
pub open spec fn rebased_from<V>(
    old: Map<PathView, V>,
    new: Map<PathView, V>,
    old_root: PathView,
    new_root: PathView,
) -> bool {
    &&& forall|k: PathView| #[trigger]
        new.contains_key(k) <==> ((old.contains_key(k) && rebase_spec(k, old_root, new_root) is None)
            || moved_to(old, k, old_root, new_root))
    &&& forall|k: PathView|
        #[trigger] new.contains_key(k) && moved_to(old, k, old_root, new_root) ==> exists|j: PathView|
            old.contains_key(j) && rebase_spec(j, old_root, new_root) == Some(k) && new[k] == old[j]
    &&& forall|k: PathView|
        #[trigger] new.contains_key(k) && !moved_to(old, k, old_root, new_root) ==> new[k] == old[k]
}

/// `pair` is a key of `m` moved from under `old_root` to under `new_root`,
/// with that key's value.
pub open spec fn came_from<V>(m: Map<PathView, V>, pair: (DocPath, V), old_root: PathView, new_root: PathView) -> bool {
    exists|j: PathView|
        m.contains_key(j) && rebase_spec(j, old_root, new_root) == Some(pair.0@) && m[j] == pair.1
}

/// Some pair of `s` has path `k`.
pub open spec fn lists_key<V>(s: Seq<(DocPath, V)>, k: PathView) -> bool {
    exists|t: int| 0 <= t < s.len() && s[t].0@ == k
}

proof fn lemma_pairs_map_at<V>(s: Seq<(DocPath, V)>, i: int)
    requires
        keys_distinct(s),
        0 <= i < s.len(),
    ensures
        pairs_map(s).dom().contains(s[i].0@),
        pairs_map(s)[s[i].0@] == s[i].1,
{
    let k = s[i].0@;
    assert(has_key(s, k));
    let j = choose|j: int| 0 <= j < s.len() && s[j].0@ == k;
    if j != i {
        if j < i {
            assert(s[j].0@ != s[i].0@);
        } else {
            assert(s[i].0@ != s[j].0@);
        }
    }
}

/// Every path of `s` is mapped as in `m`, and `m` has no other paths.
proof fn lemma_pairs_map_equal<V>(s: Seq<(DocPath, V)>, m: Map<PathView, V>)
    requires
        keys_distinct(s),
        forall|i: int| 0 <= i < s.len() ==> #[trigger] m.contains_key(s[i].0@) && m[s[i].0@] == s[i].1,
        forall|k: PathView| #[trigger] m.contains_key(k) ==> has_key(s, k),
    ensures
        pairs_map(s) == m,
{
    assert forall|k: PathView| #[trigger] pairs_map(s).contains_key(k) implies m.contains_key(k)
        && pairs_map(s)[k] == m[k] by {
        let i = choose|i: int| 0 <= i < s.len() && s[i].0@ == k;
        lemma_pairs_map_at(s, i);
    }
    assert(pairs_map(s) =~= m);
}

/// A map from paths to values.
pub struct PathMap<V> {
    pairs: Vec<(DocPath, V)>,
}

impl<V> View for PathMap<V> {
    type V = Map<PathView, V>;

    closed spec fn view(&self) -> Map<PathView, V> {
        pairs_map(self.pairs@)
    }
}

impl<V> PathMap<V> {
    #[verifier::type_invariant]
    closed spec fn well_formed(&self) -> bool {
        keys_distinct(self.pairs@)
    }

    /// An empty map.
    pub fn new() -> (m: PathMap<V>)
        ensures
            m@ == Map::<PathView, V>::empty(),
    {
        let m = PathMap { pairs: Vec::new() };
        assert(m@ =~= Map::<PathView, V>::empty());
        m
    }

    /// Where `key` stands in the pair list, if it does.
    fn find(&self, key: &DocPath) -> (index: Option<usize>)
        ensures
            index matches Some(i) ==> i < self.pairs@.len() && self.pairs@[i as int].0@ == key@,
            index is None ==> !has_key(self.pairs@, key@),
    {
        let mut i: usize = 0;
        while i < self.pairs.len()
            invariant
                i <= self.pairs@.len(),
                forall|j: int| 0 <= j < i ==> self.pairs@[j].0@ != key@,
            decreases self.pairs@.len() - i,
        {
            if self.pairs[i].0.same_as(key) {
                return Some(i);
            }
            i = i + 1;
        }
        None
    }

    /// The value stored for `key`, if any.
    pub fn get(&self, key: &DocPath) -> (value: Option<&V>)
        ensures
            value is Some <==> self@.contains_key(key@),
            value matches Some(v) ==> *v == self@[key@],
    {
        proof {
            use_type_invariant(self);
        }
        match self.find(key) {
            Some(i) => {
                proof {
                    lemma_pairs_map_at(self.pairs@, i as int);
                }
                Some(&self.pairs[i].1)
            },
            None => None,
        }
    }

    /// Stores `value` for `key`, replacing any earlier value.
    pub fn insert(&mut self, key: DocPath, value: V)
        ensures
            final(self)@ == old(self)@.insert(key@, value),
    {
        proof {
            use_type_invariant(&*self);
        }
        let ghost old_pairs = self.pairs@;
        let ghost target = old(self)@.insert(key@, value);
        let found = self.find(&key);
        let mut pairs: Vec<(DocPath, V)> = Vec::new();
        std::mem::swap(&mut pairs, &mut self.pairs);
        match found {
            Some(i) => {
                pairs.set(i, (key, value));
                proof {
                    let s = pairs@;
                    assert forall|a: int, b: int| 0 <= a < b < s.len() implies s[a].0@ != s[b].0@ by {
                        assert(old_pairs[a].0@ != old_pairs[b].0@);
                    }
                    assert forall|j: int| 0 <= j < s.len() implies #[trigger] target.contains_key(
                        s[j].0@,
                    ) && target[s[j].0@] == s[j].1 by {
                        if j != i {
                            lemma_pairs_map_at(old_pairs, j);
                        }
                    }
                    assert forall|k: PathView| #[trigger] target.contains_key(k) implies has_key(
                        s,
                        k,
                    ) by {
                        if k != s[i as int].0@ {
                            let j = choose|j: int| 0 <= j < old_pairs.len() && old_pairs[j].0@ == k;
                            assert(s[j].0@ == k);
                        }
                    }
                    lemma_pairs_map_equal(s, target);
                }
            },
            None => {
                pairs.push((key, value));
                proof {
                    let s = pairs@;
                    let n = old_pairs.len() as int;
                    assert forall|j: int| 0 <= j < s.len() implies #[trigger] target.contains_key(
                        s[j].0@,
                    ) && target[s[j].0@] == s[j].1 by {
                        if j < n {
                            lemma_pairs_map_at(old_pairs, j);
                            assert(s[j] == old_pairs[j]);
                        }
                    }
                    assert forall|k: PathView| #[trigger] target.contains_key(k) implies has_key(
                        s,
                        k,
                    ) by {
                        if k != s[n].0@ {
                            let j = choose|j: int| 0 <= j < old_pairs.len() && old_pairs[j].0@ == k;
                            assert(s[j].0@ == k);
                        }
                    }
                    lemma_pairs_map_equal(s, target);
                }
            },
        }
        self.pairs = pairs;
    }

    /// Removes `key` and hands back its value, if it had one.
    pub fn remove(&mut self, key: &DocPath) -> (value: Option<V>)
        ensures
            final(self)@ == old(self)@.remove(key@),
            value is Some <==> old(self)@.contains_key(key@),
            value matches Some(v) ==> v == old(self)@[key@],
    {
        proof {
            use_type_invariant(&*self);
        }
        let ghost old_pairs = self.pairs@;
        let ghost target = old(self)@.remove(key@);
        match self.find(key) {
            Some(i) => {
                proof {
                    lemma_pairs_map_at(old_pairs, i as int);
                }
                let mut pairs: Vec<(DocPath, V)> = Vec::new();
                std::mem::swap(&mut pairs, &mut self.pairs);
                let (_, v) = pairs.remove(i);
                proof {
                    let s = pairs@;
                    assert forall|a: int, b: int| 0 <= a < b < s.len() implies s[a].0@ != s[b].0@ by {
                        let oa = if a < i { a } else { a + 1 };
                        let ob = if b < i { b } else { b + 1 };
                        assert(s[a] == old_pairs[oa]);
                        assert(s[b] == old_pairs[ob]);
                        assert(old_pairs[oa].0@ != old_pairs[ob].0@);
                    }
                    assert forall|j: int| 0 <= j < s.len() implies #[trigger] target.contains_key(
                        s[j].0@,
                    ) && target[s[j].0@] == s[j].1 by {
                        let oj = if j < i { j } else { j + 1 };
                        assert(s[j] == old_pairs[oj]);
                        lemma_pairs_map_at(old_pairs, oj);
                        assert(old_pairs[oj].0@ != old_pairs[i as int].0@);
                    }
                    assert forall|k: PathView| #[trigger] target.contains_key(k) implies has_key(
                        s,
                        k,
                    ) by {
                        let j = choose|j: int| 0 <= j < old_pairs.len() && old_pairs[j].0@ == k;
                        assert(j != i);
                        if j < i {
                            assert(s[j] == old_pairs[j]);
                        } else {
                            assert(s[j - 1] == old_pairs[j]);
                        }
                    }
                    lemma_pairs_map_equal(s, target);
                }
                self.pairs = pairs;
                Some(v)
            },
            None => {
                assert(self@ =~= target);
                None
            },
        }
    }

    /// Drops every key that lies under `root` (including `root` itself).
    pub fn retain_outside(&mut self, root: &DocPath)
        ensures
            final(self)@ == old(self)@.restrict(outside_of(root@)),
    {
        proof {
            use_type_invariant(&*self);
        }
        let ghost old_pairs = self.pairs@;
        let ghost target = old(self)@.restrict(outside_of(root@));
        let mut kept: Vec<(DocPath, V)> = Vec::new();
        let mut src: Ghost<Seq<int>> = Ghost(Seq::empty());
        let mut rest: Vec<(DocPath, V)> = Vec::new();
        std::mem::swap(&mut rest, &mut self.pairs);
        let ghost n = old_pairs.len() as int;
        while rest.len() > 0
            invariant
                n == old_pairs.len(),
                keys_distinct(old_pairs),
                0 <= rest@.len() <= n,
                forall|j: int| 0 <= j < rest@.len() ==> rest@[j] == old_pairs[n - rest@.len() + j],
                kept@.len() == src@.len(),
                forall|j: int|
                    0 <= j < kept@.len() ==> 0 <= #[trigger] src@[j] < n - rest@.len() && kept@[j]
                        == old_pairs[src@[j]] && !is_prefix_of(root@, kept@[j].0@),
                forall|a: int, b: int| 0 <= a < b < kept@.len() ==> src@[a] < src@[b],
                forall|j: int|
                    0 <= j < n - rest@.len() && !is_prefix_of(root@, old_pairs[j].0@) ==> exists|
                        t: int,
                    |
                        0 <= t < kept@.len() && #[trigger] src@[t] == j,
            decreases rest@.len(),
        {
            let ghost done = n - rest@.len();
            let ghost old_src = src@;
            let pair = rest.remove(0);
            assert(pair == old_pairs[done]);
            if !pair.0.starts_with(root) {
                kept.push(pair);
                proof {
                    src@ = src@.push(done);
                }
            }
            proof {
                assert forall|j: int|
                    0 <= j < n - rest@.len() && !is_prefix_of(root@, old_pairs[j].0@) implies exists|
                    t: int,
                |
                    0 <= t < kept@.len() && #[trigger] src@[t] == j by {
                    if j == done {
                        assert(src@[kept@.len() - 1] == j);
                    } else {
                        let t = choose|t: int| 0 <= t < old_src.len() && #[trigger] old_src[t] == j;
                        assert(src@[t] == j);
                    }
                }
            }
        }
        proof {
            let s = kept@;
            assert forall|a: int, b: int| 0 <= a < b < s.len() implies s[a].0@ != s[b].0@ by {
                assert(old_pairs[src@[a]].0@ != old_pairs[src@[b]].0@);
            }
            assert forall|j: int| 0 <= j < s.len() implies #[trigger] target.contains_key(s[j].0@)
                && target[s[j].0@] == s[j].1 by {
                lemma_pairs_map_at(old_pairs, src@[j]);
            }
            assert forall|k: PathView| #[trigger] target.contains_key(k) implies has_key(s, k) by {
                let j = choose|j: int| 0 <= j < old_pairs.len() && old_pairs[j].0@ == k;
                let t = choose|t: int| 0 <= t < s.len() && #[trigger] src@[t] == j;
                assert(s[t].0@ == k);
            }
            lemma_pairs_map_equal(s, target);
        }
        self.pairs = kept;
    }

    /// The (new path, value) pairs of the keys under `old_root`, moved under
    /// `new_root`.
    fn moved_pairs(&self, old_root: &DocPath, new_root: &DocPath) -> (moved: Vec<(DocPath, V)>)
        where V: Copy
        ensures
            forall|t: int|
                0 <= t < moved@.len() ==> came_from(self@, #[trigger] moved@[t], old_root@, new_root@),
            forall|j: PathView|
                #![trigger self@.contains_key(j)]
                self@.contains_key(j) && rebase_spec(j, old_root@, new_root@) is Some ==> lists_key(
                    moved@,
                    rebase_spec(j, old_root@, new_root@)->0,
                ),
    {
        proof {
            use_type_invariant(self);
        }
        let ghost om = self@;
        let ghost op = self.pairs@;
        let mut moved: Vec<(DocPath, V)> = Vec::new();
        let mut i: usize = 0;
        while i < self.pairs.len()
            invariant
                i <= op.len(),
                self.pairs@ == op,
                om == pairs_map(op),
                keys_distinct(op),
                forall|t: int|
                    0 <= t < moved@.len() ==> came_from(om, #[trigger] moved@[t], old_root@, new_root@),
                forall|a: int|
                    0 <= a < i && rebase_spec(#[trigger] op[a].0@, old_root@, new_root@) is Some
                        ==> lists_key(moved@, rebase_spec(op[a].0@, old_root@, new_root@)->0),
            decreases op.len() - i,
        {
            let ghost before = moved@;
            match self.pairs[i].0.rebase(old_root, new_root) {
                Some(target) => {
                    let value = self.pairs[i].1;
                    proof {
                        lemma_pairs_map_at(op, i as int);
                    }
                    moved.push((target, value));
                    proof {
                        assert forall|t: int| 0 <= t < moved@.len() implies came_from(
                            om,
                            #[trigger] moved@[t],
                            old_root@,
                            new_root@,
                        ) by {
                            if t < before.len() {
                                assert(moved@[t] == before[t]);
                            } else {
                                assert(om.contains_key(op[i as int].0@));
                            }
                        }
                        assert forall|a: int|
                            0 <= a < i + 1 && rebase_spec(#[trigger] op[a].0@, old_root@, new_root@)
                                is Some implies lists_key(
                            moved@,
                            rebase_spec(op[a].0@, old_root@, new_root@)->0,
                        ) by {
                            if a < i {
                                let k = rebase_spec(op[a].0@, old_root@, new_root@)->0;
                                let t = choose|t: int| 0 <= t < before.len() && before[t].0@ == k;
                                assert(moved@[t] == before[t]);
                            } else {
                                assert(moved@[before.len() as int].0@ == target@);
                            }
                        }
                    }
                },
                None => {},
            }
            i = i + 1;
        }
        proof {
            assert(self@ == om);
            assert forall|j: PathView|
                #![trigger om.contains_key(j)]
                om.contains_key(j) && rebase_spec(j, old_root@, new_root@) is Some implies lists_key(
                moved@,
                rebase_spec(j, old_root@, new_root@)->0,
            ) by {
                let a = choose|a: int| 0 <= a < op.len() && op[a].0@ == j;
                assert(rebase_spec(op[a].0@, old_root@, new_root@) is Some);
            }
        }
        moved
    }

    /// Inserts every pair of `pairs`, in order.
    fn insert_all(&mut self, pairs: &Vec<(DocPath, V)>)
        where V: Copy
        ensures
            forall|k: PathView| #[trigger]
                final(self)@.contains_key(k) <==> (old(self)@.contains_key(k) || exists|u: int|
                    0 <= u < pairs@.len() && pairs@[u].0@ == k),
            forall|k: PathView|
                (exists|u: int| 0 <= u < pairs@.len() && pairs@[u].0@ == k) ==> exists|u: int|
                    0 <= u < pairs@.len() && pairs@[u].0@ == k && #[trigger] final(self)@[k]
                        == pairs@[u].1,
            forall|k: PathView|
                #[trigger] final(self)@.contains_key(k) && !(exists|u: int|
                    0 <= u < pairs@.len() && pairs@[u].0@ == k) ==> final(self)@[k] == old(
                    self,
                )@[k],
    {
        let ghost rm = self@;
        let mut t: usize = 0;
        while t < pairs.len()
            invariant
                t <= pairs@.len(),
                forall|k: PathView| #[trigger]
                    self@.contains_key(k) <==> (rm.contains_key(k) || exists|u: int|
                        0 <= u < t && pairs@[u].0@ == k),
                forall|k: PathView|
                    (exists|u: int| 0 <= u < t && pairs@[u].0@ == k) ==> exists|u: int|
                        0 <= u < t && pairs@[u].0@ == k && #[trigger] self@[k] == pairs@[u].1,
                forall|k: PathView|
                    #[trigger] self@.contains_key(k) && !(exists|u: int|
                        0 <= u < t && pairs@[u].0@ == k) ==> self@[k] == rm[k],
            decreases pairs@.len() - t,
        {
            let key = pairs[t].0.duplicate();
            let value = pairs[t].1;
            self.insert(key, value);
            proof {
                let kt = pairs@[t as int].0@;
                assert forall|k: PathView|
                    (exists|u: int| 0 <= u < t + 1 && pairs@[u].0@ == k) implies exists|u: int|
                    0 <= u < t + 1 && pairs@[u].0@ == k && #[trigger] self@[k] == pairs@[u].1 by {
                    if k != kt {
                        let u = choose|u: int| 0 <= u < t + 1 && pairs@[u].0@ == k;
                        assert(u != t);
                        assert(exists|u: int| 0 <= u < t && pairs@[u].0@ == k);
                    } else {
                        assert(self@[k] == pairs@[t as int].1);
                    }
                }
                assert forall|k: PathView|
                    #[trigger] self@.contains_key(k) && !(exists|u: int|
                        0 <= u < t + 1 && pairs@[u].0@ == k) implies self@[k] == rm[k] by {
                    assert(k != kt);
                    assert(!(exists|u: int| 0 <= u < t && pairs@[u].0@ == k));
                }
                assert forall|k: PathView| #[trigger]
                    self@.contains_key(k) <==> (rm.contains_key(k) || exists|u: int|
                        0 <= u < t + 1 && pairs@[u].0@ == k) by {
                    if k == kt {
                        assert(pairs@[t as int].0@ == k);
                    } else if exists|u: int| 0 <= u < t + 1 && pairs@[u].0@ == k {
                        let u = choose|u: int| 0 <= u < t + 1 && pairs@[u].0@ == k;
                        assert(u != t);
                        assert(exists|u: int| 0 <= u < t && pairs@[u].0@ == k);
                    }
                }
            }
            t = t + 1;
        }
    }

    /// Moves every key under `old_root` to its place under `new_root` (see
    /// `rebased_from`).
    pub fn rebase(&mut self, old_root: &DocPath, new_root: &DocPath)
        where V: Copy
        ensures
            rebased_from(old(self)@, final(self)@, old_root@, new_root@),
    {
        let ghost om = self@;
        let moved = self.moved_pairs(old_root, new_root);
        self.retain_outside(old_root);
        let ghost rm = self@;
        self.insert_all(&moved);
        proof {
            let nm = self@;
            let n = moved@.len() as int;
            assert forall|k: PathView| moved_to(om, k, old_root@, new_root@) implies lists_key(
                moved@,
                k,
            ) by {
                let j0 = choose|j: PathView|
                    om.contains_key(j) && rebase_spec(j, old_root@, new_root@) == Some(k);
                assert(om.contains_key(j0));
            }
            assert forall|k: PathView| lists_key(moved@, k) implies moved_to(
                om,
                k,
                old_root@,
                new_root@,
            ) by {
                let u = choose|u: int| 0 <= u < n && moved@[u].0@ == k;
                assert(came_from(om, moved@[u], old_root@, new_root@));
            }
            assert forall|k: PathView| #[trigger] nm.contains_key(k) && moved_to(
                om,
                k,
                old_root@,
                new_root@,
            ) implies exists|j: PathView|
                om.contains_key(j) && rebase_spec(j, old_root@, new_root@) == Some(k) && nm[k]
                    == om[j] by {
                assert(lists_key(moved@, k));
                assert(exists|u: int| 0 <= u < n && moved@[u].0@ == k);
                let u = choose|u: int| 0 <= u < n && moved@[u].0@ == k && #[trigger] nm[k] == moved@[u].1;
                assert(came_from(om, moved@[u], old_root@, new_root@));
            }
            assert forall|k: PathView| #[trigger]
                nm.contains_key(k) <==> ((om.contains_key(k) && rebase_spec(k, old_root@, new_root@)
                    is None) || moved_to(om, k, old_root@, new_root@)) by {
                if lists_key(moved@, k) {
                    assert(exists|u: int| 0 <= u < n && moved@[u].0@ == k);
                }
                if exists|u: int| 0 <= u < n && moved@[u].0@ == k {
                    assert(lists_key(moved@, k));
                }
                assert(rm.contains_key(k) <==> om.contains_key(k) && !is_prefix_of(old_root@, k));
            }
            assert forall|k: PathView| #[trigger] nm.contains_key(k) && !moved_to(
                om,
                k,
                old_root@,
                new_root@,
            ) implies nm[k] == om[k] by {
                if exists|u: int| 0 <= u < n && moved@[u].0@ == k {
                    assert(lists_key(moved@, k));
                }
            }
        }
    }

    /// Removes every key.
    pub fn clear(&mut self)
        ensures
            final(self)@ == Map::<PathView, V>::empty(),
    {
        self.pairs = Vec::new();
        assert(self@ =~= Map::<PathView, V>::empty());
    }
}

} // verus!
