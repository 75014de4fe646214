//! The index of cached responses kept per api key: for each api key, the set
//! of data keys whose responses are cached. A change through an api drops
//! the whole set of each related api.
use vstd::prelude::*;

use crate::text::{clone_texts, contains_text, seq_has_text, str_eq};

verus! {

/// A group: an api key and its data keys.
pub type Group = (Seq<char>, Seq<Seq<char>>);

/// Whether the data key `d` is recorded under the api key `a`.
pub open spec fn has_data(v: Seq<Group>, a: Seq<char>, d: Seq<char>) -> bool {
    exists|i: int| 0 <= i < v.len() && (#[trigger] v[i]).0 == a && v[i].1.contains(d)
}

/// Whether the api key `a` has a group, possibly empty.
pub open spec fn has_api(v: Seq<Group>, a: Seq<char>) -> bool {
    exists|i: int| 0 <= i < v.len() && (#[trigger] v[i]).0 == a
}

/// No two groups share an api key.
pub open spec fn groups_wf(v: Seq<Group>) -> bool {
    forall|i: int, j: int| 0 <= i < j < v.len() ==> (#[trigger] v[i]).0 != (#[trigger] v[j]).0
}

/// The abstract value of a list of stored groups.
pub open spec fn groups_view(s: Seq<(String, Vec<String>)>) -> Seq<Group> {
    s.map_values(|g: (String, Vec<String>)| (g.0@, g.1@.map_values(|s: String| s@)))
}

/// The index of cached responses, grouped by api key.
pub struct CacheGroups {
    groups: Vec<(String, Vec<String>)>,
}

impl View for CacheGroups {
    type V = Seq<Group>;

    closed spec fn view(&self) -> Seq<Group> {
        groups_view(self.groups@)
    }
}

impl CacheGroups {
    /// The index invariant: api keys are distinct.
    pub open spec fn wf(&self) -> bool {
        groups_wf(self@)
    }

    /// An empty index.
    pub fn new() -> (idx: Self)
        ensures
            idx@ == Seq::<Group>::empty(),
            idx.wf(),
            forall|a: Seq<char>| !has_api(idx@, a),
    {
        let idx = CacheGroups { groups: Vec::new() };
        assert(idx@ =~= Seq::<Group>::empty());
        idx
    }

    /// Where the group of `api_key` is, if any.
    fn position(&self, api_key: &str) -> (pos: Option<usize>)
        ensures
            match pos {
                Some(i) => i < self@.len() && self@[i as int].0 == api_key@,
                None => !has_api(self@, api_key@),
            },
    {
        let mut i: usize = 0;
        while i < self.groups.len()
            invariant
                i <= self.groups@.len(),
                self@.len() == self.groups@.len(),
                forall|k: int| 0 <= k < i ==> (#[trigger] self@[k]).0 != api_key@,
            decreases self.groups@.len() - i,
        {
            if str_eq(self.groups[i].0.as_str(), api_key) {
                return Some(i);
            }
            i = i + 1;
        }
        None
    }

    /// Records that the response for `(api_key, data_key)` is cached.
    pub fn add(&mut self, api_key: &str, data_key: &str)
        requires
            old(self).wf(),
        ensures
            final(self).wf(),
            forall|a: Seq<char>, d: Seq<char>|
                has_data(final(self)@, a, d) <==> has_data(old(self)@, a, d) || (a == api_key@ && d == data_key@),
            forall|a: Seq<char>| has_api(final(self)@, a) <==> has_api(old(self)@, a) || a == api_key@,
    {
        let ghost old_v = self@;
        match self.position(api_key) {
            None => {
                let mut ds: Vec<String> = Vec::new();
                ds.push(data_key.to_owned());
                proof {
                    assert(ds@.map_values(|s: String| s@) =~= seq![data_key@]);
                }
                self.groups.push((api_key.to_owned(), ds));
                proof {
                    assert(self@ =~= old_v.push((api_key@, seq![data_key@])));
                    lemma_push_group(old_v, api_key@, data_key@);
                    lemma_push_unique(old_v, (api_key@, seq![data_key@]));
                }
            },
            Some(i) => {
                let (a, mut ds) = self.groups.remove(i);
                let ghost ds0 = ds@.map_values(|s: String| s@);
                if !contains_text(&ds, data_key) {
                    ds.push(data_key.to_owned());
                    proof {
                        assert(ds@.map_values(|s: String| s@) =~= ds0.push(data_key@));
                    }
                } else {
                    proof {
                        let k = choose|k: int| 0 <= k < ds@.len() && #[trigger] ds@[k]@ == data_key@;
                        assert(ds0[k] == data_key@);
                        assert(ds0.contains(data_key@));
                    }
                }
                let ghost ds1 = ds@.map_values(|s: String| s@);
                proof {
                    assert(old_v[i as int].1 == ds0);
                    if ds1.len() == ds0.len() {
                        assert(ds1 =~= ds0);
                        assert forall|d: Seq<char>| ds1.contains(d) <==> ds0.contains(d) || d == data_key@ by {
                            if d == data_key@ {
                                let k = choose|k: int| 0 <= k < ds0.len() && ds0[k] == data_key@;
                            }
                        }
                    } else {
                        lemma_push_contains(ds0, data_key@);
                    }
                }
                self.groups.insert(i, (a, ds));
                proof {
                    assert(self@ =~= old_v.update(i as int, (api_key@, ds1)));
                    lemma_update_group(old_v, i as int, api_key@, data_key@, ds1);
                    assert(groups_wf(self@)) by {
                        assert forall|x: int, y: int| 0 <= x < y < self@.len() implies (#[trigger] self@[x]).0 != (#[trigger] self@[y]).0 by {
                            assert(self@[x].0 == old_v[x].0 && self@[y].0 == old_v[y].0);
                        }
                    }
                }
            },
        }
    }

    /// Drops the groups of every api key in `api_keys`; nothing happens for
    /// `None`.
    pub fn remove_apis(&mut self, api_keys: Option<Vec<String>>)
        requires
            old(self).wf(),
        ensures
            final(self).wf(),
            match api_keys {
                Some(keys) => {
                    &&& forall|a: Seq<char>, d: Seq<char>|
                        has_data(final(self)@, a, d) <==> has_data(old(self)@, a, d) && !seq_has_text(keys@, a)
                    &&& forall|a: Seq<char>| has_api(final(self)@, a) <==> has_api(old(self)@, a) && !seq_has_text(keys@, a)
                },
                None => final(self)@ == old(self)@,
            },
    {
        let keys = match api_keys {
            None => return,
            Some(k) => k,
        };
        let ghost v = self@;
        let mut keep: Vec<(String, Vec<String>)> = Vec::new();
        let n = self.groups.len();
        let mut j: usize = 0;
        while j < n
            invariant
                n == self.groups@.len(),
                v == self@,
                groups_wf(v),
                groups_wf(groups_view(keep@)),
                j <= n,
                forall|a: Seq<char>, d: Seq<char>|
                    #![trigger has_data(groups_view(keep@), a, d)]
                    #![trigger has_data(v.take(j as int), a, d)]
                    has_data(groups_view(keep@), a, d)
                    <==> has_data(v.take(j as int), a, d) && !seq_has_text(keys@, a),
                forall|a: Seq<char>|
                    #![trigger has_api(groups_view(keep@), a)]
                    #![trigger has_api(v.take(j as int), a)]
                    has_api(groups_view(keep@), a)
                    <==> has_api(v.take(j as int), a) && !seq_has_text(keys@, a),
            decreases n - j,
        {
            let ghost kv = groups_view(keep@);
            let ghost pre = v.take(j as int);
            let ghost nxt = v.take(j + 1);
            proof {
                assert(nxt =~= pre.push(v[j as int]));
            }
            proof {
                assert(v[j as int].0 == self.groups@[j as int].0@);
            }
            if contains_text(&keys, self.groups[j].0.as_str()) {
                proof {
                    lemma_push_dropped(pre, v[j as int], keys@);
                }
            } else {
                let g = (self.groups[j].0.clone(), clone_texts(&self.groups[j].1));
                keep.push(g);
                proof {
                    let kv2 = groups_view(keep@);
                    assert(kv2 =~= kv.push(v[j as int]));
                    lemma_push_kept(kv, pre, v[j as int], keys@);
                    assert(!has_api(kv, v[j as int].0)) by {
                        if has_api(kv, v[j as int].0) {
                            assert(has_api(pre, v[j as int].0));
                            let i = choose|i: int| 0 <= i < pre.len() && (#[trigger] pre[i]).0 == v[j as int].0;
                            assert(v[i] == pre[i]);
                        }
                    }
                    lemma_push_unique(kv, v[j as int]);
                }
            }
            j = j + 1;
        }
        proof {
            assert(v.take(n as int) =~= v);
        }
        self.groups = keep;
    }

    /// Whether the response for `(api_key, data_key)` is recorded. Like a
    /// map entry lookup, it leaves an empty group for an api key that had
    /// none.
    pub fn contains(&mut self, api_key: &str, data_key: &str) -> (r: bool)
        requires
            old(self).wf(),
        ensures
            final(self).wf(),
            r == has_data(old(self)@, api_key@, data_key@),
            forall|a: Seq<char>, d: Seq<char>| has_data(final(self)@, a, d) <==> has_data(old(self)@, a, d),
            forall|a: Seq<char>| has_api(final(self)@, a) <==> has_api(old(self)@, a) || a == api_key@,
    {
        let ghost v = self@;
        match self.position(api_key) {
            None => {
                let empty: Vec<String> = Vec::new();
                proof {
                    assert(empty@.map_values(|s: String| s@) =~= Seq::<Seq<char>>::empty());
                }
                self.groups.push((api_key.to_owned(), empty));
                proof {
                    if has_data(v, api_key@, data_key@) {
                        let j = choose|j: int| 0 <= j < v.len() && (#[trigger] v[j]).0 == api_key@ && v[j].1.contains(data_key@);
                        assert(has_api(v, api_key@));
                    }
                    let g: Group = (api_key@, Seq::empty());
                    assert(self@ =~= v.push(g));
                    lemma_push_empty_group(v, api_key@);
                    lemma_push_unique(v, g);
                }
                false
            },
            Some(i) => {
                let r = contains_text(&self.groups[i].1, data_key);
                proof {
                    if r {
                        let k = choose|k: int| 0 <= k < self.groups@[i as int].1@.len() && #[trigger] self.groups@[i as int].1@[k]@ == data_key@;
                        assert(v[i as int].1[k] == data_key@);
                        assert(v[i as int].1.contains(data_key@));
                    } else if has_data(v, api_key@, data_key@) {
                        let j = choose|j: int| 0 <= j < v.len() && (#[trigger] v[j]).0 == api_key@ && v[j].1.contains(data_key@);
                        if j == i {
                            let k = choose|k: int| 0 <= k < v[j].1.len() && v[j].1[k] == data_key@;
                            assert(self.groups@[i as int].1@[k]@ == data_key@);
                        } else if j < i {
                            assert(v[j].0 != v[i as int].0);
                        } else {
                            assert(v[i as int].0 != v[j].0);
                        }
                    }
                }
                r
            },
        }
    }
}

/// An empty group appended for a new api key changes no data membership.
proof fn lemma_push_empty_group(v: Seq<Group>, api: Seq<char>)
    ensures
        ({
            let w = v.push((api, Seq::<Seq<char>>::empty()));
            &&& forall|a: Seq<char>, d: Seq<char>| has_data(w, a, d) <==> has_data(v, a, d)
            &&& forall|a: Seq<char>| has_api(w, a) <==> has_api(v, a) || a == api
        }),
{
    let w = v.push((api, Seq::<Seq<char>>::empty()));
    assert forall|a: Seq<char>, d: Seq<char>| has_data(w, a, d) <==> has_data(v, a, d) by {
        if has_data(w, a, d) {
            let i = choose|i: int| 0 <= i < w.len() && (#[trigger] w[i]).0 == a && w[i].1.contains(d);
            if i < v.len() {
                assert(v[i] == w[i]);
            }
        }
        if has_data(v, a, d) {
            let i = choose|i: int| 0 <= i < v.len() && (#[trigger] v[i]).0 == a && v[i].1.contains(d);
            assert(w[i] == v[i]);
        }
    }
    assert forall|a: Seq<char>| has_api(w, a) <==> has_api(v, a) || a == api by {
        if has_api(w, a) {
            let i = choose|i: int| 0 <= i < w.len() && (#[trigger] w[i]).0 == a;
            if i < v.len() {
                assert(v[i] == w[i]);
            }
        }
        if has_api(v, a) {
            let i = choose|i: int| 0 <= i < v.len() && (#[trigger] v[i]).0 == a;
            assert(w[i] == v[i]);
        }
        if a == api {
            assert(w[v.len() as int].0 == a);
        }
    }
}

/// Passing over a group whose api key is dropped.
proof fn lemma_push_dropped(pre: Seq<Group>, g: Group, keys: Seq<String>)
    requires
        seq_has_text(keys, g.0),
    ensures
        forall|a: Seq<char>, d: Seq<char>|
            #![trigger has_data(pre.push(g), a, d)]
            #![trigger has_data(pre, a, d)]
            has_data(pre.push(g), a, d) && !seq_has_text(keys, a) <==> has_data(pre, a, d) && !seq_has_text(keys, a),
        forall|a: Seq<char>|
            #![trigger has_api(pre.push(g), a)]
            #![trigger has_api(pre, a)]
            has_api(pre.push(g), a) && !seq_has_text(keys, a) <==> has_api(pre, a) && !seq_has_text(keys, a),
{
    let w = pre.push(g);
    assert forall|a: Seq<char>, d: Seq<char>|
        has_data(w, a, d) && !seq_has_text(keys, a) <==> has_data(pre, a, d) && !seq_has_text(keys, a) by {
        if has_data(w, a, d) && !seq_has_text(keys, a) {
            let i = choose|i: int| 0 <= i < w.len() && (#[trigger] w[i]).0 == a && w[i].1.contains(d);
            if i < pre.len() {
                assert(pre[i] == w[i]);
            }
        }
        if has_data(pre, a, d) {
            let i = choose|i: int| 0 <= i < pre.len() && (#[trigger] pre[i]).0 == a && pre[i].1.contains(d);
            assert(w[i] == pre[i]);
        }
    }
    assert forall|a: Seq<char>| has_api(w, a) && !seq_has_text(keys, a) <==> has_api(pre, a) && !seq_has_text(keys, a) by {
        if has_api(w, a) && !seq_has_text(keys, a) {
            let i = choose|i: int| 0 <= i < w.len() && (#[trigger] w[i]).0 == a;
            if i < pre.len() {
                assert(pre[i] == w[i]);
            }
        }
        if has_api(pre, a) {
            let i = choose|i: int| 0 <= i < pre.len() && (#[trigger] pre[i]).0 == a;
            assert(w[i] == pre[i]);
        }
    }
}

/// Keeping a group whose api key is not dropped.
proof fn lemma_push_kept(kv: Seq<Group>, pre: Seq<Group>, g: Group, keys: Seq<String>)
    requires
        !seq_has_text(keys, g.0),
        forall|a: Seq<char>, d: Seq<char>|
            #![trigger has_data(kv, a, d)]
            #![trigger has_data(pre, a, d)]
            has_data(kv, a, d) <==> has_data(pre, a, d) && !seq_has_text(keys, a),
        forall|a: Seq<char>|
            #![trigger has_api(kv, a)]
            #![trigger has_api(pre, a)]
            has_api(kv, a) <==> has_api(pre, a) && !seq_has_text(keys, a),
    ensures
        forall|a: Seq<char>, d: Seq<char>|
            #![trigger has_data(kv.push(g), a, d)]
            #![trigger has_data(pre.push(g), a, d)]
            has_data(kv.push(g), a, d) <==> has_data(pre.push(g), a, d) && !seq_has_text(keys, a),
        forall|a: Seq<char>|
            #![trigger has_api(kv.push(g), a)]
            #![trigger has_api(pre.push(g), a)]
            has_api(kv.push(g), a) <==> has_api(pre.push(g), a) && !seq_has_text(keys, a),
{
    let w = pre.push(g);
    let kw = kv.push(g);
    assert forall|a: Seq<char>, d: Seq<char>|
        has_data(kw, a, d) <==> has_data(w, a, d) && !seq_has_text(keys, a) by {
        if has_data(kw, a, d) {
            let i = choose|i: int| 0 <= i < kw.len() && (#[trigger] kw[i]).0 == a && kw[i].1.contains(d);
            if i < kv.len() {
                assert(kv[i] == kw[i]);
                assert(has_data(kv, a, d));
                let k = choose|k: int| 0 <= k < pre.len() && (#[trigger] pre[k]).0 == a && pre[k].1.contains(d);
                assert(w[k] == pre[k]);
            } else {
                assert(w[pre.len() as int] == g);
            }
        }
        if has_data(w, a, d) && !seq_has_text(keys, a) {
            let i = choose|i: int| 0 <= i < w.len() && (#[trigger] w[i]).0 == a && w[i].1.contains(d);
            if i < pre.len() {
                assert(pre[i] == w[i]);
                assert(has_data(kv, a, d));
                let k = choose|k: int| 0 <= k < kv.len() && (#[trigger] kv[k]).0 == a && kv[k].1.contains(d);
                assert(kw[k] == kv[k]);
            } else {
                assert(kw[kv.len() as int] == g);
            }
        }
    }
    assert forall|a: Seq<char>| has_api(kw, a) <==> has_api(w, a) && !seq_has_text(keys, a) by {
        if has_api(kw, a) {
            let i = choose|i: int| 0 <= i < kw.len() && (#[trigger] kw[i]).0 == a;
            if i < kv.len() {
                assert(kv[i] == kw[i]);
                assert(has_api(kv, a));
                let k = choose|k: int| 0 <= k < pre.len() && (#[trigger] pre[k]).0 == a;
                assert(w[k] == pre[k]);
            } else {
                assert(w[pre.len() as int] == g);
            }
        }
        if has_api(w, a) && !seq_has_text(keys, a) {
            let i = choose|i: int| 0 <= i < w.len() && (#[trigger] w[i]).0 == a;
            if i < pre.len() {
                assert(pre[i] == w[i]);
                assert(has_api(kv, a));
                let k = choose|k: int| 0 <= k < kv.len() && (#[trigger] kv[k]).0 == a;
                assert(kw[k] == kv[k]);
            } else {
                assert(kw[kv.len() as int] == g);
            }
        }
    }
}

/// What a sequence with one more element contains.
proof fn lemma_push_contains(s: Seq<Seq<char>>, x: Seq<char>)
    ensures
        forall|d: Seq<char>| s.push(x).contains(d) <==> s.contains(d) || d == x,
{
    assert forall|d: Seq<char>| s.push(x).contains(d) <==> s.contains(d) || d == x by {
        if s.push(x).contains(d) {
            let k = choose|k: int| 0 <= k < s.push(x).len() && s.push(x)[k] == d;
            if k < s.len() {
                assert(s[k] == d);
                assert(s.contains(d));
            }
        }
        if s.contains(d) {
            let k = choose|k: int| 0 <= k < s.len() && s[k] == d;
            assert(s.push(x)[k] == d);
            assert(s.push(x).contains(d));
        }
        if d == x {
            assert(s.push(x)[s.len() as int] == d);
            assert(s.push(x).contains(d));
        }
    }
}

/// Appending a group for an api key that has none keeps api keys distinct.
proof fn lemma_push_unique(v: Seq<Group>, g: Group)
    requires
        groups_wf(v),
        !has_api(v, g.0),
    ensures
        groups_wf(v.push(g)),
{
    let w = v.push(g);
    assert forall|x: int, y: int| 0 <= x < y < w.len() implies (#[trigger] w[x]).0 != (#[trigger] w[y]).0 by {
        assert(w[x] == v[x]);
        if y < v.len() {
            assert(w[y] == v[y]);
        }
    }
}

/// Appending a new group for an api key that had none.
proof fn lemma_push_group(v: Seq<Group>, api: Seq<char>, data: Seq<char>)
    ensures
        ({
            let w = v.push((api, seq![data]));
            &&& forall|a: Seq<char>, d: Seq<char>| has_data(w, a, d) <==> has_data(v, a, d) || (a == api && d == data)
            &&& forall|a: Seq<char>| has_api(w, a) <==> has_api(v, a) || a == api
        }),
{
    let g: Group = (api, seq![data]);
    let w = v.push(g);
    assert forall|a: Seq<char>, d: Seq<char>| has_data(w, a, d) <==> has_data(v, a, d) || (a == api && d == data) by {
        if has_data(w, a, d) {
            let i = choose|i: int| 0 <= i < w.len() && (#[trigger] w[i]).0 == a && w[i].1.contains(d);
            if i < v.len() {
                assert(v[i] == w[i]);
            } else {
                let k = choose|k: int| 0 <= k < g.1.len() && g.1[k] == d;
            }
        }
        if has_data(v, a, d) {
            let i = choose|i: int| 0 <= i < v.len() && (#[trigger] v[i]).0 == a && v[i].1.contains(d);
            assert(w[i] == v[i]);
        }
        if a == api && d == data {
            assert(w[v.len() as int].1[0] == d);
        }
    }
    assert forall|a: Seq<char>| has_api(w, a) <==> has_api(v, a) || a == api by {
        if has_api(w, a) {
            let i = choose|i: int| 0 <= i < w.len() && (#[trigger] w[i]).0 == a;
            if i < v.len() {
                assert(v[i] == w[i]);
            }
        }
        if has_api(v, a) {
            let i = choose|i: int| 0 <= i < v.len() && (#[trigger] v[i]).0 == a;
            assert(w[i] == v[i]);
        }
        if a == api {
            assert(w[v.len() as int].0 == a);
        }
    }
}

/// Replacing the group at `i` of an api key by one that also holds `data`.
proof fn lemma_update_group(v: Seq<Group>, i: int, api: Seq<char>, data: Seq<char>, ds: Seq<Seq<char>>)
    requires
        0 <= i < v.len(),
        v[i].0 == api,
        forall|d: Seq<char>| ds.contains(d) <==> v[i].1.contains(d) || d == data,
    ensures
        ({
            let w = v.update(i, (api, ds));
            &&& forall|a: Seq<char>, d: Seq<char>| has_data(w, a, d) <==> has_data(v, a, d) || (a == api && d == data)
            &&& forall|a: Seq<char>| has_api(w, a) <==> has_api(v, a) || a == api
        }),
{
    let w = v.update(i, (api, ds));
    assert forall|a: Seq<char>, d: Seq<char>| has_data(w, a, d) <==> has_data(v, a, d) || (a == api && d == data) by {
        if has_data(w, a, d) {
            let j = choose|j: int| 0 <= j < w.len() && (#[trigger] w[j]).0 == a && w[j].1.contains(d);
            if j != i {
                assert(v[j] == w[j]);
            } else if d != data {
                assert(v[i].1.contains(d));
            }
        }
        if has_data(v, a, d) {
            let j = choose|j: int| 0 <= j < v.len() && (#[trigger] v[j]).0 == a && v[j].1.contains(d);
            if j != i {
                assert(w[j] == v[j]);
            } else {
                assert(ds.contains(d));
                assert(w[j].1 == ds);
            }
        }
        if a == api && d == data {
            assert(ds.contains(d));
            assert(w[i].1 == ds);
        }
    }
    assert forall|a: Seq<char>| has_api(w, a) <==> has_api(v, a) || a == api by {
        if has_api(w, a) {
            let j = choose|j: int| 0 <= j < w.len() && (#[trigger] w[j]).0 == a;
            assert(v[j].0 == w[j].0);
        }
        if has_api(v, a) {
            let j = choose|j: int| 0 <= j < v.len() && (#[trigger] v[j]).0 == a;
            assert(w[j].0 == v[j].0);
        }
        if a == api {
            assert(w[i].0 == a);
        }
    }
}

} // verus!
