//! The index of cached responses: which (api, data key) pairs have a cached
//! response in the cache store, and since when. Entries expire after the
//! configured cache time; a change through an api drops the entries of its
//! related apis.
use vstd::prelude::*;

use crate::text::{
    has_prefix, lemma_split_pair, push_char, spec_split, split_char, starts_with, str_eq,
};

verus! {

/// The character joining an api key and a data key into an index key.
pub open spec fn key_sep() -> char {
    '★'
}

/// The index key of an api key and a data key.
pub open spec fn spec_get_key(api_key: Seq<char>, data_key: Seq<char>) -> Seq<char> {
    api_key.push(key_sep()) + data_key
}

/// Joins an api key and a data key into an index key: `api★data`.
pub fn get_key(api_key: &str, data_key: &str) -> (key: String)
    ensures
        key@ == spec_get_key(api_key@, data_key@),
{
    let mut key = api_key.to_owned();
    push_char(&mut key, '★');
    key.append(data_key);
    key
}

/// The data key an index key records: its second `★`-separated piece.
pub open spec fn data_part(key: Seq<char>) -> Seq<char> {
    spec_split(key, key_sep())[1]
}

/// Whether a key has a data part.
pub open spec fn well_keyed(key: Seq<char>) -> bool {
    spec_split(key, key_sep()).len() >= 2
}

/// Every key built by `get_key` has a data part, and it is the data key
/// whenever neither key holds the separator.
pub proof fn lemma_key_parts(api_key: Seq<char>, data_key: Seq<char>)
    ensures
        well_keyed(spec_get_key(api_key, data_key)),
        !api_key.contains(key_sep()) && !data_key.contains(key_sep())
            ==> data_part(spec_get_key(api_key, data_key)) == data_key,
{
    lemma_split_pair(api_key, data_key, key_sep());
}

/// An index entry: a key and the time it was cached (milliseconds on a
/// monotonic clock).
pub type Entry = (Seq<char>, u64);

/// Whether some entry has key `k`.
pub open spec fn has_key(v: Seq<Entry>, k: Seq<char>) -> bool {
    exists|i: int| 0 <= i < v.len() && (#[trigger] v[i]).0 == k
}

/// No two entries share a key, and every key has a data part.
pub open spec fn entries_wf(v: Seq<Entry>) -> bool {
    &&& forall|i: int, j: int| 0 <= i < j < v.len() ==> (#[trigger] v[i]).0 != (#[trigger] v[j]).0
    &&& forall|i: int| 0 <= i < v.len() ==> well_keyed((#[trigger] v[i]).0)
}

/// The entries after recording key `k` at time `t`: the entry of `k` gets
/// the new time, or a new entry is appended.
pub open spec fn spec_add(v: Seq<Entry>, k: Seq<char>, t: u64) -> Seq<Entry> {
    if has_key(v, k) {
        v.map_values(|e: Entry| if e.0 == k { (k, t) } else { e })
    } else {
        v.push((k, t))
    }
}

/// The entries that `gone` does not select, in order.
pub open spec fn kept(v: Seq<Entry>, gone: spec_fn(Entry) -> bool) -> Seq<Entry>
    decreases v.len(),
{
    if v.len() == 0 {
        v
    } else if gone(v.last()) {
        kept(v.drop_last(), gone)
    } else {
        kept(v.drop_last(), gone).push(v.last())
    }
}

/// The data keys of the entries that `gone` selects, in order.
pub open spec fn dropped(v: Seq<Entry>, gone: spec_fn(Entry) -> bool) -> Seq<Seq<char>>
    decreases v.len(),
{
    if v.len() == 0 {
        Seq::empty()
    } else if gone(v.last()) {
        dropped(v.drop_last(), gone).push(data_part(v.last().0))
    } else {
        dropped(v.drop_last(), gone)
    }
}

/// Selects the entries whose key starts with `api_key`.
pub open spec fn under_api(api_key: Seq<char>) -> spec_fn(Entry) -> bool {
    |e: Entry| has_prefix(e.0, api_key)
}

/// Milliseconds from `t` to `now`, or 0 when `t` is later.
pub open spec fn elapsed(now: u64, t: u64) -> int {
    if now >= t {
        now - t
    } else {
        0
    }
}

/// Selects the entries older than `ttl_ms` at `now`.
pub open spec fn stale(now: u64, ttl_ms: int) -> spec_fn(Entry) -> bool {
    |e: Entry| elapsed(now, e.1) > ttl_ms
}

/// Dropping the entries of each api key in turn: what is left, and the data
/// keys dropped, api key by api key.
pub open spec fn spec_remove_apis(v: Seq<Entry>, api_keys: Seq<Seq<char>>) -> (Seq<Entry>, Seq<Seq<char>>)
    decreases api_keys.len(),
{
    if api_keys.len() == 0 {
        (v, Seq::empty())
    } else {
        let (rest, out) = spec_remove_apis(v, api_keys.drop_last());
        let a = api_keys.last();
        (kept(rest, under_api(a)), out + dropped(rest, under_api(a)))
    }
}

/// The kept entries are exactly the entries `gone` does not select.
pub proof fn lemma_kept_members(v: Seq<Entry>, gone: spec_fn(Entry) -> bool)
    ensures
        forall|e: Entry|
            #![trigger kept(v, gone).contains(e)]
            #![trigger v.contains(e)]
            kept(v, gone).contains(e) <==> v.contains(e) && !gone(e),
    decreases v.len(),
{
    if v.len() > 0 {
        lemma_kept_members(v.drop_last(), gone);
        assert forall|e: Entry| v.contains(e) <==> v.drop_last().contains(e) || e == v.last() by {
            if v.contains(e) {
                let i = choose|i: int| 0 <= i < v.len() && v[i] == e;
                if i < v.len() - 1 {
                    assert(v.drop_last()[i] == e);
                }
            }
            if v.drop_last().contains(e) {
                let i = choose|i: int| 0 <= i < v.drop_last().len() && v.drop_last()[i] == e;
                assert(v[i] == e);
            }
            if e == v.last() {
                assert(v[v.len() - 1] == e);
            }
        }
        let r = kept(v.drop_last(), gone);
        if !gone(v.last()) {
            assert forall|e: Entry| r.push(v.last()).contains(e) <==> r.contains(e) || e == v.last() by {
                if r.push(v.last()).contains(e) {
                    let i = choose|i: int| 0 <= i < r.push(v.last()).len() && r.push(v.last())[i] == e;
                    if i < r.len() {
                        assert(r[i] == e);
                    }
                }
                if r.contains(e) {
                    let i = choose|i: int| 0 <= i < r.len() && r[i] == e;
                    assert(r.push(v.last())[i] == e);
                }
                if e == v.last() {
                    assert(r.push(v.last())[r.len() as int] == e);
                }
            }
        }
    }
}

/// Keeping a part of well-formed entries keeps them well formed.
pub proof fn lemma_kept_wf(v: Seq<Entry>, gone: spec_fn(Entry) -> bool)
    requires
        entries_wf(v),
    ensures
        entries_wf(kept(v, gone)),
    decreases v.len(),
{
    if v.len() > 0 {
        let d = v.drop_last();
        assert(entries_wf(d)) by {
            assert forall|i: int, j: int| 0 <= i < j < d.len() implies (#[trigger] d[i]).0 != (#[trigger] d[j]).0 by {
                assert(d[i] == v[i] && d[j] == v[j]);
            }
            assert forall|i: int| 0 <= i < d.len() implies well_keyed((#[trigger] d[i]).0) by {
                assert(d[i] == v[i]);
            }
        }
        lemma_kept_wf(d, gone);
        lemma_kept_members(d, gone);
        let r = kept(d, gone);
        if !gone(v.last()) {
            let n = r.push(v.last());
            assert forall|i: int, j: int| 0 <= i < j < n.len() implies (#[trigger] n[i]).0 != (#[trigger] n[j]).0 by {
                if j == r.len() {
                    assert(r.contains(r[i]));
                    assert(d.contains(r[i]));
                    let k = choose|k: int| 0 <= k < d.len() && d[k] == r[i];
                    assert(v[k] == d[k]);
                    assert(v[v.len() - 1] == v.last());
                } else {
                    assert(n[i] == r[i] && n[j] == r[j]);
                }
            }
            assert forall|i: int| 0 <= i < n.len() implies well_keyed((#[trigger] n[i]).0) by {
                if i < r.len() {
                    assert(n[i] == r[i]);
                } else {
                    assert(v[v.len() - 1] == v.last());
                }
            }
        }
    }
}

/// The dropped data keys are exactly the data keys of the selected entries.
pub proof fn lemma_dropped_members(v: Seq<Entry>, gone: spec_fn(Entry) -> bool)
    ensures
        forall|d: Seq<char>| dropped(v, gone).contains(d)
            <==> exists|i: int| 0 <= i < v.len() && gone(v[i]) && data_part(v[i].0) == d,
    decreases v.len(),
{
    if v.len() > 0 {
        let w = v.drop_last();
        lemma_dropped_members(w, gone);
        let r = dropped(w, gone);
        assert forall|d: Seq<char>| dropped(v, gone).contains(d)
            <==> exists|i: int| 0 <= i < v.len() && gone(v[i]) && data_part(v[i].0) == d by {
            if dropped(v, gone).contains(d) {
                if gone(v.last()) {
                    let k = choose|k: int| 0 <= k < r.push(data_part(v.last().0)).len() && r.push(data_part(v.last().0))[k] == d;
                    if k < r.len() {
                        assert(r[k] == d);
                        assert(r.contains(d));
                        let i = choose|i: int| 0 <= i < w.len() && gone(w[i]) && data_part(w[i].0) == d;
                        assert(v[i] == w[i]);
                    } else {
                        assert(v[v.len() - 1] == v.last());
                    }
                } else {
                    let i = choose|i: int| 0 <= i < w.len() && gone(w[i]) && data_part(w[i].0) == d;
                    assert(v[i] == w[i]);
                }
            }
            if exists|i: int| 0 <= i < v.len() && gone(v[i]) && data_part(v[i].0) == d {
                let i = choose|i: int| 0 <= i < v.len() && gone(v[i]) && data_part(v[i].0) == d;
                if i < w.len() {
                    assert(w[i] == v[i]);
                    assert(r.contains(d));
                    let k = choose|k: int| 0 <= k < r.len() && r[k] == d;
                    if gone(v.last()) {
                        assert(r.push(data_part(v.last().0))[k] == d);
                    }
                } else {
                    assert(v[i] == v.last());
                    assert(r.push(data_part(v.last().0))[r.len() as int] == d);
                }
            }
        }
    }
}

/// Recording a response makes it findable, keeps every other key and gives
/// the key the new time; the index stays well formed.
pub proof fn law_add_then_contains(v: Seq<Entry>, api_key: Seq<char>, data_key: Seq<char>, now: u64)
    requires
        entries_wf(v),
    ensures
        ({
            let k = spec_get_key(api_key, data_key);
            let w = spec_add(v, k, now);
            &&& has_key(w, k)
            &&& forall|i: int| 0 <= i < w.len() && (#[trigger] w[i]).0 == k ==> w[i].1 == now
            &&& forall|k2: Seq<char>| k2 != k ==> (has_key(w, k2) <==> has_key(v, k2))
        }),
{
    let k = spec_get_key(api_key, data_key);
    let w = spec_add(v, k, now);
    if has_key(v, k) {
        let i = choose|i: int| 0 <= i < v.len() && v[i].0 == k;
        assert(w[i].0 == k);
        assert forall|k2: Seq<char>| k2 != k implies (has_key(w, k2) <==> has_key(v, k2)) by {
            if has_key(w, k2) {
                let j = choose|j: int| 0 <= j < w.len() && w[j].0 == k2;
                assert(v[j].0 == k2);
            }
            if has_key(v, k2) {
                let j = choose|j: int| 0 <= j < v.len() && v[j].0 == k2;
                assert(w[j].0 == k2);
            }
        }
    } else {
        assert(w[v.len() as int].0 == k);
        assert forall|k2: Seq<char>| k2 != k implies (has_key(w, k2) <==> has_key(v, k2)) by {
            if has_key(w, k2) {
                let j = choose|j: int| 0 <= j < w.len() && w[j].0 == k2;
                assert(v[j].0 == k2);
            }
            if has_key(v, k2) {
                let j = choose|j: int| 0 <= j < v.len() && v[j].0 == k2;
                assert(w[j].0 == k2);
            }
        }
    }
}

/// A key is found in the kept entries exactly when some selected-out entry
/// does not carry it and the entries did.
proof fn lemma_kept_has_key(v: Seq<Entry>, gone: spec_fn(Entry) -> bool, k: Seq<char>)
    requires
        entries_wf(v),
    ensures
        has_key(kept(v, gone), k) <==> exists|i: int| 0 <= i < v.len() && v[i].0 == k && !gone(v[i]),
{
    lemma_kept_members(v, gone);
    let r = kept(v, gone);
    if has_key(r, k) {
        let j = choose|j: int| 0 <= j < r.len() && r[j].0 == k;
        assert(r.contains(r[j]));
        assert(v.contains(r[j]));
        let i = choose|i: int| 0 <= i < v.len() && v[i] == r[j];
        assert(v[i].0 == k && !gone(v[i]));
    }
    if exists|i: int| 0 <= i < v.len() && v[i].0 == k && !gone(v[i]) {
        let i = choose|i: int| 0 <= i < v.len() && v[i].0 == k && !gone(v[i]);
        assert(v.contains(v[i]));
        assert(r.contains(v[i]));
        let j = choose|j: int| 0 <= j < r.len() && r[j] == v[i];
        assert(r[j].0 == k);
    }
}

/// After dropping the entries of some api keys, a key is left exactly when
/// it was there and starts with none of them; the index stays well formed.
pub proof fn law_remove_apis(v: Seq<Entry>, api_keys: Seq<Seq<char>>, k: Seq<char>)
    requires
        entries_wf(v),
    ensures
        entries_wf(spec_remove_apis(v, api_keys).0),
        has_key(spec_remove_apis(v, api_keys).0, k)
            <==> has_key(v, k) && forall|i: int| 0 <= i < api_keys.len() ==> !has_prefix(k, #[trigger] api_keys[i]),
    decreases api_keys.len(),
{
    if api_keys.len() > 0 {
        let ks = api_keys.drop_last();
        law_remove_apis(v, ks, k);
        let rest = spec_remove_apis(v, ks).0;
        let a = api_keys.last();
        lemma_kept_wf(rest, under_api(a));
        lemma_kept_has_key(rest, under_api(a), k);
        if has_key(spec_remove_apis(v, api_keys).0, k) {
            let i = choose|i: int| 0 <= i < rest.len() && rest[i].0 == k && !under_api(a)(rest[i]);
            assert(has_key(rest, k));
            assert forall|j: int| 0 <= j < api_keys.len() implies !has_prefix(k, #[trigger] api_keys[j]) by {
                if j < ks.len() {
                    assert(ks[j] == api_keys[j]);
                }
            }
        }
        if has_key(v, k) && forall|i: int| 0 <= i < api_keys.len() ==> !has_prefix(k, #[trigger] api_keys[i]) {
            assert forall|j: int| 0 <= j < ks.len() implies !has_prefix(k, #[trigger] ks[j]) by {
                assert(ks[j] == api_keys[j]);
            }
            assert(has_key(rest, k));
            let i = choose|i: int| 0 <= i < rest.len() && rest[i].0 == k;
            assert(!has_prefix(k, api_keys[api_keys.len() - 1]));
        }
    }
}

/// After dropping an api key's entries, no response cached through it is
/// found any more.
pub proof fn law_removed_api_misses(v: Seq<Entry>, api_key: Seq<char>, data_key: Seq<char>)
    requires
        entries_wf(v),
    ensures
        !has_key(spec_remove_apis(v, seq![api_key]).0, spec_get_key(api_key, data_key)),
{
    let k = spec_get_key(api_key, data_key);
    law_remove_apis(v, seq![api_key], k);
    assert(k.subrange(0, api_key.len() as int) =~= api_key);
    assert(has_prefix(k, seq![api_key][0]));
}

/// After expiry every entry left is at most `ttl_ms` old, and every entry
/// that was at most that old is left.
pub proof fn law_expire(v: Seq<Entry>, now: u64, ttl_ms: int)
    ensures
        forall|e: Entry| kept(v, stale(now, ttl_ms)).contains(e) ==> elapsed(now, e.1) <= ttl_ms,
        forall|e: Entry| v.contains(e) && elapsed(now, e.1) <= ttl_ms ==> kept(v, stale(now, ttl_ms)).contains(e),
{
    lemma_kept_members(v, stale(now, ttl_ms));
    assert forall|e: Entry| kept(v, stale(now, ttl_ms)).contains(e) implies elapsed(now, e.1) <= ttl_ms by {
        assert(!stale(now, ttl_ms)(e));
    }
}

/// The index of cached responses.
pub struct CacheIndex {
    entries: Vec<(String, u64)>,
}

impl View for CacheIndex {
    type V = Seq<Entry>;

    closed spec fn view(&self) -> Seq<Entry> {
        self.entries@.map_values(|e: (String, u64)| (e.0@, e.1))
    }
}

impl CacheIndex {
    /// The index invariant: keys are distinct and have a data part.
    pub open spec fn wf(&self) -> bool {
        entries_wf(self@)
    }

    /// An empty index.
    pub fn new() -> (idx: Self)
        ensures
            idx@ == Seq::<Entry>::empty(),
            idx.wf(),
    {
        let idx = CacheIndex { entries: Vec::new() };
        assert(idx@ =~= Seq::<Entry>::empty());
        idx
    }

    /// Where the entry with key `key` is, if any.
    fn position(&self, key: &str) -> (pos: Option<usize>)
        ensures
            match pos {
                Some(i) => i < self@.len() && self@[i as int].0 == key@,
                None => !has_key(self@, key@),
            },
    {
        let mut i: usize = 0;
        while i < self.entries.len()
            invariant
                i <= self.entries@.len(),
                self@.len() == self.entries@.len(),
                forall|k: int| 0 <= k < i ==> (#[trigger] self@[k]).0 != key@,
            decreases self.entries@.len() - i,
        {
            if str_eq(self.entries[i].0.as_str(), key) {
                return Some(i);
            }
            i = i + 1;
        }
        None
    }

    /// Records that the response for `(api_key, data_key)` was cached at
    /// `now`.
    pub fn add(&mut self, api_key: &str, data_key: &str, now: u64)
        requires
            old(self).wf(),
        ensures
            final(self).wf(),
            final(self)@ == spec_add(old(self)@, spec_get_key(api_key@, data_key@), now),
    {
        let key = get_key(api_key, data_key);
        proof {
            lemma_key_parts(api_key@, data_key@);
        }
        let ghost k = key@;
        let ghost before = self@;
        match self.position(key.as_str()) {
            Some(i) => {
                self.entries.set(i, (key, now));
                proof {
                    let expect = before.map_values(|e: Entry| if e.0 == k { (k, now) } else { e });
                    assert forall|j: int| 0 <= j < self@.len() implies self@[j] == expect[j] by {
                        if j != i {
                            assert(before[j].0 != k) by {
                                if j < i {
                                    assert(before[j].0 != before[i as int].0);
                                } else {
                                    assert(before[i as int].0 != before[j].0);
                                }
                            }
                        }
                    }
                    assert(self@ =~= expect);
                }
            },
            None => {
                self.entries.push((key, now));
                proof {
                    assert(self@ =~= before.push((k, now)));
                }
            },
        }
    }

    /// Moves the entries whose key starts with `api_key` out of the index,
    /// appending their data keys to `out`.
    fn drop_api(&mut self, api_key: &str, out: &mut Vec<String>)
        requires
            old(self).wf(),
        ensures
            final(self).wf(),
            final(self)@ == kept(old(self)@, under_api(api_key@)),
            final(out)@.map_values(|s: String| s@) == old(out)@.map_values(|s: String| s@)
                + dropped(old(self)@, under_api(api_key@)),
    {
        let ghost v = self@;
        let ghost p = under_api(api_key@);
        let ghost out0 = out@.map_values(|s: String| s@);
        proof {
            assert(out0 + dropped(v.take(0), p) =~= out0);
            assert(Seq::<(String, u64)>::empty().map_values(|e: (String, u64)| (e.0@, e.1)) =~= kept(v.take(0), p));
        }
        let mut keep: Vec<(String, u64)> = Vec::new();
        let n = self.entries.len();
        let mut j: usize = 0;
        while j < n
            invariant
                n == self.entries@.len(),
                v == self@,
                entries_wf(v),
                p == under_api(api_key@),
                j <= n,
                keep@.map_values(|e: (String, u64)| (e.0@, e.1)) == kept(v.take(j as int), p),
                out@.map_values(|s: String| s@) == out0 + dropped(v.take(j as int), p),
            decreases n - j,
        {
            let ghost pre = v.take(j as int);
            let ghost nxt = v.take(j + 1);
            proof {
                assert(nxt.drop_last() =~= pre);
                assert(nxt.last() == v[j as int]);
            }
            let key = &self.entries[j].0;
            if starts_with(key.as_str(), api_key) {
                let pieces = split_char(key.as_str(), '★');
                proof {
                    assert(well_keyed(v[j as int].0));
                }
                let data = pieces[1].clone();
                let ghost before = out@;
                out.push(data);
                proof {
                    assert(out@.map_values(|s: String| s@) =~= before.map_values(|s: String| s@).push(data@));
                }
            } else {
                let entry = (key.clone(), self.entries[j].1);
                let ghost before = keep@;
                keep.push(entry);
                proof {
                    assert(keep@.map_values(|e: (String, u64)| (e.0@, e.1))
                        =~= before.map_values(|e: (String, u64)| (e.0@, e.1)).push(v[j as int]));
                }
            }
            j = j + 1;
        }
        proof {
            assert(v.take(n as int) =~= v);
            lemma_kept_wf(v, p);
        }
        self.entries = keep;
    }

    /// Drops the entries of every api key in `api_keys`, in turn, and
    /// returns the data keys of the dropped entries; nothing happens for
    /// `None`.
    pub fn remove_apis(&mut self, api_keys: Option<Vec<String>>) -> (data_keys: Vec<String>)
        requires
            old(self).wf(),
        ensures
            final(self).wf(),
            match api_keys {
                Some(keys) => {
                    let r = spec_remove_apis(old(self)@, keys@.map_values(|s: String| s@));
                    &&& final(self)@ == r.0
                    &&& data_keys@.map_values(|s: String| s@) == r.1
                },
                None => final(self)@ == old(self)@ && data_keys@.len() == 0,
            },
    {
        let mut out: Vec<String> = Vec::new();
        match api_keys {
            None => {},
            Some(keys) => {
                let ghost v = self@;
                let ghost ks = keys@.map_values(|s: String| s@);
                let mut i: usize = 0;
                proof {
                    assert(ks.take(0) =~= Seq::<Seq<char>>::empty());
                    assert(out@.map_values(|s: String| s@) =~= Seq::<Seq<char>>::empty());
                }
                while i < keys.len()
                    invariant
                        i <= keys@.len(),
                        ks == keys@.map_values(|s: String| s@),
                        self.wf(),
                        self@ == spec_remove_apis(v, ks.take(i as int)).0,
                        out@.map_values(|s: String| s@) == spec_remove_apis(v, ks.take(i as int)).1,
                    decreases keys@.len() - i,
                {
                    proof {
                        assert(ks.take(i + 1).drop_last() =~= ks.take(i as int));
                        assert(ks.take(i + 1).last() == keys@[i as int]@);
                    }
                    self.drop_api(keys[i].as_str(), &mut out);
                    i = i + 1;
                }
                proof {
                    assert(ks.take(keys@.len() as int) =~= ks);
                }
            },
        }
        out
    }

    /// Drops the entries older than `cache_time` seconds at `now` and
    /// returns their data keys.
    pub fn expire(&mut self, now: u64, cache_time: u64) -> (data_keys: Vec<String>)
        requires
            old(self).wf(),
            cache_time * 1000 <= u64::MAX,
        ensures
            final(self).wf(),
            final(self)@ == kept(old(self)@, stale(now, cache_time * 1000)),
            data_keys@.map_values(|s: String| s@) == dropped(old(self)@, stale(now, cache_time * 1000)),
    {
        let ttl = cache_time * 1000;
        let ghost v = self@;
        let ghost p = stale(now, ttl as int);
        let mut out: Vec<String> = Vec::new();
        let mut keep: Vec<(String, u64)> = Vec::new();
        let n = self.entries.len();
        let mut j: usize = 0;
        proof {
            assert(out@.map_values(|s: String| s@) =~= dropped(v.take(0), p));
            assert(keep@.map_values(|e: (String, u64)| (e.0@, e.1)) =~= kept(v.take(0), p));
        }
        while j < n
            invariant
                n == self.entries@.len(),
                v == self@,
                entries_wf(v),
                p == stale(now, ttl as int),
                j <= n,
                keep@.map_values(|e: (String, u64)| (e.0@, e.1)) == kept(v.take(j as int), p),
                out@.map_values(|s: String| s@) == dropped(v.take(j as int), p),
            decreases n - j,
        {
            let ghost pre = v.take(j as int);
            let ghost nxt = v.take(j + 1);
            proof {
                assert(nxt.drop_last() =~= pre);
                assert(nxt.last() == v[j as int]);
            }
            let t = self.entries[j].1;
            let age = if now >= t { now - t } else { 0 };
            let key = &self.entries[j].0;
            if age > ttl {
                let pieces = split_char(key.as_str(), '★');
                proof {
                    assert(well_keyed(v[j as int].0));
                }
                let data = pieces[1].clone();
                let ghost before = out@;
                out.push(data);
                proof {
                    assert(out@.map_values(|s: String| s@) =~= before.map_values(|s: String| s@).push(data@));
                }
            } else {
                let entry = (key.clone(), t);
                let ghost before = keep@;
                keep.push(entry);
                proof {
                    assert(keep@.map_values(|e: (String, u64)| (e.0@, e.1))
                        =~= before.map_values(|e: (String, u64)| (e.0@, e.1)).push(v[j as int]));
                }
            }
            j = j + 1;
        }
        proof {
            assert(v.take(n as int) =~= v);
            lemma_kept_wf(v, p);
        }
        self.entries = keep;
        out
    }

    /// Whether a cached response is recorded for `(api_key, data_key)`.
    pub fn contains(&self, api_key: &str, data_key: &str) -> (r: bool)
        ensures
            r == has_key(self@, spec_get_key(api_key@, data_key@)),
    {
        let key = get_key(api_key, data_key);
        self.position(key.as_str()).is_some()
    }
}

} // verus!
