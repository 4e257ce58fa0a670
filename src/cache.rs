//! What the greeter remembers between logins: the last user, and the last
//! session of each user in a bounded least-recently-used map.

use vstd::prelude::*;
use vstd::string::*;

verus! {

/// The number of users whose last session is remembered.
pub const CACHE_LIMIT: usize = 100;

/// The least-recently-used map of the `lru` crate, opaque to proofs: what it
/// holds is named by `lru_entries` and `lru_cap`.
#[verifier::external_type_specification]
#[verifier::external_body]
#[verifier::reject_recursive_types(K)]
#[verifier::reject_recursive_types(V)]
#[verifier::reject_recursive_types(S)]
pub struct ExLruCache<K, V, S>(lru::LruCache<K, V, S>);

/// The hasher that `lru::LruCache` uses by default.
#[verifier::external_type_specification]
#[verifier::external_body]
pub struct ExDefaultHasher(lru::DefaultHasher);

/// The entries of an LRU map, most recently used first.
pub uninterp spec fn lru_entries(c: lru::LruCache<String, String>) -> Seq<(Seq<char>, Seq<char>)>;

/// The number of entries that an LRU map holds at most.
pub uninterp spec fn lru_cap(c: lru::LruCache<String, String>) -> nat;

/// Whether no two entries of `e` have the same key.
pub open spec fn keys_unique(e: Seq<(Seq<char>, Seq<char>)>) -> bool {
    forall|i: int, j: int| 0 <= i < j < e.len() ==> #[trigger] e[i].0 != #[trigger] e[j].0
}

/// Whether `e` has an entry for `k`.
pub open spec fn has_key(e: Seq<(Seq<char>, Seq<char>)>, k: Seq<char>) -> bool {
    exists|j: int| 0 <= j < e.len() && #[trigger] e[j].0 == k
}

/// The position of the entry for `k` in `e`, where there is one.
pub open spec fn key_pos(e: Seq<(Seq<char>, Seq<char>)>, k: Seq<char>) -> int {
    choose|j: int| 0 <= j < e.len() && #[trigger] e[j].0 == k
}

/// The entries after `k` is set to `v` in a map of at most `cap` entries:
/// the entry moves to the front; a new key evicts the least recently used
/// entry when the map is full.
pub open spec fn lru_push(e: Seq<(Seq<char>, Seq<char>)>, cap: nat, k: Seq<char>, v: Seq<char>) -> Seq<
    (Seq<char>, Seq<char>),
> {
    if has_key(e, k) {
        seq![(k, v)] + e.remove(key_pos(e, k))
    } else if e.len() >= cap {
        seq![(k, v)] + e.drop_last()
    } else {
        seq![(k, v)] + e
    }
}

/// The entries after a lookup of `k`: its entry, if any, moves to the front.
pub open spec fn lru_touch(e: Seq<(Seq<char>, Seq<char>)>, k: Seq<char>) -> Seq<(Seq<char>, Seq<char>)> {
    if has_key(e, k) {
        seq![e[key_pos(e, k)]] + e.remove(key_pos(e, k))
    } else {
        e
    }
}

/// Relies on `lru::LruCache::new`: an empty map that holds at most `cap`
/// entries.
#[verifier::external_body]
fn lru_new(cap: usize) -> (c: lru::LruCache<String, String>)
    requires
        cap > 0,
    ensures
        lru_entries(c) == Seq::<(Seq<char>, Seq<char>)>::empty(),
        lru_cap(c) == cap,
{
    lru::LruCache::new(std::num::NonZeroUsize::new(cap).unwrap())
}

/// Relies on `lru::LruCache::push`: the entry for `k` is set to `v` and
/// becomes the most recently used; a new key evicts the least recently used
/// entry when the map is full. The result, the replaced or evicted entry, is
/// dropped.
#[verifier::external_body]
fn lru_push_entry(c: &mut lru::LruCache<String, String>, k: String, v: String)
    requires
        keys_unique(lru_entries(*old(c))),
        lru_entries(*old(c)).len() <= lru_cap(*old(c)),
    ensures
        lru_entries(*final(c)) == lru_push(lru_entries(*old(c)), lru_cap(*old(c)), k@, v@),
        lru_cap(*final(c)) == lru_cap(*old(c)),
{
    c.push(k, v);
}

/// Relies on `lru::LruCache::get`: the value for `k`, if any, whose entry
/// becomes the most recently used.
#[verifier::external_body]
fn lru_get(c: &mut lru::LruCache<String, String>, k: &str) -> (r: Option<String>)
    requires
        keys_unique(lru_entries(*old(c))),
    ensures
        has_key(lru_entries(*old(c)), k@) ==> (r matches Some(v) && v@ == lru_entries(
            *old(c),
        )[key_pos(lru_entries(*old(c)), k@)].1),
        !has_key(lru_entries(*old(c)), k@) ==> r is None,
        lru_entries(*final(c)) == lru_touch(lru_entries(*old(c)), k@),
        lru_cap(*final(c)) == lru_cap(*old(c)),
{
    c.get(k).cloned()
}

/// Relies on `lru::LruCache::iter`: the entries, most recently used first.
#[verifier::external_body]
fn lru_items(c: &lru::LruCache<String, String>) -> (r: Vec<(String, String)>)
    ensures
        r@.map_values(|p: (String, String)| (p.0@, p.1@)) == lru_entries(*c),
{
    c.iter().map(|(k, v)| (k.clone(), v.clone())).collect()
}

/// The entries after each of `pushed` is set in turn, from empty, in a map
/// of at most `cap` entries.
pub open spec fn lru_fill(pushed: Seq<(Seq<char>, Seq<char>)>, cap: nat) -> Seq<(Seq<char>, Seq<char>)>
    decreases pushed.len(),
{
    if pushed.len() == 0 {
        seq![]
    } else {
        lru_push(lru_fill(pushed.drop_last(), cap), cap, pushed.last().0, pushed.last().1)
    }
}

proof fn lemma_key_pos(e: Seq<(Seq<char>, Seq<char>)>, k: Seq<char>)
    requires
        has_key(e, k),
    ensures
        0 <= key_pos(e, k) < e.len(),
        e[key_pos(e, k)].0 == k,
{
}

/// Setting an entry keeps the keys unique and the map within its bound.
pub proof fn lemma_lru_push_wf(e: Seq<(Seq<char>, Seq<char>)>, cap: nat, k: Seq<char>, v: Seq<char>)
    requires
        keys_unique(e),
        e.len() <= cap,
        cap > 0,
    ensures
        keys_unique(lru_push(e, cap, k, v)),
        lru_push(e, cap, k, v).len() <= cap,
        lru_push(e, cap, k, v)[0] == (k, v),
{
    let r = lru_push(e, cap, k, v);
    if has_key(e, k) {
        lemma_key_pos(e, k);
        let p = key_pos(e, k);
        let rest = e.remove(p);
        assert forall|i: int| 0 <= i < rest.len() implies #[trigger] rest[i].0 != k by {
            if i < p {
                assert(rest[i] == e[i]);
            } else {
                assert(rest[i] == e[i + 1]);
            }
        }
        assert forall|i: int, j: int| 0 <= i < j < r.len() implies #[trigger] r[i].0 != #[trigger] r[j].0 by {
            if i == 0 {
                assert(r[j] == rest[j - 1]);
            } else {
                assert(r[i] == rest[i - 1]);
                assert(r[j] == rest[j - 1]);
                let a = if i - 1 < p { i - 1 } else { i };
                let b = if j - 1 < p { j - 1 } else { j };
                assert(rest[i - 1] == e[a]);
                assert(rest[j - 1] == e[b]);
            }
        }
    } else {
        let rest = if e.len() >= cap { e.drop_last() } else { e };
        assert forall|i: int| 0 <= i < rest.len() implies #[trigger] rest[i].0 != k by {
            assert(rest[i] == e[i]);
        }
        assert forall|i: int, j: int| 0 <= i < j < r.len() implies #[trigger] r[i].0 != #[trigger] r[j].0 by {
            assert(r[j] == rest[j - 1]);
            if i > 0 {
                assert(r[i] == rest[i - 1]);
                assert(rest[i - 1] == e[i - 1]);
                assert(rest[j - 1] == e[j - 1]);
            }
        }
    }
}

/// After `k` is set to `v`, a lookup of `k` finds `v`, at the front.
pub proof fn lemma_lru_push_then_lookup(
    e: Seq<(Seq<char>, Seq<char>)>,
    cap: nat,
    k: Seq<char>,
    v: Seq<char>,
)
    requires
        keys_unique(e),
        e.len() <= cap,
        cap > 0,
    ensures
        has_key(lru_push(e, cap, k, v), k),
        key_pos(lru_push(e, cap, k, v), k) == 0,
        lru_push(e, cap, k, v)[key_pos(lru_push(e, cap, k, v), k)].1 == v,
{
    lemma_lru_push_wf(e, cap, k, v);
    let r = lru_push(e, cap, k, v);
    assert(r[0].0 == k);
    assert(has_key(r, k));
    lemma_key_pos(r, k);
    let p = key_pos(r, k);
    if p != 0 {
        assert(r[0].0 != r[p].0);
    }
}

/// A lookup keeps the keys unique and the number of entries.
pub proof fn lemma_lru_touch_wf(e: Seq<(Seq<char>, Seq<char>)>, k: Seq<char>)
    requires
        keys_unique(e),
    ensures
        keys_unique(lru_touch(e, k)),
        lru_touch(e, k).len() == e.len(),
{
    if has_key(e, k) {
        lemma_key_pos(e, k);
        let p = key_pos(e, k);
        let v = e[p].1;
        assert(e[p] == (k, v));
        lemma_lru_push_wf(e, e.len(), k, v);
        assert(lru_touch(e, k) == lru_push(e, e.len(), k, v));
    }
}

/// Information kept between logins.
pub struct Cache {
    /// The last user who logged in.
    last_user: Option<String>,
    /// The last session of each user, most recently used first.
    user_to_last_sess: lru::LruCache<String, String>,
}

impl Cache {
    /// The last user who logged in.
    pub closed spec fn last_user_view(&self) -> Option<Seq<char>> {
        match self.last_user {
            Some(u) => Some(u@),
            None => None,
        }
    }

    /// The user to last session entries, most recently used first.
    pub closed spec fn sessions_view(&self) -> Seq<(Seq<char>, Seq<char>)> {
        lru_entries(self.user_to_last_sess)
    }

    /// The keys are unique and at most `CACHE_LIMIT` entries are kept.
    pub closed spec fn wf(&self) -> bool {
        &&& keys_unique(lru_entries(self.user_to_last_sess))
        &&& lru_cap(self.user_to_last_sess) == CACHE_LIMIT
        &&& lru_entries(self.user_to_last_sess).len() <= CACHE_LIMIT
    }

    /// Restore what was saved: the last user, and the user to session entries
    /// `sessions`, each set in turn. Only the `CACHE_LIMIT` most recently set
    /// users are kept.
    pub fn new(last_user: Option<String>, sessions: Vec<(String, String)>) -> (c: Cache)
        ensures
            c.wf(),
            keys_unique(c.sessions_view()),
            c.last_user_view() == (match last_user {
                Some(u) => Some(u@),
                None => None::<Seq<char>>,
            }),
            c.sessions_view() == lru_fill(
                sessions@.map_values(|p: (String, String)| (p.0@, p.1@)),
                CACHE_LIMIT as nat,
            ),
    {
        let ghost pushed = sessions@.map_values(|p: (String, String)| (p.0@, p.1@));
        let mut lru = lru_new(CACHE_LIMIT);
        for p in it: sessions.into_iter()
            invariant
                it.seq() == sessions@,
                pushed == sessions@.map_values(|p: (String, String)| (p.0@, p.1@)),
                lru_cap(lru) == CACHE_LIMIT,
                keys_unique(lru_entries(lru)),
                lru_entries(lru).len() <= CACHE_LIMIT,
                lru_entries(lru) == lru_fill(pushed.take(it.index() as int), CACHE_LIMIT as nat),
        {
            let ghost i = it.index();
            assert(pushed.take(i + 1).drop_last() =~= pushed.take(i));
            let (user, session) = p;
            proof {
                lemma_lru_push_wf(lru_entries(lru), CACHE_LIMIT as nat, user@, session@);
            }
            lru_push_entry(&mut lru, user, session);
        }
        assert(pushed.take(pushed.len() as int) =~= pushed);
        Cache { last_user, user_to_last_sess: lru }
    }

    /// The last user to log in.
    pub fn get_last_user(&self) -> (r: Option<&str>)
        ensures
            match r {
                Some(u) => self.last_user_view() == Some(u@),
                None => self.last_user_view() is None,
            },
    {
        match &self.last_user {
            Some(u) => Some(u.as_str()),
            None => None,
        }
    }

    /// The last session of `user`, if it is remembered; it becomes the most
    /// recently used entry.
    pub fn get_last_session(&mut self, user: &str) -> (r: Option<String>)
        requires
            old(self).wf(),
        ensures
            final(self).wf(),
            keys_unique(final(self).sessions_view()),
            has_key(old(self).sessions_view(), user@) ==> (r matches Some(s) && s@ == old(
                self,
            ).sessions_view()[key_pos(old(self).sessions_view(), user@)].1),
            !has_key(old(self).sessions_view(), user@) ==> r is None,
            final(self).sessions_view() == lru_touch(old(self).sessions_view(), user@),
            final(self).last_user_view() == old(self).last_user_view(),
    {
        proof {
            lemma_lru_touch_wf(lru_entries(self.user_to_last_sess), user@);
        }
        lru_get(&mut self.user_to_last_sess, user)
    }

    /// Remember `user` as the last user to log in.
    pub fn set_last_user(&mut self, user: &str)
        requires
            old(self).wf(),
        ensures
            final(self).wf(),
            keys_unique(final(self).sessions_view()),
            final(self).last_user_view() == Some(user@),
            final(self).sessions_view() == old(self).sessions_view(),
    {
        self.last_user = Some(user.to_owned());
    }

    /// Remember `session` as the last session of `user`. Where `CACHE_LIMIT`
    /// users are remembered already, the least recently used one is dropped.
    pub fn set_last_session(&mut self, user: &str, session: &str)
        requires
            old(self).wf(),
        ensures
            final(self).wf(),
            keys_unique(final(self).sessions_view()),
            final(self).sessions_view() == lru_push(
                old(self).sessions_view(),
                CACHE_LIMIT as nat,
                user@,
                session@,
            ),
            has_key(final(self).sessions_view(), user@),
            final(self).sessions_view()[key_pos(final(self).sessions_view(), user@)].1 == session@,
            final(self).last_user_view() == old(self).last_user_view(),
    {
        proof {
            lemma_lru_push_then_lookup(lru_entries(self.user_to_last_sess), CACHE_LIMIT as nat, user@, session@);
            lemma_lru_push_wf(lru_entries(self.user_to_last_sess), CACHE_LIMIT as nat, user@, session@);
        }
        lru_push_entry(&mut self.user_to_last_sess, user.to_owned(), session.to_owned());
    }

    /// The user to last session entries, most recently used first.
    pub fn sessions(&self) -> (r: Vec<(String, String)>)
        ensures
            r@.map_values(|p: (String, String)| (p.0@, p.1@)) == self.sessions_view(),
    {
        lru_items(&self.user_to_last_sess)
    }
}

} // verus!
