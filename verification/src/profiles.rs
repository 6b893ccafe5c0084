//! Connection profiles and the store that keeps them in order.
use vstd::prelude::*;

use crate::bindings::str_eq;

verus! {

/// One saved server configuration.
#[derive(Debug)]
pub struct Profile {
    pub id: String,
    pub name: String,
    pub server: String,
    pub server_name: String,
    pub secret: String,
    pub short_id: String,
    pub auth_user: String,
    pub auth_pass: String,
    pub listen: String,
    pub max_tls_parallel: usize,
    pub auth_time_offset_secs: i64,
}

impl Clone for Profile {
    fn clone(&self) -> (r: Self)
        ensures
            r == *self,
    {
        Profile {
            id: self.id.clone(),
            name: self.name.clone(),
            server: self.server.clone(),
            server_name: self.server_name.clone(),
            secret: self.secret.clone(),
            short_id: self.short_id.clone(),
            auth_user: self.auth_user.clone(),
            auth_pass: self.auth_pass.clone(),
            listen: self.listen.clone(),
            max_tls_parallel: self.max_tls_parallel,
            auth_time_offset_secs: self.auth_time_offset_secs,
        }
    }
}

/// The listen address a profile gets when it names none.
pub fn default_listen() -> (s: String)
    ensures
        s@ == "127.0.0.1:1080"@,
{
    String::from_str("127.0.0.1:1080")
}

/// The number of parallel TLS handshakes a profile allows when it names none.
pub fn default_max_tls() -> (n: usize)
    ensures
        n == 12,
{
    12
}

/// `i` is the first position in `s` whose profile has the id `id`.
pub open spec fn first_with_id(s: Seq<Profile>, id: Seq<char>, i: int) -> bool {
    &&& 0 <= i < s.len()
    &&& s[i].id@ == id
    &&& forall|j: int| 0 <= j < i ==> s[j].id@ != id
}

/// Some profile in `s` has the id `id`.
pub open spec fn has_id(s: Seq<Profile>, id: Seq<char>) -> bool {
    exists|i: int| 0 <= i < s.len() && s[i].id@ == id
}

/// The position of the first profile with the id `id` (meaningful when
/// `has_id(s, id)`).
pub open spec fn first_index(s: Seq<Profile>, id: Seq<char>) -> int {
    choose|i: int| first_with_id(s, id, i)
}

/// The profile that a lookup by `id` finds: the first one with that id.
pub open spec fn lookup(s: Seq<Profile>, id: Seq<char>) -> Option<Profile> {
    if has_id(s, id) {
        Some(s[first_index(s, id)])
    } else {
        None
    }
}

/// The profiles after an insert-or-replace of `p`: the first profile with
/// `p`'s id is replaced in place, or `p` is appended when there is none.
pub open spec fn upserted(s: Seq<Profile>, p: Profile) -> Seq<Profile> {
    if has_id(s, p.id@) {
        s.update(first_index(s, p.id@), p)
    } else {
        s.push(p)
    }
}

/// The profiles after removing every profile with the id `id`, the others
/// kept in order.
pub open spec fn removed(s: Seq<Profile>, id: Seq<char>) -> Seq<Profile> {
    s.filter(|p: Profile| p.id@ != id)
}

/// The first match exists whenever some profile has the id, and it is unique.
pub proof fn lemma_first_index(s: Seq<Profile>, id: Seq<char>)
    requires
        has_id(s, id),
    ensures
        first_with_id(s, id, first_index(s, id)),
        forall|i: int| first_with_id(s, id, i) ==> i == first_index(s, id),
    decreases s.len(),
{
    let k = choose|k: int| 0 <= k < s.len() && s[k].id@ == id;
    lemma_first_exists(s, id, k);
    let f = first_index(s, id);
    assert forall|i: int| first_with_id(s, id, i) implies i == f by {
        if i < f {
        } else if f < i {
        }
    }
}

proof fn lemma_first_exists(s: Seq<Profile>, id: Seq<char>, k: int)
    requires
        0 <= k < s.len(),
        s[k].id@ == id,
    ensures
        exists|i: int| first_with_id(s, id, i),
    decreases k,
{
    if exists|j: int| 0 <= j < k && s[j].id@ == id {
        let j = choose|j: int| 0 <= j < k && s[j].id@ == id;
        lemma_first_exists(s, id, j);
    } else {
        assert(first_with_id(s, id, k));
    }
}

/// No two profiles share an id.
pub open spec fn ids_distinct(s: Seq<Profile>) -> bool {
    forall|i: int, j: int| 0 <= i < j < s.len() ==> s[i].id@ != s[j].id@
}

proof fn lemma_lookup_at(s: Seq<Profile>, id: Seq<char>, i: int)
    requires
        first_with_id(s, id, i),
    ensures
        lookup(s, id) == Some(s[i]),
{
    lemma_first_index(s, id);
}

proof fn lemma_lookup_push(s: Seq<Profile>, x: Profile, id: Seq<char>)
    ensures
        lookup(s.push(x), id) == if has_id(s, id) {
            lookup(s, id)
        } else if x.id@ == id {
            Some(x)
        } else {
            None::<Profile>
        },
{
    let t = s.push(x);
    if has_id(s, id) {
        lemma_first_index(s, id);
        let f = first_index(s, id);
        assert(first_with_id(t, id, f));
        lemma_lookup_at(t, id, f);
    } else if x.id@ == id {
        assert(first_with_id(t, id, s.len() as int));
        lemma_lookup_at(t, id, s.len() as int);
    } else {
        assert(!has_id(t, id)) by {
            if has_id(t, id) {
                let k = choose|k: int| 0 <= k < t.len() && t[k].id@ == id;
                assert(t[k] == s[k]);
            }
        }
    }
}

/// After an insert-or-replace of `p`, looking up `p`'s id finds `p`.
pub proof fn lemma_upsert_then_get(s: Seq<Profile>, p: Profile)
    ensures
        lookup(upserted(s, p), p.id@) == Some(p),
{
    let id = p.id@;
    if has_id(s, id) {
        lemma_first_index(s, id);
        let f = first_index(s, id);
        let t = s.update(f, p);
        assert(first_with_id(t, id, f));
        lemma_lookup_at(t, id, f);
    } else {
        lemma_lookup_push(s, p, id);
    }
}

/// An insert-or-replace of `p` changes no lookup of another id.
pub proof fn lemma_upsert_keeps_others(s: Seq<Profile>, p: Profile, id: Seq<char>)
    requires
        id != p.id@,
    ensures
        lookup(upserted(s, p), id) == lookup(s, id),
{
    if has_id(s, p.id@) {
        lemma_first_index(s, p.id@);
        let f = first_index(s, p.id@);
        let t = s.update(f, p);
        if has_id(s, id) {
            lemma_first_index(s, id);
            let g = first_index(s, id);
            assert(first_with_id(t, id, g));
            lemma_lookup_at(t, id, g);
        } else {
            assert(!has_id(t, id)) by {
                if has_id(t, id) {
                    let k = choose|k: int| 0 <= k < t.len() && t[k].id@ == id;
                    assert(k != f);
                    assert(t[k] == s[k]);
                }
            }
        }
    } else {
        lemma_lookup_push(s, p, id);
    }
}

/// An insert-or-replace replaces in place when the id is present (the count
/// stays) and appends otherwise (the count grows by one).
pub proof fn lemma_upsert_len(s: Seq<Profile>, p: Profile)
    ensures
        has_id(s, p.id@) ==> upserted(s, p).len() == s.len(),
        !has_id(s, p.id@) ==> upserted(s, p).len() == s.len() + 1,
{
    if has_id(s, p.id@) {
        lemma_first_index(s, p.id@);
    }
}

proof fn lemma_removed_from(s: Seq<Profile>, id: Seq<char>)
    ensures
        forall|i: int|
            0 <= i < removed(s, id).len() ==> exists|k: int|
                0 <= k < s.len() && s[k] == #[trigger] removed(s, id)[i],
    decreases s.len(),
{
    if s.len() > 0 {
        let s0 = s.drop_last();
        let x = s.last();
        assert(s0.push(x) =~= s);
        lemma_removed_from(s0, id);
        lemma_removed_push(s0, x, id);
        let r0 = removed(s0, id);
        assert forall|i: int| 0 <= i < removed(s, id).len() implies exists|k: int|
            0 <= k < s.len() && s[k] == #[trigger] removed(s, id)[i] by {
            if i < r0.len() {
                assert(removed(s, id)[i] == r0[i]);
                let k = choose|k: int| 0 <= k < s0.len() && s0[k] == r0[i];
                assert(s[k] == s0[k]);
            } else {
                assert(s[s.len() - 1] == x);
            }
        }
    } else {
        reveal_with_fuel(Seq::<_>::filter, 1);
    }
}

/// An insert-or-replace keeps ids distinct.
pub proof fn lemma_upsert_keeps_ids_distinct(s: Seq<Profile>, p: Profile)
    requires
        ids_distinct(s),
    ensures
        ids_distinct(upserted(s, p)),
{
    let t = upserted(s, p);
    if has_id(s, p.id@) {
        lemma_first_index(s, p.id@);
        let f = first_index(s, p.id@);
        assert forall|i: int, j: int| 0 <= i < j < t.len() implies t[i].id@ != t[j].id@ by {
            if i == f {
                assert(s[i].id@ == p.id@);
            } else if j == f {
                assert(s[j].id@ == p.id@);
            }
        }
    } else {
        assert forall|i: int, j: int| 0 <= i < j < t.len() implies t[i].id@ != t[j].id@ by {
            if j == s.len() {
                assert(t[i] == s[i]);
            }
        }
    }
}

proof fn lemma_removed_push(s: Seq<Profile>, x: Profile, id: Seq<char>)
    ensures
        removed(s.push(x), id) == if x.id@ != id {
            removed(s, id).push(x)
        } else {
            removed(s, id)
        },
{
    reveal_with_fuel(Seq::<_>::filter, 1);
    assert(s.push(x).drop_last() =~= s);
}

/// After removing an id, looking it up finds nothing.
pub proof fn lemma_remove_then_get(s: Seq<Profile>, id: Seq<char>)
    ensures
        lookup(removed(s, id), id) is None,
    decreases s.len(),
{
    if s.len() > 0 {
        let s0 = s.drop_last();
        let x = s.last();
        assert(s0.push(x) =~= s);
        lemma_remove_then_get(s0, id);
        lemma_removed_push(s0, x, id);
        if x.id@ != id {
            lemma_lookup_push(removed(s0, id), x, id);
            assert(!has_id(removed(s0, id), id)) by {
                if has_id(removed(s0, id), id) {
                    lemma_first_index(removed(s0, id), id);
                }
            }
        }
    } else {
        reveal_with_fuel(Seq::<_>::filter, 1);
    }
}

/// Removing an id changes no lookup of another id.
pub proof fn lemma_remove_keeps_others(s: Seq<Profile>, id: Seq<char>, other: Seq<char>)
    requires
        other != id,
    ensures
        lookup(removed(s, id), other) == lookup(s, other),
    decreases s.len(),
{
    if s.len() > 0 {
        let s0 = s.drop_last();
        let x = s.last();
        assert(s0.push(x) =~= s);
        lemma_remove_keeps_others(s0, id, other);
        lemma_removed_push(s0, x, id);
        lemma_lookup_push(s0, x, other);
        let r0 = removed(s0, id);
        if x.id@ != id {
            lemma_lookup_push(r0, x, other);
        }
        assert(has_id(s0, other) <==> lookup(s0, other) is Some);
        assert(has_id(r0, other) <==> lookup(r0, other) is Some);
    } else {
        reveal_with_fuel(Seq::<_>::filter, 1);
        assert(removed(s, id) =~= s);
    }
}

/// Removing keeps ids distinct.
pub proof fn lemma_remove_keeps_ids_distinct(s: Seq<Profile>, id: Seq<char>)
    requires
        ids_distinct(s),
    ensures
        ids_distinct(removed(s, id)),
    decreases s.len(),
{
    if s.len() > 0 {
        let s0 = s.drop_last();
        let x = s.last();
        assert(s0.push(x) =~= s);
        lemma_remove_keeps_ids_distinct(s0, id);
        lemma_removed_push(s0, x, id);
        let r0 = removed(s0, id);
        if x.id@ != id {
            let r = r0.push(x);
            lemma_removed_from(s0, id);
            assert forall|i: int, j: int| 0 <= i < j < r.len() implies r[i].id@ != r[j].id@ by {
                if j == r0.len() {
                    assert(r0[i] == removed(s0, id)[i]);
                    let k = choose|k: int| 0 <= k < s0.len() && s0[k] == removed(s0, id)[i];
                    assert(s[k] == s0[k]);
                    assert(s[s.len() - 1] == x);
                }
            }
        }
    } else {
        reveal_with_fuel(Seq::<_>::filter, 1);
    }
}

/// The saved profiles, in the order they were added.
#[derive(Debug)]
pub struct ProfileStore {
    profiles: Vec<Profile>,
}

impl View for ProfileStore {
    type V = Seq<Profile>;

    closed spec fn view(&self) -> Seq<Profile> {
        self.profiles@
    }
}

impl Default for ProfileStore {
    fn default() -> (r: Self)
        ensures
            r@ == Seq::<Profile>::empty(),
    {
        ProfileStore { profiles: Vec::new() }
    }
}

impl ProfileStore {
    /// A store holding `profiles` in the given order.
    pub fn from_profiles(profiles: Vec<Profile>) -> (r: Self)
        ensures
            r@ == profiles@,
    {
        ProfileStore { profiles }
    }

    /// All profiles, in order.
    pub fn list(&self) -> (r: Vec<Profile>)
        ensures
            r@ == self@,
    {
        let r = self.profiles.clone();
        assert(r@ =~= self@);
        r
    }

    /// The first profile whose id is `id`, if any.
    pub fn get(&self, id: &str) -> (r: Option<&Profile>)
        ensures
            match r {
                Some(p) => lookup(self@, id@) == Some(*p),
                None => lookup(self@, id@) is None,
            },
    {
        let mut i: usize = 0;
        while i < self.profiles.len()
            invariant
                i <= self@.len(),
                self@ == self.profiles@,
                forall|j: int| 0 <= j < i ==> self@[j].id@ != id@,
            decreases self@.len() - i,
        {
            if str_eq(self.profiles[i].id.as_str(), id) {
                proof {
                    assert(first_with_id(self@, id@, i as int));
                    lemma_first_index(self@, id@);
                }
                return Some(&self.profiles[i]);
            }
            i = i + 1;
        }
        None
    }

    /// Replaces the first profile with `profile`'s id by `profile`, or
    /// appends `profile` when no profile has that id.
    pub fn upsert(&mut self, profile: Profile)
        ensures
            final(self)@ == upserted(old(self)@, profile),
    {
        let mut i: usize = 0;
        while i < self.profiles.len()
            invariant
                i <= self@.len(),
                self@ == old(self)@,
                self@ == self.profiles@,
                forall|j: int| 0 <= j < i ==> self@[j].id@ != profile.id@,
            decreases self@.len() - i,
        {
            if self.profiles[i].id == profile.id {
                proof {
                    assert(first_with_id(self@, profile.id@, i as int));
                    lemma_first_index(self@, profile.id@);
                }
                self.profiles.set(i, profile);
                return ;
            }
            i = i + 1;
        }
        self.profiles.push(profile);
    }

    /// Removes every profile whose id is `id`, keeping the others in order.
    pub fn remove(&mut self, id: &str)
        ensures
            final(self)@ == removed(old(self)@, id@),
    {
        let ghost pred = |p: Profile| p.id@ != id@;
        let ghost orig = self@;
        let mut i: usize = 0;
        let ghost mut k: int = 0;
        while i < self.profiles.len()
            invariant
                self@ == self.profiles@,
                orig == old(self)@,
                0 <= i <= self@.len(),
                0 <= k <= orig.len(),
                self@.len() - i == orig.len() - k,
                pred == (|p: Profile| p.id@ != id@),
                self@.subrange(0, i as int) == orig.subrange(0, k).filter(pred),
                self@.subrange(i as int, self@.len() as int) == orig.subrange(k, orig.len() as int),
            decreases self@.len() - i,
        {
            proof {
                reveal_with_fuel(Seq::<_>::filter, 1);
                assert(orig.subrange(0, k + 1).drop_last() =~= orig.subrange(0, k));
                assert(self@[i as int] == orig.subrange(k, orig.len() as int)[0]);
            }
            if str_eq(self.profiles[i].id.as_str(), id) {
                let ghost before = self@;
                self.profiles.remove(i);
                proof {
                    assert(self@.subrange(0, i as int) =~= before.subrange(0, i as int));
                    assert forall|j: int| 0 <= j < self@.len() - i implies #[trigger] self@.subrange(
                        i as int,
                        self@.len() as int,
                    )[j] == orig.subrange(k + 1, orig.len() as int)[j] by {
                        assert(before.subrange(i as int, before.len() as int)[j + 1] == orig.subrange(
                            k,
                            orig.len() as int,
                        )[j + 1]);
                    }
                    assert(self@.subrange(i as int, self@.len() as int) =~= orig.subrange(
                        k + 1,
                        orig.len() as int,
                    ));
                    k = k + 1;
                }
            } else {
                proof {
                    assert(self@.subrange(0, i + 1) =~= self@.subrange(0, i as int).push(
                        self@[i as int],
                    ));
                    assert forall|j: int| 0 <= j < self@.len() - i - 1 implies #[trigger] self@.subrange(
                        i + 1,
                        self@.len() as int,
                    )[j] == orig.subrange(k + 1, orig.len() as int)[j] by {
                        assert(self@.subrange(i as int, self@.len() as int)[j + 1] == orig.subrange(
                            k,
                            orig.len() as int,
                        )[j + 1]);
                    }
                    assert(self@.subrange(i + 1, self@.len() as int) =~= orig.subrange(
                        k + 1,
                        orig.len() as int,
                    ));
                    k = k + 1;
                }
                i = i + 1;
            }
        }
        proof {
            assert(k == orig.len());
            assert(orig.subrange(0, k) =~= orig);
            assert(self@.subrange(0, i as int) =~= self@);
        }
    }
}

} // verus!
