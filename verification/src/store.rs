//! The profile store: an in-memory model of the profile directory, one
//! entry per profile file, keyed by the profile name.

use vstd::prelude::*;
use crate::errors::AppError;
use crate::text::{valid_name, is_valid_name, str_eq_chars};

verus! {

/// A named VPN configuration blob, one file in the profile directory.
#[derive(Debug, Clone)]
pub struct Profile {
    pub name: String,
    pub content: String,
}

/// The fields a caller supplies to create or update a profile.
#[derive(Debug, Clone)]
pub struct ProfilePartial {
    pub name: String,
    pub content: String,
}

/// The set of profiles, unique by name.
#[derive(Debug)]
pub struct Store {
    pub profiles: Vec<Profile>,
}

impl Store {
    /// The profile names, in storage order.
    pub open spec fn names(self) -> Seq<Seq<char>> {
        self.profiles@.map_values(|p: Profile| p.name@)
    }

    /// Names are unique.
    pub open spec fn wf(self) -> bool {
        forall|i: int, j: int|
            0 <= i < j < self.names().len() ==> self.names()[i] != self.names()[j]
    }

    /// Whether a profile with this name exists.
    pub open spec fn has(self, name: Seq<char>) -> bool {
        self.names().contains(name)
    }

    /// The storage index of the profile with this name.
    pub open spec fn idx_of(self, name: Seq<char>) -> int {
        choose|i: int| 0 <= i < self.names().len() && self.names()[i] == name
    }

    /// The content of the profile with this name.
    pub open spec fn content_of(self, name: Seq<char>) -> Seq<char> {
        self.profiles@[self.idx_of(name)].content@
    }

    /// An empty store.
    pub fn new_empty() -> (s: Store)
        ensures
            s.wf(),
            s.names() == Seq::<Seq<char>>::empty(),
            forall|n: Seq<char>| !s.has(n),
    {
        let s = Store { profiles: Vec::new() };
        proof {
            assert(s.names() =~= Seq::<Seq<char>>::empty());
        }
        s
    }

    /// Finds the index of the profile named `name`.
    fn find_idx(&self, name: &str) -> (r: Option<usize>)
        requires
            self.wf(),
        ensures
            (match r {
                Option::Some(k) => k < self.profiles@.len()
                    && self.profiles@[k as int].name@ == name@ && self.has(name@) && k
                    == self.idx_of(name@),
                Option::None => !self.has(name@),
            }),
    {
        let n = self.profiles.len();
        let mut k: usize = 0;
        while k < n
            invariant
                self.wf(),
                n == self.profiles@.len(),
                k <= n,
                forall|j: int| 0 <= j < k ==> self.names()[j] != name@,
            decreases n - k,
        {
            if str_eq_chars(self.profiles[k].name.as_str(), name) {
                proof {
                    assert(self.names()[k as int] == name@);
                    let i = self.idx_of(name@);
                    assert(0 <= i < self.names().len() && self.names()[i] == name@);
                    assert(i == k as int);
                }
                return Some(k);
            }
            k += 1;
        }
        proof {
            assert(forall|j: int|
                0 <= j < self.names().len() ==> self.names()[j] != name@);
        }
        None
    }

    /// Whether a profile named `name` exists.
    pub fn exists_name(&self, name: &str) -> (b: bool)
        requires
            self.wf(),
        ensures
            b == self.has(name@),
    {
        self.find_idx(name).is_some()
    }

    /// A copy of every profile, in storage order.
    pub fn list_all(&self) -> (r: Vec<Profile>)
        ensures
            r@ == self.profiles@,
    {
        let n = self.profiles.len();
        let mut out: Vec<Profile> = Vec::new();
        let mut k: usize = 0;
        while k < n
            invariant
                n == self.profiles@.len(),
                k <= n,
                out@ == self.profiles@.take(k as int),
            decreases n - k,
        {
            let p = Profile {
                name: self.profiles[k].name.clone(),
                content: self.profiles[k].content.clone(),
            };
            proof {
                assert(p == self.profiles@[k as int]);
            }
            out.push(p);
            proof {
                assert(out@ =~= self.profiles@.take(k as int + 1));
            }
            k += 1;
        }
        proof {
            assert(self.profiles@.take(n as int) =~= self.profiles@);
        }
        out
    }

    /// Creating a profile rejects non-alphanumeric names, rejects a
    /// name that is already taken, and otherwise records the content
    /// verbatim; nothing else changes.
    pub fn create(&mut self, new_profile: ProfilePartial) -> (r: Result<(), AppError>)
        requires
            old(self).wf(),
        ensures
            final(self).wf(),
            create_post(*old(self), new_profile.name@, new_profile.content@, *final(self), r),
    {
        if !is_valid_name(new_profile.name.as_str()) {
            return Err(AppError::InvalidName);
        }
        if self.exists_name(new_profile.name.as_str()) {
            return Err(AppError::AlreadyExists);
        }
        let p = Profile { name: new_profile.name, content: new_profile.content };
        let ghost pre = *self;
        self.profiles.push(p);
        proof {
            lemma_push_preserves(pre, *self, p);
        }
        Ok(())
    }

    /// Replaces the content of an existing profile; a missing profile
    /// is `NotFound` and nothing changes.
    pub fn set_content(&mut self, name: &str, content: String) -> (r: Result<(), AppError>)
        requires
            old(self).wf(),
        ensures
            final(self).wf(),
            set_content_post(*old(self), name@, content@, *final(self), r),
    {
        let found = self.find_idx(name);
        match found {
            None => Err(AppError::NotFound),
            Some(k) => {
                let ghost pre = *self;
                let mut p = self.profiles.remove(k);
                p.content = content;
                self.profiles.insert(k, p);
                proof {
                    assert(self.profiles@ =~= pre.profiles@.update(k as int, p));
                    lemma_update_preserves(pre, *self, k as int, p);
                }
                Ok(())
            },
        }
    }

    /// Appends a profile under a name that is not yet taken.
    pub fn insert_fresh(&mut self, name: String, content: String)
        requires
            old(self).wf(),
            !old(self).has(name@),
        ensures
            final(self).wf(),
            final(self).names() == old(self).names().push(name@),
            final(self).has(name@),
            final(self).content_of(name@) == content@,
            forall|n: Seq<char>| n != name@ ==> #[trigger] final(self).has(n) == old(self).has(n),
            forall|n: Seq<char>|
                old(self).has(n) ==> #[trigger] final(self).content_of(n) == old(
                    self,
                ).content_of(n),
    {
        let ghost pre = *self;
        let p = Profile { name, content };
        self.profiles.push(p);
        proof {
            lemma_push_preserves(pre, *self, p);
        }
    }

    /// Builds a store from a directory listing, keeping the first
    /// profile seen for each name.
    pub fn load(profiles: Vec<Profile>) -> (s: Store)
        ensures
            s.wf(),
            forall|n: Seq<char>|
                #[trigger] s.has(n) <==> (exists|i: int|
                    0 <= i < profiles@.len() && profiles@[i].name@ == n),
            forall|i: int|
                0 <= i < profiles@.len() && first_occ(profiles@, i) ==> s.has(
                    profiles@[i].name@,
                ) && s.content_of(profiles@[i].name@) == profiles@[i].content@,
    {
        let n = profiles.len();
        let mut s = Store::new_empty();
        let mut k: usize = 0;
        while k < n
            invariant
                n == profiles@.len(),
                k <= n,
                s.wf(),
                forall|m: Seq<char>|
                    #[trigger] s.has(m) <==> (exists|i: int|
                        0 <= i < k && profiles@[i].name@ == m),
                forall|i: int|
                    0 <= i < k && first_occ(profiles@, i) ==> s.has(profiles@[i].name@)
                        && s.content_of(profiles@[i].name@) == profiles@[i].content@,
            decreases n - k,
        {
            let nm = profiles[k].name.clone();
            if !s.exists_name(nm.as_str()) {
                proof {
                    assert(forall|j: int| 0 <= j < k ==> profiles@[j].name@ != nm@);
                    assert(first_occ(profiles@, k as int));
                }
                s.insert_fresh(nm, profiles[k].content.clone());
                proof {
                    assert(s.content_of(profiles@[k as int].name@) == profiles@[
                        k as int].content@);
                }
            } else {
                proof {
                    assert(exists|i: int| 0 <= i < k && profiles@[i].name@ == nm@);
                }
            }
            k += 1;
        }
        s
    }

    /// Removes the profile with this name if it exists; a missing
    /// profile is not an error.
    pub fn remove_name(&mut self, name: &str) -> (r: bool)
        requires
            old(self).wf(),
        ensures
            final(self).wf(),
            remove_post(*old(self), name@, *final(self)),
            r == old(self).has(name@),
    {
        let found = self.find_idx(name);
        match found {
            None => false,
            Some(k) => {
                let ghost pre = *self;
                self.profiles.remove(k);
                proof {
                    lemma_remove_preserves(pre, *self, k as int);
                }
                true
            },
        }
    }
}

/// Whether position `i` is the first occurrence of its name in a
/// directory listing.
pub open spec fn first_occ(ps: Seq<Profile>, i: int) -> bool {
    forall|j: int| 0 <= j < i ==> ps[j].name@ != ps[i].name@
}

/// Exactly what `create` does: the error cases change nothing, the
/// success case appends the profile.
pub open spec fn create_post(
    pre: Store,
    name: Seq<char>,
    content: Seq<char>,
    post: Store,
    r: Result<(), AppError>,
) -> bool {
    &&& (!valid_name(name) ==> r == Result::<(), AppError>::Err(AppError::InvalidName) && post
        == pre)
    &&& (valid_name(name) && pre.has(name) ==> r == Result::<(), AppError>::Err(
        AppError::AlreadyExists,
    ) && post == pre)
    &&& (valid_name(name) && !pre.has(name) ==> {
        &&& r is Ok
        &&& post.names() == pre.names().push(name)
        &&& post.has(name)
        &&& post.content_of(name) == content
        &&& (forall|n: Seq<char>| n != name ==> #[trigger] post.has(n) == pre.has(n))
        &&& (forall|n: Seq<char>|
            pre.has(n) ==> #[trigger] post.content_of(n) == pre.content_of(n))
    })
}

/// Exactly what `set_content` does: `NotFound` changes nothing, the
/// success case replaces one content and keeps every name.
pub open spec fn set_content_post(
    pre: Store,
    name: Seq<char>,
    content: Seq<char>,
    post: Store,
    r: Result<(), AppError>,
) -> bool {
    &&& (!pre.has(name) ==> r == Result::<(), AppError>::Err(AppError::NotFound) && post == pre)
    &&& (pre.has(name) ==> {
        &&& r is Ok
        &&& post.names() == pre.names()
        &&& post.content_of(name) == content
        &&& (forall|n: Seq<char>| #[trigger] post.has(n) == pre.has(n))
        &&& (forall|n: Seq<char>|
            pre.has(n) && n != name ==> #[trigger] post.content_of(n) == pre.content_of(n))
    })
}

/// Exactly what `remove_name` does: the named profile is gone, every
/// other profile is untouched.
pub open spec fn remove_post(pre: Store, name: Seq<char>, post: Store) -> bool {
    &&& (!pre.has(name) ==> post == pre)
    &&& !post.has(name)
    &&& (forall|n: Seq<char>| n != name ==> #[trigger] post.has(n) == pre.has(n))
    &&& (forall|n: Seq<char>|
        pre.has(n) && n != name ==> #[trigger] post.content_of(n) == pre.content_of(n))
}

/// Appending a profile with a fresh name keeps the store well formed
/// and preserves every other entry.
proof fn lemma_push_preserves(pre: Store, post: Store, p: Profile)
    requires
        pre.wf(),
        !pre.has(p.name@),
        post.profiles@ == pre.profiles@.push(p),
    ensures
        post.wf(),
        post.names() == pre.names().push(p.name@),
        post.has(p.name@),
        post.content_of(p.name@) == p.content@,
        forall|n: Seq<char>| n != p.name@ ==> #[trigger] post.has(n) == pre.has(n),
        forall|n: Seq<char>| pre.has(n) ==> #[trigger] post.content_of(n) == pre.content_of(n),
{
    let m = pre.names().len();
    assert(post.names() =~= pre.names().push(p.name@));
    assert(forall|i: int| 0 <= i < m ==> post.names()[i] == pre.names()[i]);
    assert(post.names()[m as int] == p.name@);
    assert forall|i: int, j: int| 0 <= i < j < post.names().len() implies post.names()[i]
        != post.names()[j] by {
        if j < m {
        } else {
            assert(j == m);
            if post.names()[i] == p.name@ {
                assert(pre.names()[i] == p.name@);
                assert(pre.has(p.name@));
            }
        }
    }
    assert(post.has(p.name@));
    let w = post.idx_of(p.name@);
    assert(0 <= w < post.names().len() && post.names()[w] == p.name@) by {
        assert(post.names()[m as int] == p.name@);
    }
    if w < m {
        assert(pre.names()[w] == p.name@);
        assert(pre.has(p.name@));
    }
    assert(w == m);
    assert(post.content_of(p.name@) == p.content@);
    assert forall|n: Seq<char>| n != p.name@ implies #[trigger] post.has(n) == pre.has(n) by {
        if post.has(n) {
            let i = choose|i: int| 0 <= i < post.names().len() && post.names()[i] == n;
            assert(i < m);
            assert(pre.names()[i] == n);
        }
        if pre.has(n) {
            let i = choose|i: int| 0 <= i < pre.names().len() && pre.names()[i] == n;
            assert(post.names()[i] == n);
        }
    }
    assert forall|n: Seq<char>| pre.has(n) implies #[trigger] post.content_of(n)
        == pre.content_of(n) by {
        assert(n != p.name@);
        let i = pre.idx_of(n);
        assert(0 <= i < m && pre.names()[i] == n);
        assert(post.names()[i] == n);
        assert(post.has(n));
        let k = post.idx_of(n);
        assert(0 <= k < post.names().len() && post.names()[k] == n);
        assert(k < m);
        assert(k == i);
    }
}

/// Replacing the entry at the index of an existing name, keeping the
/// name, preserves well-formedness and every other entry.
proof fn lemma_update_preserves(pre: Store, post: Store, k: int, p: Profile)
    requires
        pre.wf(),
        0 <= k < pre.names().len(),
        p.name@ == pre.names()[k],
        post.profiles@ == pre.profiles@.update(k, p),
    ensures
        post.wf(),
        post.names() == pre.names(),
        post.content_of(p.name@) == p.content@,
        forall|n: Seq<char>| #[trigger] post.has(n) == pre.has(n),
        forall|n: Seq<char>|
            pre.has(n) && n != p.name@ ==> #[trigger] post.content_of(n) == pre.content_of(n),
{
    assert(post.names() =~= pre.names());
    assert(post.has(p.name@));
    let w = post.idx_of(p.name@);
    assert(0 <= w < post.names().len() && post.names()[w] == p.name@) by {
        assert(post.names()[k] == p.name@);
    }
    assert(w == k);
    assert(post.content_of(p.name@) == p.content@);
    assert forall|n: Seq<char>|
        pre.has(n) && n != p.name@ implies #[trigger] post.content_of(n) == pre.content_of(
        n,
    ) by {
        let i = pre.idx_of(n);
        assert(0 <= i < pre.names().len() && pre.names()[i] == n);
        let j = post.idx_of(n);
        assert(0 <= j < post.names().len() && post.names()[j] == n) by {
            assert(post.names()[i] == n);
        }
        assert(j == i);
        assert(i != k);
    }
}

/// Removing one entry keeps the store well formed and preserves every
/// other entry.
proof fn lemma_remove_preserves(pre: Store, post: Store, k: int)
    requires
        pre.wf(),
        0 <= k < pre.names().len(),
        post.profiles@ == pre.profiles@.remove(k),
    ensures
        post.wf(),
        !post.has(pre.names()[k]),
        forall|n: Seq<char>| n != pre.names()[k] ==> #[trigger] post.has(n) == pre.has(n),
        forall|n: Seq<char>|
            pre.has(n) && n != pre.names()[k] ==> #[trigger] post.content_of(n)
                == pre.content_of(n),
{
    let name = pre.names()[k];
    assert(post.names() =~= pre.names().remove(k));
    assert(forall|i: int| 0 <= i < k ==> post.names()[i] == pre.names()[i]);
    assert(forall|i: int|
        k <= i < post.names().len() ==> post.names()[i] == pre.names()[i + 1]);
    assert forall|i: int, j: int| 0 <= i < j < post.names().len() implies post.names()[i]
        != post.names()[j] by {}
    if post.has(name) {
        let i = choose|i: int| 0 <= i < post.names().len() && post.names()[i] == name;
        if i < k {
            assert(pre.names()[i] == name && pre.names()[k] == name);
        } else {
            assert(pre.names()[i + 1] == name && pre.names()[k] == name);
        }
    }
    assert forall|n: Seq<char>| n != name implies #[trigger] post.has(n) == pre.has(n) by {
        if post.has(n) {
            let i = choose|i: int| 0 <= i < post.names().len() && post.names()[i] == n;
            if i < k {
                assert(pre.names()[i] == n);
            } else {
                assert(pre.names()[i + 1] == n);
            }
        }
        if pre.has(n) {
            let i = choose|i: int| 0 <= i < pre.names().len() && pre.names()[i] == n;
            assert(i != k);
            if i < k {
                assert(post.names()[i] == n);
            } else {
                assert(post.names()[i - 1] == n);
            }
        }
    }
    assert forall|n: Seq<char>|
        pre.has(n) && n != name implies #[trigger] post.content_of(n) == pre.content_of(n) by {
        let i = pre.idx_of(n);
        assert(0 <= i < pre.names().len() && pre.names()[i] == n);
        assert(i != k);
        let pi = if i < k {
            i
        } else {
            i - 1
        };
        assert(post.names()[pi] == n);
        assert(post.has(n));
        let j = post.idx_of(n);
        assert(0 <= j < post.names().len() && post.names()[j] == n);
        assert(j == pi);
        assert(post.profiles@[pi] == pre.profiles@[i]);
    }
}

} // verus!
