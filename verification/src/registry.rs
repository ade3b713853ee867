//! The tray-icon membership registry: two deduplicated sets of bus names —
//! icon producers (`items`) and icon hosts (`hosts`) — with idempotent
//! registration, change-notification decisions, and pruning of items whose
//! bus name lost its owner.
//!
//! The registry decides; the transport-facing shell performs.  Each mutating
//! operation returns whether a notification signal is to be broadcast, and
//! the contract says exactly when that is.

use vstd::prelude::*;
use crate::text::str_eq;

verus! {

/// Character-sequence views of a list of strings.
pub open spec fn views(v: Seq<String>) -> Seq<Seq<char>> {
    v.map_values(|s: String| s@)
}

/// No name occurs twice.
pub open spec fn no_dup(m: Seq<Seq<char>>) -> bool {
    forall|i: int, j: int| 0 <= i < j < m.len() ==> m[i] != m[j]
}

/// Idempotent registration: the list unchanged when the name is already a
/// member, else the name appended.
pub open spec fn reg(m: Seq<Seq<char>>, s: Seq<char>) -> Seq<Seq<char>> {
    if m.contains(s) {
        m
    } else {
        m.push(s)
    }
}

/// Removal of the first occurrence of a name, if any.
pub open spec fn rm(m: Seq<Seq<char>>, s: Seq<char>) -> Seq<Seq<char>>
    decreases m.len(),
{
    if m.len() == 0 {
        m
    } else if m[0] == s {
        m.drop_first()
    } else {
        seq![m[0]] + rm(m.drop_first(), s)
    }
}

/// How often a name occurs in the list.
pub open spec fn occurrences(m: Seq<Seq<char>>, s: Seq<char>) -> nat
    decreases m.len(),
{
    if m.len() == 0 {
        0
    } else {
        (if m[0] == s {
            1nat
        } else {
            0nat
        }) + occurrences(m.drop_first(), s)
    }
}

/// A deduplicated list holds a name exactly once, any other name not at all.
pub proof fn lemma_occurrences_no_dup(m: Seq<Seq<char>>, s: Seq<char>)
    requires
        no_dup(m),
    ensures
        occurrences(m, s) == if m.contains(s) {
            1nat
        } else {
            0nat
        },
    decreases m.len(),
{
    if m.len() > 0 {
        let rest = m.drop_first();
        assert forall|i: int, j: int| 0 <= i < j < rest.len() implies rest[i] != rest[j] by {
            assert(rest[i] == m[i + 1]);
            assert(rest[j] == m[j + 1]);
        }
        lemma_occurrences_no_dup(rest, s);
        if m[0] == s {
            if rest.contains(s) {
                let k = choose|k: int| 0 <= k < rest.len() && rest[k] == s;
                assert(m[k + 1] == s);
                assert(false);
            }
        } else {
            if m.contains(s) {
                let k = choose|k: int| 0 <= k < m.len() && m[k] == s;
                assert(rest[k - 1] == s);
            }
            if rest.contains(s) {
                let k = choose|k: int| 0 <= k < rest.len() && rest[k] == s;
                assert(m[k + 1] == s);
            }
        }
    }
}

/// Registering a name leaves it a member exactly once, keeps the list
/// deduplicated, and registering it again changes nothing and raises no
/// further notification (a second registration never reports a new member).
pub proof fn lemma_register_idempotent(m: Seq<Seq<char>>, s: Seq<char>)
    requires
        no_dup(m),
    ensures
        reg(m, s).contains(s),
        no_dup(reg(m, s)),
        occurrences(reg(m, s), s) == 1,
        reg(reg(m, s), s) == reg(m, s),
    decreases m.len(),
{
    if m.contains(s) {
        lemma_occurrences_no_dup(m, s);
    } else {
        let p = m.push(s);
        assert(p[p.len() - 1] == s);
        assert(p.contains(s));
        assert forall|i: int, j: int| 0 <= i < j < p.len() implies p[i] != p[j] by {
            if j == p.len() - 1 {
                assert(p[i] == m[i]);
                if m[i] == s {
                    assert(m.contains(s));
                }
            } else {
                assert(p[i] == m[i]);
                assert(p[j] == m[j]);
            }
        }
        lemma_occurrences_no_dup(p, s);
    }
}

/// Removal of an absent name changes nothing.
pub proof fn lemma_rm_absent(m: Seq<Seq<char>>, s: Seq<char>)
    requires
        !m.contains(s),
    ensures
        rm(m, s) == m,
    decreases m.len(),
{
    if m.len() > 0 {
        assert(m[0] != s);
        let rest = m.drop_first();
        if rest.contains(s) {
            let k = choose|k: int| 0 <= k < rest.len() && rest[k] == s;
            assert(m[k + 1] == s);
        }
        lemma_rm_absent(rest, s);
        assert(seq![m[0]] + rest =~= m);
    }
}

/// Removing the first occurrence of a name from a deduplicated list leaves
/// a deduplicated list that no longer holds the name.
pub proof fn lemma_rm_no_dup(m: Seq<Seq<char>>, s: Seq<char>)
    requires
        no_dup(m),
    ensures
        no_dup(rm(m, s)),
        !rm(m, s).contains(s),
    decreases m.len(),
{
    if m.len() > 0 {
        let rest = m.drop_first();
        assert forall|i: int, j: int| 0 <= i < j < rest.len() implies rest[i] != rest[j] by {
            assert(rest[i] == m[i + 1]);
            assert(rest[j] == m[j + 1]);
        }
        if m[0] == s {
            if rest.contains(s) {
                let k = choose|k: int| 0 <= k < rest.len() && rest[k] == s;
                assert(m[k + 1] == s);
                assert(false);
            }
        } else {
            lemma_rm_no_dup(rest, s);
            let r = seq![m[0]] + rm(rest, s);
            assert forall|i: int, j: int| 0 <= i < j < r.len() implies r[i] != r[j] by {
                if i == 0 {
                    // r[j] is an element of rm(rest, s), which holds only
                    // elements of rest, none equal to m[0]
                    lemma_rm_membership(rest, s, r[j], j - 1);
                } else {
                    lemma_rm_pair(rest, s, i - 1, j - 1);
                }
            }
            if r.contains(s) {
                let k = choose|k: int| 0 <= k < r.len() && r[k] == s;
                if k > 0 {
                    lemma_rm_membership(rest, s, s, k - 1);
                }
            }
        }
    }
}

/// Each element of `rm(m, s)` at index `k` is an element of `m`.
proof fn lemma_rm_membership(m: Seq<Seq<char>>, s: Seq<char>, x: Seq<char>, k: int)
    requires
        0 <= k < rm(m, s).len(),
        rm(m, s)[k] == x,
    ensures
        m.contains(x),
    decreases m.len(),
{
    if m.len() > 0 {
        if m[0] == s {
            assert(m[k + 1] == x);
        } else {
            if k == 0 {
                assert(m[0] == x);
            } else {
                lemma_rm_membership(m.drop_first(), s, x, k - 1);
                let j = choose|j: int|
                    0 <= j < m.drop_first().len() && m.drop_first()[j] == x;
                assert(m[j + 1] == x);
            }
        }
    }
}

/// Two distinct positions of `rm(m, s)` come from two distinct positions of
/// `m`, so a deduplicated `m` keeps them distinct.
proof fn lemma_rm_pair(m: Seq<Seq<char>>, s: Seq<char>, i: int, j: int)
    requires
        no_dup(m),
        0 <= i < j < rm(m, s).len(),
    ensures
        rm(m, s)[i] != rm(m, s)[j],
    decreases m.len(),
{
    if m.len() > 0 {
        let rest = m.drop_first();
        assert forall|a: int, b: int| 0 <= a < b < rest.len() implies rest[a] != rest[b] by {
            assert(rest[a] == m[a + 1]);
            assert(rest[b] == m[b + 1]);
        }
        if m[0] == s {
            assert(rm(m, s)[i] == m[i + 1]);
            assert(rm(m, s)[j] == m[j + 1]);
        } else {
            if i == 0 {
                lemma_rm_membership(rest, s, rm(m, s)[j], j - 1);
                let k = choose|k: int| 0 <= k < rest.len() && rest[k] == rm(m, s)[j];
                assert(m[k + 1] == rm(m, s)[j]);
            } else {
                lemma_rm_pair(rest, s, i - 1, j - 1);
            }
        }
    }
}

/// Pruning a registered name removes it with exactly one notification: the
/// name is gone afterwards, and a second identical loss notification finds
/// nothing to remove and raises no further signal.
pub proof fn lemma_prune_once(m: Seq<Seq<char>>, x: Seq<char>)
    requires
        no_dup(m),
        m.contains(x),
    ensures
        !rm(m, x).contains(x),
        no_dup(rm(m, x)),
        rm(rm(m, x), x) == rm(m, x),
{
    lemma_rm_no_dup(m, x);
    lemma_rm_absent(rm(m, x), x);
}

/// Removing at the index of the first occurrence is what `rm` states.
proof fn lemma_rm_at_first_index(m: Seq<Seq<char>>, s: Seq<char>, i: int)
    requires
        0 <= i < m.len(),
        m[i] == s,
        forall|j: int| 0 <= j < i ==> m[j] != s,
    ensures
        rm(m, s) == m.remove(i),
    decreases i,
{
    if i == 0 {
        assert(rm(m, s) =~= m.remove(0));
    } else {
        let rest = m.drop_first();
        assert(rest[i - 1] == s);
        assert forall|j: int| 0 <= j < i - 1 implies rest[j] != s by {
            assert(rest[j] == m[j + 1]);
        }
        lemma_rm_at_first_index(rest, s, i - 1);
        assert(seq![m[0]] + rest.remove(i - 1) =~= m.remove(i));
    }
}

/// Index of the first list entry equal to `s`, if any.
fn find_name(v: &Vec<String>, s: &str) -> (r: Option<usize>)
    ensures
        match r {
            Some(i) => {
                &&& i < v@.len()
                &&& v@[i as int]@ == s@
                &&& forall|j: int| 0 <= j < i ==> v@[j]@ != s@
            },
            None => !views(v@).contains(s@),
        },
{
    let n = v.len();
    let mut i: usize = 0;
    while i < n
        invariant
            i <= n,
            n == v@.len(),
            forall|j: int| 0 <= j < i ==> v@[j]@ != s@,
        decreases n - i,
    {
        if str_eq(v[i].as_str(), s) {
            return Some(i);
        }
        i += 1;
    }
    proof {
        if views(v@).contains(s@) {
            let k = choose|k: int| 0 <= k < views(v@).len() && views(v@)[k] == s@;
            assert(v@[k]@ == s@);
        }
    }
    None
}

/// Whether the list holds `s`.
fn contains_name(v: &Vec<String>, s: &str) -> (r: bool)
    ensures
        r == views(v@).contains(s@),
{
    match find_name(v, s) {
        Some(i) => {
            proof {
                assert(views(v@)[i as int] == s@);
            }
            true
        },
        None => false,
    }
}

/// Mathematical view of a [`Watcher`].
#[verifier::ext_equal]
pub ghost struct RegistryModel {
    pub path: Seq<char>,
    pub items: Seq<Seq<char>>,
    pub hosts: Seq<Seq<char>>,
}

/// Both member lists are deduplicated: set semantics.
pub open spec fn registry_wf(m: RegistryModel) -> bool {
    no_dup(m.items) && no_dup(m.hosts)
}

/// The membership core of the tray-icon broker: the object path it is served
/// at, the registered icon producers, and the registered icon hosts.
///
/// Hosts are never pruned on ownership loss and have no unregister path;
/// that asymmetry is part of the observed protocol and is kept as is.
pub struct Watcher {
    path: String,
    items: Vec<String>,
    hosts: Vec<String>,
}

impl View for Watcher {
    type V = RegistryModel;

    closed spec fn view(&self) -> RegistryModel {
        RegistryModel { path: self.path@, items: views(self.items@), hosts: views(self.hosts@) }
    }
}

impl Watcher {
    /// An empty registry served at `path`.
    pub fn new(path: String) -> (r: Watcher)
        ensures
            r@.path == path@,
            r@.items == Seq::<Seq<char>>::empty(),
            r@.hosts == Seq::<Seq<char>>::empty(),
            registry_wf(r@),
    {
        let r = Watcher { path, items: Vec::new(), hosts: Vec::new() };
        proof {
            assert(r@.items =~= Seq::<Seq<char>>::empty());
            assert(r@.hosts =~= Seq::<Seq<char>>::empty());
        }
        r
    }

    /// The object path the watcher is served at.
    pub fn path(&self) -> (r: &String)
        ensures
            r@ == self@.path,
    {
        &self.path
    }

    /// Idempotent registration of an icon producer.  The result says whether
    /// the name was new, and so whether an item-registered signal is to be
    /// broadcast; re-registration reports success but raises no signal.
    #[allow(non_snake_case)]
    pub fn RegisterStatusNotifierItem(&mut self, service: &str) -> (notify: bool)
        requires
            registry_wf(old(self)@),
        ensures
            registry_wf(final(self)@),
            final(self)@.items == reg(old(self)@.items, service@),
            final(self)@.hosts == old(self)@.hosts,
            final(self)@.path == old(self)@.path,
            notify == !old(self)@.items.contains(service@),
    {
        let already = contains_name(&self.items, service);
        if !already {
            self.items.push(service.to_owned());
            proof {
                assert(views(self.items@) =~= reg(views(old(self).items@), service@));
                lemma_register_idempotent(views(old(self).items@), service@);
            }
            true
        } else {
            false
        }
    }

    /// Idempotent registration of an icon host, with the same notification
    /// decision: a signal only on first registration of that name.
    #[allow(non_snake_case)]
    pub fn RegisterStatusNotifierHost(&mut self, service: &str) -> (notify: bool)
        requires
            registry_wf(old(self)@),
        ensures
            registry_wf(final(self)@),
            final(self)@.hosts == reg(old(self)@.hosts, service@),
            final(self)@.items == old(self)@.items,
            final(self)@.path == old(self)@.path,
            notify == !old(self)@.hosts.contains(service@),
    {
        let already = contains_name(&self.hosts, service);
        if !already {
            self.hosts.push(service.to_owned());
            proof {
                assert(views(self.hosts@) =~= reg(views(old(self).hosts@), service@));
                lemma_register_idempotent(views(old(self).hosts@), service@);
            }
            true
        } else {
            false
        }
    }

    /// Snapshot copy of the registered item names.
    #[allow(non_snake_case)]
    pub fn RegisteredStatusNotifierItems(&self) -> (r: Vec<String>)
        ensures
            views(r@) == self@.items,
    {
        let n = self.items.len();
        let mut out: Vec<String> = Vec::new();
        let mut i: usize = 0;
        while i < n
            invariant
                i <= n,
                n == self.items@.len(),
                out@.len() == i,
                forall|k: int| 0 <= k < i ==> out@[k]@ == self.items@[k]@,
            decreases n - i,
        {
            out.push(self.items[i].as_str().to_owned());
            i += 1;
        }
        proof {
            assert forall|k: int| 0 <= k < views(out@).len() implies views(out@)[k] == views(
                self.items@,
            )[k] by {
                assert(views(out@)[k] == out@[k]@);
                assert(views(self.items@)[k] == self.items@[k]@);
            }
            assert(views(out@) =~= views(self.items@));
        }
        out
    }

    /// Whether at least one icon host is registered.
    #[allow(non_snake_case)]
    pub fn IsStatusNotifierHostRegistered(&self) -> (r: bool)
        ensures
            r == (self@.hosts.len() != 0),
    {
        self.hosts.len() != 0
    }

    /// Reaction to a bus-wide name-ownership-change notification.  When a
    /// name that had an owner gained no new one — its process disconnected —
    /// the name is removed from the items, and the result says whether it
    /// was in fact registered, and so whether an item-unregistered signal is
    /// to be broadcast.  Any other ownership change leaves the registry
    /// untouched.  Hosts are deliberately never pruned here.
    pub fn handle_name_owner_changed(
        &mut self,
        name: &str,
        old_owner_present: bool,
        new_owner_present: bool,
    ) -> (notify: bool)
        requires
            registry_wf(old(self)@),
        ensures
            registry_wf(final(self)@),
            final(self)@.hosts == old(self)@.hosts,
            final(self)@.path == old(self)@.path,
            old_owner_present && !new_owner_present ==> {
                &&& final(self)@.items == rm(old(self)@.items, name@)
                &&& notify == old(self)@.items.contains(name@)
            },
            !(old_owner_present && !new_owner_present) ==> {
                &&& final(self)@.items == old(self)@.items
                &&& !notify
            },
    {
        if old_owner_present && !new_owner_present {
            match find_name(&self.items, name) {
                Some(i) => {
                    self.items.remove(i);
                    proof {
                        let m = views(old(self).items@);
                        assert(m[i as int] == name@);
                        assert forall|j: int| 0 <= j < i implies m[j] != name@ by {
                            assert(m[j] == old(self).items@[j]@);
                        }
                        lemma_rm_at_first_index(m, name@, i as int);
                        assert(views(self.items@) =~= m.remove(i as int));
                        lemma_rm_no_dup(m, name@);
                        assert(m.contains(name@));
                    }
                    true
                },
                None => {
                    proof {
                        lemma_rm_absent(views(self.items@), name@);
                    }
                    false
                },
            }
        } else {
            false
        }
    }
}

} // verus!
