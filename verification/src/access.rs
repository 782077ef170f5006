//! Access control of the bot: a whitelist of users and a public or
//! private mode.
//!
//! - `Public`: anyone may transcribe.
//! - `Private`: only whitelisted users may transcribe.
//! - Any whitelisted user may allow, deny and change the mode.
use std::collections::HashSet;

use vstd::prelude::*;

use crate::text::{
    chars_eq_str, chars_of, lower_ascii_seq, lower_ascii_vec, nonblank_trimmed, parse_i64,
    parse_i64_spec, split_on, split_vec, string_of, strip_vec, trim, trim_nonblank, views, Strip,
};

verus! {

broadcast use vstd::std_specs::hash::group_hash_axioms;

/// Who may transcribe.
#[derive(Debug, Clone, Copy, PartialEq, Eq, Hash)]
pub enum AccessMode {
    Public,
    Private,
}

impl Default for AccessMode {
    fn default() -> (r: Self)
        ensures
            r == AccessMode::Public,
    {
        AccessMode::Public
    }
}

/// The mode that the text `s` names, read trimmed and in any ASCII case.
pub open spec fn mode_of_name(s: Seq<char>) -> Option<AccessMode> {
    let n = lower_ascii_seq(trim(s));
    if n == "public"@ {
        Some(AccessMode::Public)
    } else if n == "private"@ {
        Some(AccessMode::Private)
    } else {
        None
    }
}

impl AccessMode {
    /// Reads a mode name, trimmed and in any ASCII case.
    pub fn parse(s: &str) -> (r: Result<Self, &'static str>)
        ensures
            match mode_of_name(s@) {
                Some(m) => r == Ok::<Self, &'static str>(m),
                None => r matches Err(e) && e@ == "debe ser public o private"@,
            },
    {
        let v = chars_of(s);
        let t = strip_vec(&v, Strip::Whitespace);
        let n = lower_ascii_vec(&t);
        if chars_eq_str(&n, "public") {
            Ok(AccessMode::Public)
        } else if chars_eq_str(&n, "private") {
            Ok(AccessMode::Private)
        } else {
            Err("debe ser public o private")
        }
    }

    /// The name of the mode.
    pub fn name(&self) -> (r: &'static str)
        ensures
            r@ == match self {
                AccessMode::Public => "public"@,
                AccessMode::Private => "private"@,
            },
    {
        match self {
            AccessMode::Public => "public",
            AccessMode::Private => "private",
        }
    }
}

impl core::str::FromStr for AccessMode {
    type Err = &'static str;

    fn from_str(s: &str) -> (r: Result<Self, &'static str>)
        ensures
            match mode_of_name(s@) {
                Some(m) => r == Ok::<Self, &'static str>(m),
                None => r matches Err(e) && e@ == "debe ser public o private"@,
            },
    {
        Self::parse(s)
    }
}

/// The persisted form of the access state: the mode and the users in
/// ascending order.
#[derive(Debug, Clone)]
pub struct PersistedAccess {
    pub mode: AccessMode,
    pub users: Vec<i64>,
}

/// Whether `v` is in strictly ascending order.
pub open spec fn strictly_ascending(v: Seq<i64>) -> bool {
    forall|i: int, j: int| 0 <= i < j < v.len() ==> v[i] < v[j]
}

/// The ids that a seed text lists: its comma-separated pieces, trimmed,
/// without empty ones, keeping those that read as an `i64`.
pub open spec fn seed_ids(s: Seq<char>) -> Seq<i64> {
    parsed_ids(nonblank_trimmed(split_on(s, ',')))
}

/// The pieces that read as an `i64`, read.
pub open spec fn parsed_ids(ps: Seq<Seq<char>>) -> Seq<i64>
    decreases ps.len(),
{
    if ps.len() == 0 {
        seq![]
    } else {
        let r = parsed_ids(ps.drop_last());
        match parse_i64_spec(ps.last()) {
            Some(v) => r.push(v),
            None => r,
        }
    }
}

/// The mode of a persisted state; public when there is none.
pub open spec fn restored_mode(p: Option<PersistedAccess>) -> AccessMode {
    match p {
        Some(p) => p.mode,
        None => AccessMode::Public,
    }
}

/// The users of a persisted state; none when there is none.
pub open spec fn restored_users(p: Option<PersistedAccess>) -> Set<i64> {
    match p {
        Some(p) => p.users@.to_set(),
        None => Set::empty(),
    }
}

/// The ids that an optional seed lists.
pub open spec fn seed_list(seed: Option<&str>) -> Seq<i64> {
    match seed {
        Some(s) => seed_ids(s@),
        None => Seq::empty(),
    }
}

/// The access state: mode and whitelist.
#[derive(Debug)]
pub struct AccessControl {
    mode: AccessMode,
    users: HashSet<i64>,
}

impl View for AccessControl {
    type V = (AccessMode, Set<i64>);

    closed spec fn view(&self) -> (AccessMode, Set<i64>) {
        (self.mode, self.users@)
    }
}

/// Calls `HashSet::iter` and copies the items out: each user once, in the
/// set's iteration order, which is left unstated.
#[verifier::external_body]
fn set_items(s: &HashSet<i64>) -> (r: Vec<i64>)
    ensures
        r@.to_set() == s@,
        r@.no_duplicates(),
{
    s.iter().copied().collect()
}

/// Inserts `x` into the ascending vector `v`, unless it is there.
fn insert_sorted(v: &mut Vec<i64>, x: i64)
    requires
        strictly_ascending(old(v)@),
    ensures
        strictly_ascending(final(v)@),
        forall|y: i64| final(v)@.contains(y) <==> (old(v)@.contains(y) || y == x),
{
    let mut pos: usize = 0;
    while pos < v.len() && v[pos] < x
        invariant
            pos <= v.len(),
            forall|j: int| 0 <= j < pos ==> v@[j] < x,
        decreases v.len() - pos,
    {
        pos = pos + 1;
    }
    if pos < v.len() && v[pos] == x {
        assert(v@[pos as int] == x);
        assert(v@.contains(x));
        return;
    }
    let ghost before = v@;
    v.insert(pos, x);
    proof {
        assert(v@ == before.subrange(0, pos as int).push(x) + before.subrange(
            pos as int,
            before.len() as int,
        ));
        assert forall|j: int| pos < j < v@.len() implies v@[j] > x by {
            assert(v@[j] == before[j - 1]);
            assert(before[pos as int] >= x);
            assert(before[pos as int] != x);
            if j - 1 > pos {
                assert(before[pos as int] < before[j - 1]);
            }
        }
        assert forall|i: int, j: int| 0 <= i < j < v@.len() implies v@[i] < v@[j] by {
            if j < pos {
                assert(v@[i] == before[i] && v@[j] == before[j]);
            } else if j == pos {
                assert(v@[i] == before[i]);
            } else if i < pos {
                assert(v@[i] == before[i]);
            } else if i == pos {
            } else {
                assert(v@[i] == before[i - 1] && v@[j] == before[j - 1]);
            }
        }
        assert forall|y: i64| v@.contains(y) <==> (before.contains(y) || y == x) by {
            if v@.contains(y) {
                let k = choose|k: int| 0 <= k < v@.len() && v@[k] == y;
                if k < pos {
                    assert(before[k] == y);
                } else if k > pos {
                    assert(before[k - 1] == y);
                }
            }
            if before.contains(y) {
                let k = choose|k: int| 0 <= k < before.len() && before[k] == y;
                if k < pos {
                    assert(v@[k] == y);
                } else {
                    assert(v@[k + 1] == y);
                }
            }
            if y == x {
                assert(v@[pos as int] == x);
            }
        }
        assert(before == old(v)@);
        assert(forall|y: i64| v@.contains(y) <==> (old(v)@.contains(y) || y == x));
    }
}

impl AccessControl {
    /// A public state with no users.
    pub fn new() -> (r: Self)
        ensures
            r@ == (AccessMode::Public, Set::<i64>::empty()),
    {
        AccessControl { mode: AccessMode::Public, users: HashSet::new() }
    }

    /// Rebuilds the state from its persisted form (or a public state with
    /// no users when there is none) and adds the ids that `seed` lists.
    /// The flag tells whether the seed added a user, in which case the
    /// state is to be persisted again.
    pub fn restore(persisted: Option<PersistedAccess>, seed: Option<&str>) -> (r: (Self, bool))
        ensures
            r.0@.0 == restored_mode(persisted),
            r.0@.1 == restored_users(persisted).union(seed_list(seed).to_set()),
            r.1 == !seed_list(seed).to_set().subset_of(restored_users(persisted)),
    {
        let mut state = AccessControl::new();
        match persisted {
            Some(p) => {
                state.mode = p.mode;
                let mut i: usize = 0;
                while i < p.users.len()
                    invariant
                        i <= p.users.len(),
                        state.mode == p.mode,
                        state.users@ == p.users@.take(i as int).to_set(),
                    decreases p.users.len() - i,
                {
                    state.users.insert(p.users[i]);
                    proof {
                        assert(p.users@.take(i + 1) == p.users@.take(i as int).push(p.users@[i as int]));
                        p.users@.take(i as int).lemma_push_to_set_commute(p.users@[i as int]);
                    }
                    i = i + 1;
                }
                assert(p.users@.take(p.users.len() as int) == p.users@);
            },
            None => {
                assert(state.users@ =~= Set::<i64>::empty());
            },
        }
        let ghost u0 = state.users@;
        let ghost m0 = state.mode;
        let mut seeded = false;
        match seed {
            Some(s) => {
                let v = chars_of(s);
                let pieces = split_vec(&v, ',');
                let kept = trim_nonblank(&pieces);
                let ghost ks = views(kept@);
                let ghost mut ids: Seq<i64> = seq![];
                let mut i: usize = 0;
                assert(ks.take(0) == Seq::<Seq<char>>::empty());
                while i < kept.len()
                    invariant
                        i <= kept.len(),
                        ks == views(kept@),
                        ks == nonblank_trimmed(split_on(s@, ',')),
                        ids == parsed_ids(ks.take(i as int)),
                        state.mode == m0,
                        state.users@ == u0.union(ids.to_set()),
                        seeded == !ids.to_set().subset_of(u0),
                    decreases kept.len() - i,
                {
                    let text = string_of(&kept[i]);
                    let parsed = parse_i64(text.as_str());
                    proof {
                        assert(ks.take(i + 1).drop_last() == ks.take(i as int));
                        assert(ks.take(i + 1).last() == kept@[i as int]@);
                    }
                    match parsed {
                        Some(id) => {
                            let ghost before = ids;
                            if state.users.insert(id) {
                                seeded = true;
                            }
                            proof {
                                ids = ids.push(id);
                                before.lemma_push_to_set_commute(id);
                                assert(state.users@ =~= u0.union(ids.to_set()));
                                if !before.to_set().subset_of(u0) {
                                    assert(!ids.to_set().subset_of(u0));
                                }
                            }
                        },
                        None => {},
                    }
                    i = i + 1;
                }
                assert(ks.take(kept.len() as int) == ks);
                assert(ids == seed_ids(s@));
            },
            None => {
                assert(Seq::<i64>::empty().to_set() =~= Set::<i64>::empty());
                assert(state.users@ =~= u0.union(Seq::<i64>::empty().to_set()));
            },
        }
        (state, seeded)
    }

    pub fn mode(&self) -> (r: AccessMode)
        ensures
            r == self@.0,
    {
        self.mode
    }

    /// Whether `user_id` may transcribe: the mode is public, or the user is
    /// whitelisted.
    pub fn is_allowed(&self, user_id: i64) -> (r: bool)
        ensures
            r == (self@.0 == AccessMode::Public || self@.1.contains(user_id)),
    {
        match self.mode {
            AccessMode::Public => true,
            AccessMode::Private => self.users.contains(&user_id),
        }
    }

    /// Whether `user_id` may administer: the user is whitelisted.
    pub fn is_manager(&self, user_id: i64) -> (r: bool)
        ensures
            r == self@.1.contains(user_id),
    {
        self.users.contains(&user_id)
    }

    /// Whitelists `user_id`; tells whether it was not yet whitelisted (and
    /// so whether the state is to be persisted).
    pub fn allow(&mut self, user_id: i64) -> (r: bool)
        ensures
            final(self)@ == (old(self)@.0, old(self)@.1.insert(user_id)),
            r == !old(self)@.1.contains(user_id),
    {
        self.users.insert(user_id)
    }

    /// Removes `user_id` from the whitelist; tells whether it was
    /// whitelisted (and so whether the state is to be persisted).
    pub fn deny(&mut self, user_id: i64) -> (r: bool)
        ensures
            final(self)@ == (old(self)@.0, old(self)@.1.remove(user_id)),
            r == old(self)@.1.contains(user_id),
    {
        self.users.remove(&user_id)
    }

    /// Sets the mode; the state is to be persisted afterwards.
    pub fn set_mode(&mut self, mode: AccessMode)
        ensures
            final(self)@ == (mode, old(self)@.1),
    {
        self.mode = mode;
    }

    /// The whitelisted users, in ascending order.
    pub fn users(&self) -> (r: Vec<i64>)
        ensures
            strictly_ascending(r@),
            r@.to_set() == self@.1,
    {
        let items = set_items(&self.users);
        let mut out: Vec<i64> = Vec::new();
        let mut i: usize = 0;
        while i < items.len()
            invariant
                i <= items.len(),
                strictly_ascending(out@),
                forall|y: i64|
                    out@.contains(y) <==> (exists|j: int| 0 <= j < i && #[trigger] items@[j] == y),
            decreases items.len() - i,
        {
            insert_sorted(&mut out, items[i]);
            proof {
                assert forall|y: i64|
                    out@.contains(y) <==> (exists|j: int|
                        0 <= j < i + 1 && #[trigger] items@[j] == y) by {
                    if y == items@[i as int] {
                        assert(items@[i as int] == y);
                    }
                }
            }
            i = i + 1;
        }
        assert forall|y: i64| out@.contains(y) <==> items@.contains(y) by {
            if items@.contains(y) {
                let k = choose|k: int| 0 <= k < items@.len() && items@[k] == y;
                assert(items@[k] == y);
            }
        }
        assert(out@.to_set() =~= items@.to_set());
        out
    }

    /// The persisted form: the mode and the users in ascending order.
    pub fn persisted(&self) -> (r: PersistedAccess)
        ensures
            r.mode == self@.0,
            strictly_ascending(r.users@),
            r.users@.to_set() == self@.1,
    {
        PersistedAccess { mode: self.mode, users: self.users() }
    }
}


// ---------------------------------------------------------------------------
// Laws
// ---------------------------------------------------------------------------

/// Whether the state `a` lets `user_id` transcribe (what `is_allowed`
/// answers).
pub open spec fn allows(a: (AccessMode, Set<i64>), user_id: i64) -> bool {
    a.0 == AccessMode::Public || a.1.contains(user_id)
}

/// Law: the whitelist and the mode survive a restart: restoring the
/// persisted form of a state, with no seed, gives the same state back and
/// asks for no new write.
pub proof fn law_persist_restore(a: (AccessMode, Set<i64>), p: PersistedAccess)
    requires
        p.mode == a.0,
        p.users@.to_set() == a.1,
    ensures
        restored_mode(Some(p)) == a.0,
        restored_users(Some(p)).union(seed_list(None).to_set()) == a.1,
        seed_list(None).to_set().subset_of(restored_users(Some(p))),
{
    assert(seed_list(None).to_set() =~= Set::<i64>::empty());
    assert(restored_users(Some(p)).union(Set::<i64>::empty()) =~= a.1);
}

/// Law: whoever may administer may transcribe, in either mode.
pub proof fn law_manager_allowed(a: (AccessMode, Set<i64>), user_id: i64)
    requires
        a.1.contains(user_id),
    ensures
        allows(a, user_id),
{
}

/// Law: in public mode everybody may transcribe; in private mode exactly
/// the whitelisted users may.
pub proof fn law_private_mode(a: (AccessMode, Set<i64>), user_id: i64)
    ensures
        a.0 == AccessMode::Public ==> allows(a, user_id),
        a.0 == AccessMode::Private ==> (allows(a, user_id) <==> a.1.contains(user_id)),
{
}

/// Law: allowing a user who was not whitelisted and then denying them
/// restores the state; allowing is what makes a user a manager, denying
/// what unmakes them.
pub proof fn law_allow_deny(a: (AccessMode, Set<i64>), user_id: i64)
    ensures
        (a.0, a.1.insert(user_id)).1.contains(user_id),
        !(a.0, a.1.remove(user_id)).1.contains(user_id),
        !a.1.contains(user_id) ==> a.1.insert(user_id).remove(user_id) == a.1,
{
    if !a.1.contains(user_id) {
        assert(a.1.insert(user_id).remove(user_id) =~= a.1);
    }
}

} // verus!
