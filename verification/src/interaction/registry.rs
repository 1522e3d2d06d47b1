//! Bounded in-memory registry of recently-seen chat users. RAM-bounded:
//! when full, the least-recently-seen user leaves to make room. Account age
//! is filled in later; everything else comes from IRC badges.

use vstd::prelude::*;
use crate::clock::Instant;
use crate::types::ChatEvent;

verus! {

/// What the registry knows of one user.
#[derive(Debug, Clone)]
pub struct UserProfile {
    pub user_id: String,
    pub login: String,
    pub display: String,
    pub sub_months: u32,
    pub is_mod: bool,
    pub is_vip: bool,
    pub is_sub: bool,
    pub is_founder: bool,
    pub is_broadcaster: bool,
    pub msg_count: u32,
    pub account_age_days: Option<i64>,
    pub first_seen: Instant,
    pub last_seen: Instant,
}

/// The abstract value of a profile.
pub struct ProfileView {
    pub user_id: Seq<char>,
    pub login: Seq<char>,
    pub display: Seq<char>,
    pub sub_months: u32,
    pub is_mod: bool,
    pub is_vip: bool,
    pub is_sub: bool,
    pub is_founder: bool,
    pub is_broadcaster: bool,
    pub msg_count: u32,
    pub account_age_days: Option<i64>,
    pub first_seen: int,
    pub last_seen: int,
}

impl View for UserProfile {
    type V = ProfileView;

    open spec fn view(&self) -> ProfileView {
        ProfileView {
            user_id: self.user_id@,
            login: self.login@,
            display: self.display@,
            sub_months: self.sub_months,
            is_mod: self.is_mod,
            is_vip: self.is_vip,
            is_sub: self.is_sub,
            is_founder: self.is_founder,
            is_broadcaster: self.is_broadcaster,
            msg_count: self.msg_count,
            account_age_days: self.account_age_days,
            first_seen: self.first_seen@,
            last_seen: self.last_seen@,
        }
    }
}

/// The profile created the first time `ev`'s sender is seen, at `now`.
pub open spec fn fresh_profile(ev: ChatEvent, now: int) -> ProfileView {
    ProfileView {
        user_id: ev.user_id@,
        login: ev.login@,
        display: ev.user@,
        sub_months: ev.sub_months,
        is_mod: ev.is_mod,
        is_vip: ev.is_vip,
        is_sub: ev.is_sub,
        is_founder: ev.is_founder,
        is_broadcaster: ev.is_broadcaster,
        msg_count: 1,
        account_age_days: None,
        first_seen: now,
        last_seen: now,
    }
}

/// `p` refreshed from another message `ev` at `now`: names and badges are
/// taken from the message, sub months never decrease, the message count
/// grows by one (saturating), and the user was last seen at `now`.
pub open spec fn refreshed_profile(p: ProfileView, ev: ChatEvent, now: int) -> ProfileView {
    ProfileView {
        display: ev.user@,
        login: ev.login@,
        sub_months: if ev.sub_months >= p.sub_months {
            ev.sub_months
        } else {
            p.sub_months
        },
        is_mod: ev.is_mod,
        is_vip: ev.is_vip,
        is_sub: ev.is_sub,
        is_founder: ev.is_founder,
        is_broadcaster: ev.is_broadcaster,
        msg_count: if p.msg_count < u32::MAX {
            (p.msg_count + 1) as u32
        } else {
            p.msg_count
        },
        last_seen: now,
        ..p
    }
}

/// The user ids of `s`, in order.
pub open spec fn ids(s: Seq<ProfileView>) -> Seq<Seq<char>> {
    s.map_values(|p: ProfileView| p.user_id)
}

/// Some profile of `s` has user id `id`.
pub open spec fn has_id(s: Seq<ProfileView>, id: Seq<char>) -> bool {
    exists|i: int| 0 <= i < s.len() && (#[trigger] s[i]).user_id == id
}

/// The profiles of `s` keyed by user id.
pub open spec fn profiles_map(s: Seq<ProfileView>) -> Map<Seq<char>, ProfileView> {
    Map::new(
        |id: Seq<char>| has_id(s, id),
        |id: Seq<char>| s[choose|i: int| 0 <= i < s.len() && (#[trigger] s[i]).user_id == id],
    )
}

/// `p` was seen no later than any profile of `m`.
pub open spec fn least_recent(m: Map<Seq<char>, ProfileView>, id: Seq<char>) -> bool {
    &&& m.dom().contains(id)
    &&& forall|k: Seq<char>| #[trigger] m.dom().contains(k) ==> m[id].last_seen <= m[k].last_seen
}

/// The abstract value of a registry: its capacity and its profiles by id.
pub struct RegistryView {
    pub cap: nat,
    pub users: Map<Seq<char>, ProfileView>,
}

/// What a registry holds after `ev` arrives at `now`: a known sender's
/// profile is refreshed; an unknown sender gets a fresh profile, after the
/// least-recently-seen user (`evicted`) leaves if the registry was full.
pub open spec fn observed(
    r: RegistryView,
    ev: ChatEvent,
    now: int,
    evicted: Seq<char>,
) -> Map<Seq<char>, ProfileView> {
    let id = ev.user_id@;
    if r.users.dom().contains(id) {
        r.users.insert(id, refreshed_profile(r.users[id], ev, now))
    } else if r.users.dom().len() >= r.cap {
        r.users.remove(evicted).insert(id, fresh_profile(ev, now))
    } else {
        r.users.insert(id, fresh_profile(ev, now))
    }
}

proof fn lemma_lookup(s: Seq<ProfileView>, i: int)
    requires
        ids(s).no_duplicates(),
        0 <= i < s.len(),
    ensures
        profiles_map(s).dom().contains(s[i].user_id),
        profiles_map(s)[s[i].user_id] == s[i],
{
    let id = s[i].user_id;
    assert(has_id(s, id));
    let j = choose|j: int| 0 <= j < s.len() && (#[trigger] s[j]).user_id == id;
    if j != i {
        assert(ids(s)[i] == ids(s)[j]);
    }
}

proof fn lemma_dom_is_ids(s: Seq<ProfileView>)
    requires
        ids(s).no_duplicates(),
    ensures
        profiles_map(s).dom() == ids(s).to_set(),
        profiles_map(s).dom().finite(),
        profiles_map(s).dom().len() == s.len(),
{
    assert forall|id: Seq<char>| #[trigger] profiles_map(s).dom().contains(id) <==> ids(
        s,
    ).to_set().contains(id) by {
        if has_id(s, id) {
            let i = choose|i: int| 0 <= i < s.len() && (#[trigger] s[i]).user_id == id;
            assert(ids(s)[i] == id);
        }
        if ids(s).contains(id) {
            let i = choose|i: int| 0 <= i < ids(s).len() && ids(s)[i] == id;
            assert(s[i].user_id == id);
        }
    }
    assert(profiles_map(s).dom() =~= ids(s).to_set());
    ids(s).unique_seq_to_set();
    vstd::seq_lib::seq_to_set_is_finite(ids(s));
}

proof fn lemma_update(s: Seq<ProfileView>, i: int, p: ProfileView)
    requires
        ids(s).no_duplicates(),
        0 <= i < s.len(),
        p.user_id == s[i].user_id,
    ensures
        ids(s.update(i, p)).no_duplicates(),
        profiles_map(s.update(i, p)) == profiles_map(s).insert(p.user_id, p),
{
    let t = s.update(i, p);
    assert(ids(t) =~= ids(s));
    assert forall|id: Seq<char>| #[trigger] profiles_map(t).dom().contains(id) <==> profiles_map(
        s,
    ).insert(p.user_id, p).dom().contains(id) by {
        if has_id(t, id) {
            let j = choose|j: int| 0 <= j < t.len() && (#[trigger] t[j]).user_id == id;
            assert(ids(t)[j] == id);
            assert(ids(s)[j] == id);
            assert(s[j].user_id == id);
        }
        if has_id(s, id) {
            let j = choose|j: int| 0 <= j < s.len() && (#[trigger] s[j]).user_id == id;
            assert(ids(s)[j] == id);
            assert(t[j].user_id == id);
        }
        if id == p.user_id {
            assert(t[i].user_id == id);
        }
    }
    assert forall|id: Seq<char>| #[trigger] profiles_map(t).dom().contains(id) implies profiles_map(
        t,
    )[id] == profiles_map(s).insert(p.user_id, p)[id] by {
        let j = choose|j: int| 0 <= j < t.len() && (#[trigger] t[j]).user_id == id;
        assert(ids(t)[j] == id);
        lemma_lookup(t, j);
        assert(ids(t)[i] == p.user_id);
        if j != i {
            assert(s[j] == t[j]);
            assert(id != p.user_id);
            assert(ids(s)[j] == id);
            lemma_lookup(s, j);
        }
    }
    assert(profiles_map(t) =~= profiles_map(s).insert(p.user_id, p));
}

proof fn lemma_push(s: Seq<ProfileView>, p: ProfileView)
    requires
        ids(s).no_duplicates(),
        !has_id(s, p.user_id),
    ensures
        ids(s.push(p)).no_duplicates(),
        profiles_map(s.push(p)) == profiles_map(s).insert(p.user_id, p),
{
    let t = s.push(p);
    assert(ids(t) =~= ids(s).push(p.user_id));
    assert forall|a: int, b: int|
        0 <= a < ids(t).len() && 0 <= b < ids(t).len() && a != b implies ids(t)[a] != ids(t)[b] by {
        if a < s.len() && b < s.len() {
            assert(ids(t)[a] == ids(s)[a]);
            assert(ids(t)[b] == ids(s)[b]);
        } else if a < s.len() {
            assert(ids(t)[a] == s[a].user_id);
        } else if b < s.len() {
            assert(ids(t)[b] == s[b].user_id);
        }
    }
    assert forall|id: Seq<char>| #[trigger] profiles_map(t).dom().contains(id) <==> profiles_map(
        s,
    ).insert(p.user_id, p).dom().contains(id) by {
        if has_id(t, id) {
            let j = choose|j: int| 0 <= j < t.len() && (#[trigger] t[j]).user_id == id;
            if j < s.len() {
                assert(s[j].user_id == id);
            }
        }
        if has_id(s, id) {
            let j = choose|j: int| 0 <= j < s.len() && (#[trigger] s[j]).user_id == id;
            assert(t[j].user_id == id);
        }
        if id == p.user_id {
            assert(t[s.len() as int].user_id == id);
        }
    }
    assert forall|id: Seq<char>| #[trigger] profiles_map(t).dom().contains(id) implies profiles_map(
        t,
    )[id] == profiles_map(s).insert(p.user_id, p)[id] by {
        let j = choose|j: int| 0 <= j < t.len() && (#[trigger] t[j]).user_id == id;
        assert(ids(t)[j] == id);
        lemma_lookup(t, j);
        if j < s.len() {
            assert(s[j] == t[j]);
            assert(ids(s)[j] == id);
            lemma_lookup(s, j);
        }
    }
    assert(profiles_map(t) =~= profiles_map(s).insert(p.user_id, p));
}

proof fn lemma_remove(s: Seq<ProfileView>, i: int)
    requires
        ids(s).no_duplicates(),
        0 <= i < s.len(),
    ensures
        ids(s.remove(i)).no_duplicates(),
        profiles_map(s.remove(i)) == profiles_map(s).remove(s[i].user_id),
{
    let t = s.remove(i);
    let gone = s[i].user_id;
    assert forall|j: int| 0 <= j < t.len() implies #[trigger] t[j] == s[if j < i {
        j
    } else {
        j + 1
    }] by {}
    assert forall|a: int, b: int|
        0 <= a < ids(t).len() && 0 <= b < ids(t).len() && a != b implies ids(t)[a] != ids(t)[b] by {
        let a2 = if a < i {
            a
        } else {
            a + 1
        };
        let b2 = if b < i {
            b
        } else {
            b + 1
        };
        assert(ids(t)[a] == ids(s)[a2]);
        assert(ids(t)[b] == ids(s)[b2]);
    }
    assert forall|id: Seq<char>| #[trigger] profiles_map(t).dom().contains(id) <==> profiles_map(
        s,
    ).remove(gone).dom().contains(id) by {
        if has_id(t, id) {
            let j = choose|j: int| 0 <= j < t.len() && (#[trigger] t[j]).user_id == id;
            let j2 = if j < i {
                j
            } else {
                j + 1
            };
            assert(s[j2].user_id == id);
            assert(ids(s)[j2] == id);
            assert(ids(s)[i] == gone);
        }
        if has_id(s, id) && id != gone {
            let j = choose|j: int| 0 <= j < s.len() && (#[trigger] s[j]).user_id == id;
            if j < i {
                assert(t[j].user_id == id);
            } else {
                assert(j != i);
                assert(t[j - 1].user_id == id);
            }
        }
    }
    assert forall|id: Seq<char>| #[trigger] profiles_map(t).dom().contains(id) implies profiles_map(
        t,
    )[id] == profiles_map(s).remove(gone)[id] by {
        let j = choose|j: int| 0 <= j < t.len() && (#[trigger] t[j]).user_id == id;
        assert(ids(t)[j] == id);
        lemma_lookup(t, j);
        let j2 = if j < i {
            j
        } else {
            j + 1
        };
        assert(ids(s)[j2] == id);
        lemma_lookup(s, j2);
    }
    assert(profiles_map(t) =~= profiles_map(s).remove(gone));
}

/// Recently-seen chat users, at most `cap` of them.
pub struct Registry {
    cap: usize,
    users: Vec<UserProfile>,
}

impl View for Registry {
    type V = RegistryView;

    closed spec fn view(&self) -> RegistryView {
        RegistryView {
            cap: self.cap as nat,
            users: profiles_map(self.users@.map_values(|p: UserProfile| p@)),
        }
    }
}

impl Registry {
    closed spec fn profiles(&self) -> Seq<ProfileView> {
        self.users@.map_values(|p: UserProfile| p@)
    }

    /// Internal consistency: one profile per user id, within capacity.
    pub closed spec fn wf(&self) -> bool {
        &&& ids(self.profiles()).no_duplicates()
        &&& self.users@.len() <= self.cap
        &&& self.cap >= 1
    }

    /// An empty registry holding at most `cap` users (at least one).
    pub fn new(cap: usize) -> (r: Registry)
        ensures
            r.wf(),
            r@.cap == if cap >= 1 {
                cap as nat
            } else {
                1
            },
            r@.users == Map::<Seq<char>, ProfileView>::empty(),
    {
        let r = Registry {
            cap: if cap >= 1 {
                cap
            } else {
                1
            },
            users: Vec::new(),
        };
        proof {
            assert(r.profiles() =~= Seq::<ProfileView>::empty());
            assert(r@.users =~= Map::<Seq<char>, ProfileView>::empty());
        }
        r
    }

    proof fn lemma_wf_facts(&self)
        requires
            self.wf(),
        ensures
            self@.users.dom().finite(),
            self@.users.dom().len() == self.users@.len(),
            self@.users.dom().len() <= self@.cap,
            forall|i: int|
                0 <= i < self.users@.len() ==> self@.users.dom().contains(
                    (#[trigger] self.users@[i])@.user_id,
                ) && self@.users[self.users@[i]@.user_id] == self.users@[i]@,
    {
        lemma_dom_is_ids(self.profiles());
        assert forall|i: int| 0 <= i < self.users@.len() implies self@.users.dom().contains(
            (#[trigger] self.users@[i])@.user_id,
        ) && self@.users[self.users@[i]@.user_id] == self.users@[i]@ by {
            assert(self.profiles()[i] == self.users@[i]@);
            lemma_lookup(self.profiles(), i);
        }
    }

    fn find(&self, user_id: &str) -> (r: Option<usize>)
        requires
            self.wf(),
        ensures
            r matches Some(i) ==> i < self.users@.len() && self.users@[i as int]@.user_id
                == user_id@,
            r is None ==> !self@.users.dom().contains(user_id@),
    {
        let key = user_id.to_owned();
        let mut i: usize = 0;
        while i < self.users.len()
            invariant
                i <= self.users@.len(),
                key@ == user_id@,
                forall|j: int| 0 <= j < i ==> (#[trigger] self.users@[j])@.user_id != user_id@,
            decreases self.users.len() - i,
        {
            if self.users[i].user_id == key {
                return Some(i);
            }
            i = i + 1;
        }
        proof {
            if has_id(self.profiles(), user_id@) {
                let j = choose|j: int|
                    0 <= j < self.profiles().len() && (#[trigger] self.profiles()[j]).user_id
                        == user_id@;
                assert(self.profiles()[j] == self.users@[j]@);
            }
        }
        None
    }

    /// Records a chat message (reads the clock for its time).
    pub fn observe(&mut self, ev: &ChatEvent)
        requires
            old(self).wf(),
        ensures
            final(self).wf(),
            final(self)@.cap == old(self)@.cap,
            exists|now: int, evicted: Seq<char>|
                final(self)@.users == observed(old(self)@, *ev, now, evicted) && (
                !old(self)@.users.dom().contains(ev.user_id@) && old(self)@.users.dom().len()
                    >= old(self)@.cap ==> least_recent(old(self)@.users, evicted)),
    {
        let now = Instant::now();
        let evicted = self.observe_at(ev, now);
        assert(self@.users == observed(old(self)@, *ev, now@, evicted@) && (!old(
            self,
        )@.users.dom().contains(ev.user_id@) && old(self)@.users.dom().len() >= old(self)@.cap
            ==> least_recent(old(self)@.users, evicted@)));
    }

    /// Records a chat message seen at `now`. A known sender's profile is
    /// refreshed; an unknown sender is added, after evicting the
    /// least-recently-seen user when the registry is full. Returns the id
    /// of that evicted user (meaningful only when one was evicted).
    pub fn observe_at(&mut self, ev: &ChatEvent, now: Instant) -> (evicted: Ghost<Seq<char>>)
        requires
            old(self).wf(),
        ensures
            final(self).wf(),
            final(self)@.cap == old(self)@.cap,
            final(self)@.users == observed(old(self)@, *ev, now@, evicted@),
            !old(self)@.users.dom().contains(ev.user_id@) && old(self)@.users.dom().len()
                >= old(self)@.cap ==> least_recent(old(self)@.users, evicted@),
    {
        proof {
            self.lemma_wf_facts();
        }
        let found = self.find(ev.user_id.as_str());
        match found {
            Some(i) => {
                let p = &self.users[i];
                let updated = UserProfile {
                    user_id: p.user_id.clone(),
                    login: ev.login.clone(),
                    display: ev.user.clone(),
                    sub_months: if ev.sub_months >= p.sub_months {
                        ev.sub_months
                    } else {
                        p.sub_months
                    },
                    is_mod: ev.is_mod,
                    is_vip: ev.is_vip,
                    is_sub: ev.is_sub,
                    is_founder: ev.is_founder,
                    is_broadcaster: ev.is_broadcaster,
                    msg_count: p.msg_count.saturating_add(1),
                    account_age_days: p.account_age_days,
                    first_seen: p.first_seen,
                    last_seen: now,
                };
                let ghost s0 = self.profiles();
                let ghost p0 = self.users@[i as int]@;
                self.users.set(i, updated);
                proof {
                    assert(self.profiles() =~= s0.update(i as int, updated@));
                    assert(s0[i as int] == p0);
                    lemma_update(s0, i as int, updated@);
                    assert(updated@ == refreshed_profile(p0, *ev, now@));
                    assert(old(self)@.users[ev.user_id@] == p0);
                }
                Ghost(Seq::empty())
            },
            None => {
                let mut evicted: Ghost<Seq<char>> = Ghost(Seq::empty());
                if self.users.len() >= self.cap {
                    evicted = self.evict_oldest();
                }
                let fresh = UserProfile {
                    user_id: ev.user_id.clone(),
                    login: ev.login.clone(),
                    display: ev.user.clone(),
                    sub_months: ev.sub_months,
                    is_mod: ev.is_mod,
                    is_vip: ev.is_vip,
                    is_sub: ev.is_sub,
                    is_founder: ev.is_founder,
                    is_broadcaster: ev.is_broadcaster,
                    msg_count: 1,
                    account_age_days: None,
                    first_seen: now,
                    last_seen: now,
                };
                let ghost s1 = self.profiles();
                proof {
                    assert(!has_id(s1, ev.user_id@)) by {
                        if has_id(s1, ev.user_id@) {
                            let j = choose|j: int|
                                0 <= j < s1.len() && (#[trigger] s1[j]).user_id == ev.user_id@;
                            assert(ids(s1)[j] == ev.user_id@);
                            lemma_dom_is_ids(s1);
                        }
                    }
                }
                self.users.push(fresh);
                proof {
                    assert(self.profiles() =~= s1.push(fresh@));
                    lemma_push(s1, fresh@);
                    assert(fresh@ == fresh_profile(*ev, now@));
                }
                evicted
            },
        }
    }

    fn evict_oldest(&mut self) -> (gone: Ghost<Seq<char>>)
        requires
            old(self).wf(),
            old(self).users@.len() >= 1,
        ensures
            ids(final(self).profiles()).no_duplicates(),
            final(self).cap == old(self).cap,
            final(self).users@.len() == old(self).users@.len() - 1,
            final(self)@.users == old(self)@.users.remove(gone@),
            least_recent(old(self)@.users, gone@),
    {
        proof {
            self.lemma_wf_facts();
        }
        let mut best: usize = 0;
        let mut i: usize = 1;
        while i < self.users.len()
            invariant
                1 <= i <= self.users@.len(),
                best < i,
                forall|j: int|
                    0 <= j < i ==> self.users@[best as int].last_seen@ <= (#[trigger] self.users@[j]).last_seen@,
            decreases self.users.len() - i,
        {
            if self.users[i].last_seen.as_nanos() < self.users[best].last_seen.as_nanos() {
                best = i;
            }
            i = i + 1;
        }
        let ghost s0 = self.profiles();
        let ghost gone = s0[best as int].user_id;
        proof {
            assert forall|k: Seq<char>| #[trigger] old(self)@.users.dom().contains(k) implies old(
                self,
            )@.users[gone].last_seen <= old(self)@.users[k].last_seen by {
                let j = choose|j: int| 0 <= j < s0.len() && (#[trigger] s0[j]).user_id == k;
                assert(s0[j] == self.users@[j]@);
                assert(s0[best as int] == self.users@[best as int]@);
            }
        }
        self.users.remove(best);
        proof {
            assert(self.profiles() =~= s0.remove(best as int));
            lemma_remove(s0, best as int);
        }
        Ghost(gone)
    }

    /// The profile of `user_id`, if known.
    pub fn get(&self, user_id: &str) -> (r: Option<&UserProfile>)
        requires
            self.wf(),
        ensures
            r matches Some(p) ==> self@.users.dom().contains(user_id@) && p@ == self@.users[user_id@],
            r is None ==> !self@.users.dom().contains(user_id@),
    {
        proof {
            self.lemma_wf_facts();
        }
        match self.find(user_id) {
            Some(i) => Some(&self.users[i]),
            None => None,
        }
    }

    /// Whether `user_id` is known but its account age is not.
    pub fn needs_age(&self, user_id: &str) -> (b: bool)
        requires
            self.wf(),
        ensures
            b == (self@.users.dom().contains(user_id@) && self@.users[user_id@].account_age_days is None),
    {
        match self.get(user_id) {
            Some(p) => p.account_age_days.is_none(),
            None => false,
        }
    }

    /// Records the account age of `user_id`, if known.
    pub fn set_age(&mut self, user_id: &str, days: i64)
        requires
            old(self).wf(),
        ensures
            final(self).wf(),
            final(self)@.cap == old(self)@.cap,
            final(self)@.users == if old(self)@.users.dom().contains(user_id@) {
                old(self)@.users.insert(
                    user_id@,
                    ProfileView { account_age_days: Some(days), ..old(self)@.users[user_id@] },
                )
            } else {
                old(self)@.users
            },
    {
        proof {
            self.lemma_wf_facts();
        }
        match self.find(user_id) {
            Some(i) => {
                let p = &self.users[i];
                let updated = UserProfile {
                    user_id: p.user_id.clone(),
                    login: p.login.clone(),
                    display: p.display.clone(),
                    sub_months: p.sub_months,
                    is_mod: p.is_mod,
                    is_vip: p.is_vip,
                    is_sub: p.is_sub,
                    is_founder: p.is_founder,
                    is_broadcaster: p.is_broadcaster,
                    msg_count: p.msg_count,
                    account_age_days: Some(days),
                    first_seen: p.first_seen,
                    last_seen: p.last_seen,
                };
                let ghost s0 = self.profiles();
                self.users.set(i, updated);
                proof {
                    assert(self.profiles() =~= s0.update(i as int, updated@));
                    lemma_update(s0, i as int, updated@);
                }
            },
            None => {},
        }
    }

    /// Number of known users.
    pub fn len(&self) -> (n: usize)
        requires
            self.wf(),
        ensures
            n as nat == self@.users.dom().len(),
            n <= self@.cap,
    {
        proof {
            self.lemma_wf_facts();
        }
        self.users.len()
    }

    /// Whether no user is known.
    pub fn is_empty(&self) -> (b: bool)
        requires
            self.wf(),
        ensures
            b == (self@.users.dom().len() == 0),
    {
        proof {
            self.lemma_wf_facts();
        }
        self.users.len() == 0
    }
}

/// The registry never holds more users than its capacity, whatever it
/// observes.
pub proof fn lemma_observed_within_capacity(r: RegistryView, ev: ChatEvent, now: int, evicted: Seq<char>)
    requires
        r.users.dom().finite(),
        r.users.dom().len() <= r.cap,
        !r.users.dom().contains(ev.user_id@) && r.users.dom().len() >= r.cap ==> r.users.dom().contains(
            evicted,
        ),
    ensures
        observed(r, ev, now, evicted).dom().finite(),
        observed(r, ev, now, evicted).dom().len() <= r.cap,
{
    let id = ev.user_id@;
    if r.users.dom().contains(id) {
        assert(r.users.insert(id, refreshed_profile(r.users[id], ev, now)).dom() =~= r.users.dom());
    } else if r.users.dom().len() >= r.cap {
        assert(r.users.remove(evicted).dom() =~= r.users.dom().remove(evicted));
        if r.users.remove(evicted).dom().contains(id) {
        }
    } else {
    }
}

/// A repeat message from a known user counts one more message (up to the
/// counter's limit) and keeps when that user was first seen.
pub proof fn lemma_repeat_counts(r: RegistryView, ev: ChatEvent, now: int, evicted: Seq<char>)
    requires
        r.users.dom().contains(ev.user_id@),
    ensures
        observed(r, ev, now, evicted)[ev.user_id@].msg_count == if r.users[ev.user_id@].msg_count
            < u32::MAX {
            r.users[ev.user_id@].msg_count + 1
        } else {
            r.users[ev.user_id@].msg_count as int
        },
        observed(r, ev, now, evicted)[ev.user_id@].first_seen == r.users[ev.user_id@].first_seen,
        observed(r, ev, now, evicted).dom() == r.users.dom(),
{
    assert(observed(r, ev, now, evicted).dom() =~= r.users.dom());
}

/// Trust is measured in units of `1 / TRUST_SCALE`: the scale is the least
/// common multiple of the denominators involved (24 months, 5 years of 365
/// days), so every step below is exact.
pub const TRUST_SCALE: i128 = 43_800;

/// Derived credibility ("tempo de casa"): a tier name and a trust level from
/// 0 (brand-new) to `TRUST_SCALE` (the broadcaster).
#[derive(Debug, Clone, Copy, PartialEq, Eq)]
pub struct Credibility {
    pub tier: &'static str,
    pub trust_units: i128,
}

/// The trust of a user without a privileged role: 0.2, plus 0.3 for a
/// subscriber, plus one twenty-fourth per subscribed month up to 0.3, plus
/// one fifth per year of account age up to 0.2; at most 1.
pub open spec fn earned_trust(p: ProfileView) -> int {
    let base = 8_760int;
    let sub = if p.is_sub {
        13_140int
    } else {
        0
    };
    let months = if p.sub_months as int * 1825 <= 13_140 {
        p.sub_months as int * 1825
    } else {
        13_140
    };
    let age = match p.account_age_days {
        Some(d) => if d as int * 24 <= 8_760 {
            d as int * 24
        } else {
            8_760
        },
        None => 0,
    };
    let t = base + sub + months + age;
    if t <= TRUST_SCALE {
        t
    } else {
        TRUST_SCALE as int
    }
}

/// The credibility of a profile: the broadcaster, moderators, VIPs and
/// founders get fixed levels (1, 0.95, 0.85, 0.8); anyone else earns
/// `earned_trust` and is `regular` from one half on, `viewer novato`
/// below.
pub open spec fn credibility_spec(p: ProfileView) -> (Seq<char>, int) {
    if p.is_broadcaster {
        ("a própria streamer"@, TRUST_SCALE as int)
    } else if p.is_mod {
        ("moderador"@, 41_610)
    } else if p.is_vip {
        ("VIP"@, 37_230)
    } else if p.is_founder {
        ("founder"@, 35_040)
    } else if 2 * earned_trust(p) >= TRUST_SCALE {
        ("regular"@, earned_trust(p))
    } else {
        ("viewer novato"@, earned_trust(p))
    }
}

/// Derived credibility of a profile (see `credibility_spec`).
pub fn credibility(p: &UserProfile) -> (c: Credibility)
    ensures
        (c.tier@, c.trust_units as int) == credibility_spec(p@),
{
    if p.is_broadcaster {
        return Credibility { tier: "a própria streamer", trust_units: TRUST_SCALE };
    }
    if p.is_mod {
        return Credibility { tier: "moderador", trust_units: 41_610 };
    }
    if p.is_vip {
        return Credibility { tier: "VIP", trust_units: 37_230 };
    }
    if p.is_founder {
        return Credibility { tier: "founder", trust_units: 35_040 };
    }
    let mut trust: i128 = 8_760;
    if p.is_sub {
        trust = trust + 13_140;
    }
    let months = p.sub_months as i128 * 1825;
    trust = trust + if months <= 13_140 {
        months
    } else {
        13_140
    };
    match p.account_age_days {
        Some(d) => {
            let age = d as i128 * 24;
            trust = trust + if age <= 8_760 {
                age
            } else {
                8_760
            };
        },
        None => {},
    }
    if trust > TRUST_SCALE {
        trust = TRUST_SCALE;
    }
    let tier = if 2 * trust >= TRUST_SCALE {
        "regular"
    } else {
        "viewer novato"
    };
    Credibility { tier, trust_units: trust }
}

/// Trust never exceeds the broadcaster's, and a subscriber without a
/// privileged role (and no negative account age) is always `regular`.
pub proof fn lemma_credibility_bounds(p: ProfileView)
    ensures
        credibility_spec(p).1 <= TRUST_SCALE,
        (!p.is_broadcaster && !p.is_mod && !p.is_vip && !p.is_founder && p.is_sub && (
        p.account_age_days is None || p.account_age_days.unwrap() >= 0)) ==> credibility_spec(p).0
            == "regular"@,
{
}

/// Privileged roles decide the credibility before any earned trust, the
/// highest role first: the broadcaster (full trust), then a moderator
/// (0.95), a VIP (0.85), a founder (0.8). Anyone else is `regular` from half
/// trust on and `viewer novato` below, with a trust of at least 0.2 unless
/// the account age is negative.
pub proof fn lemma_credibility_roles(p: ProfileView)
    ensures
        p.is_broadcaster ==> credibility_spec(p) == ("a própria streamer"@, 43_800int),
        !p.is_broadcaster && p.is_mod ==> credibility_spec(p) == ("moderador"@, 41_610int),
        !p.is_broadcaster && !p.is_mod && p.is_vip ==> credibility_spec(p) == ("VIP"@, 37_230int),
        !p.is_broadcaster && !p.is_mod && !p.is_vip && p.is_founder ==> credibility_spec(p) == (
        "founder"@, 35_040int),
        !p.is_broadcaster && !p.is_mod && !p.is_vip && !p.is_founder ==> {
            let (tier, trust) = credibility_spec(p);
            &&& trust <= 43_800
            &&& (2 * trust >= 43_800 ==> tier == "regular"@)
            &&& (2 * trust < 43_800 ==> tier == "viewer novato"@)
            &&& (p.account_age_days is None || p.account_age_days.unwrap() >= 0) ==> trust >= 8_760
        },
{
}

} // verus!
