//! The locally kept results of bank authorizations (one session per bank and
//! application), and the decisions taken on them.

use vstd::prelude::*;
use crate::remote::{EnableBankingAccountId, EnableBankingSessionId};
use crate::time::{before, chrono_duration_since, since, span_less, span_nanos, utc_now, Span, Timestamp};

verus! {

/// How long after authorization a session still has extended access to the
/// transaction history (one hour).
pub open spec fn extended_access_nanos() -> int {
    3_600_000_000_000int
}

/// How many days of transaction history a session has regular access to.
pub open spec fn regular_access_days() -> int {
    90
}

/// Whether a session may still read the whole transaction history.
#[derive(Clone, Copy, Debug, PartialEq, Eq, Structural)]
pub enum SessionAccessLevel {
    Extended,
    Regular,
}

/// A completed bank authorization.
pub struct Session {
    pub session_id: EnableBankingSessionId,
    pub app_id: String,
    pub aspsp_name: String,
    pub aspsp_country: String,
    pub accounts: Vec<EnableBankingAccountId>,
    pub valid_until: Timestamp,
    pub created_at: Timestamp,
}

/// A session as plain values.
pub struct SessionView {
    pub session_id: u128,
    pub app_id: Seq<char>,
    pub aspsp_name: Seq<char>,
    pub aspsp_country: Seq<char>,
    pub accounts: Seq<u128>,
    pub valid_until: Timestamp,
    pub created_at: Timestamp,
}

impl View for Session {
    type V = SessionView;

    open spec fn view(&self) -> SessionView {
        SessionView {
            session_id: self.session_id.0,
            app_id: self.app_id@,
            aspsp_name: self.aspsp_name@,
            aspsp_country: self.aspsp_country@,
            accounts: self.accounts@.map_values(|a: EnableBankingAccountId| a.0),
            valid_until: self.valid_until,
            created_at: self.created_at,
        }
    }
}

/// The access level of a session created at `created_at`, seen at `now`:
/// extended while less than an hour has passed (as `chrono` measures it).
pub open spec fn access_level_spec(created_at: Timestamp, now: Timestamp) -> SessionAccessLevel {
    match chrono_duration_since(now.secs, now.nanos, created_at.secs, created_at.nanos) {
        Some((s, n)) => if s * 1_000_000_000 + n < extended_access_nanos() {
            SessionAccessLevel::Extended
        } else {
            SessionAccessLevel::Regular
        },
        None => SessionAccessLevel::Regular,
    }
}

impl Session {
    /// Whether the session has expired at `now`: `now` is not before `valid_until`.
    pub fn is_expired_at(&self, now: Timestamp) -> (res: bool)
        ensures
            res == !before(now, self.valid_until),
    {
        !now.is_before(&self.valid_until)
    }

    /// Whether the session has expired now.
    pub fn is_expired(&self) -> (res: bool)
        ensures
            exists|now: Timestamp| res == !before(now, self.valid_until),
    {
        let now = utc_now();
        let res = self.is_expired_at(now);
        assert(res == !before(now, self.valid_until));
        res
    }

    /// The session's age at `now`, where `chrono` can measure it.
    pub fn age_at(&self, now: Timestamp) -> (res: Option<Span>)
        ensures
            match res {
                Some(d) => chrono_duration_since(now.secs, now.nanos, self.created_at.secs, self.created_at.nanos)
                    == Some((d.secs, d.nanos)),
                None => chrono_duration_since(now.secs, now.nanos, self.created_at.secs, self.created_at.nanos)
                    is None,
            },
    {
        since(now, self.created_at)
    }

    /// The session's access level at `now`.
    pub fn access_level_at(&self, now: Timestamp) -> (res: SessionAccessLevel)
        ensures
            res == access_level_spec(self.created_at, now),
    {
        match self.age_at(now) {
            Some(age) => {
                if span_less(age, Span { secs: 3600, nanos: 0 }) {
                    SessionAccessLevel::Extended
                } else {
                    SessionAccessLevel::Regular
                }
            },
            None => SessionAccessLevel::Regular,
        }
    }

    /// The session's access level now.
    pub fn access_level(&self) -> (res: SessionAccessLevel)
        ensures
            exists|now: Timestamp| res == access_level_spec(self.created_at, now),
    {
        let now = utc_now();
        let res = self.access_level_at(now);
        assert(res == access_level_spec(self.created_at, now));
        res
    }
}

/// Whether the session `s` is the one for the bank `name` in `country`.
pub open spec fn for_bank(s: SessionView, name: Seq<char>, country: Seq<char>) -> bool {
    s.aspsp_name == name && s.aspsp_country == country
}

/// Whether the session `s` is the one for the bank `name` in `country` made
/// with the application `app_id`.
pub open spec fn for_bank_and_app(s: SessionView, name: Seq<char>, country: Seq<char>, app_id: Seq<char>) -> bool {
    for_bank(s, name, country) && s.app_id == app_id
}

/// Whether the session `s` gives access to the account `account`.
pub open spec fn covers_account(s: SessionView, account: u128) -> bool {
    s.accounts.contains(account)
}

/// The sessions of `s` whose id is not `id`, in order.
pub open spec fn without_session(s: Seq<SessionView>, id: u128) -> Seq<SessionView>
    decreases s.len(),
{
    if s.len() == 0 {
        s
    } else {
        let rest = without_session(s.drop_last(), id);
        if s.last().session_id != id {
            rest.push(s.last())
        } else {
            rest
        }
    }
}

/// The first session of `s` that the predicate selects.
pub open spec fn first_index(s: Seq<SessionView>, p: spec_fn(SessionView) -> bool, i: int) -> bool {
    0 <= i < s.len() && p(s[i]) && forall|j: int| 0 <= j < i ==> !p(#[trigger] s[j])
}

/// `i` is the position of the first session of `s` for the bank `name` in
/// `country` made with the application `app_id`.
pub open spec fn first_for_bank_and_app(s: Seq<SessionView>, name: Seq<char>, country: Seq<char>, app_id: Seq<char>, i: int) -> bool {
    &&& 0 <= i < s.len()
    &&& for_bank_and_app(s[i], name, country, app_id)
    &&& forall|j: int| 0 <= j < i ==> !for_bank_and_app(#[trigger] s[j], name, country, app_id)
}

/// All locally kept sessions, in the order they were added.
pub struct Sessions(pub Vec<Session>);

impl View for Sessions {
    type V = Seq<SessionView>;

    open spec fn view(&self) -> Seq<SessionView> {
        self.0@.map_values(|s: Session| s@)
    }
}

/// One step of pruning the sessions of an application: a session known to
/// be expired, or one whose remote status must be asked.
#[derive(Clone, Copy, Debug, PartialEq, Eq, Structural)]
pub struct PruneStep {
    pub session_id: EnableBankingSessionId,
    pub expired: bool,
}

impl Sessions {
    /// No sessions.
    pub fn new() -> (res: Sessions)
        ensures
            res@ == Seq::<SessionView>::empty(),
    {
        Sessions(Vec::new())
    }

    /// Keeps `session` after all others.
    pub fn add(&mut self, session: Session)
        ensures
            final(self)@ == old(self)@.push(session@),
    {
        self.0.push(session);
        assert(self@ =~= old(self)@.push(session@));
    }

    /// Drops every session whose id is `session_id`, keeping the others in order.
    pub fn remove(&mut self, session_id: &EnableBankingSessionId)
        ensures
            final(self)@ == without_session(old(self)@, session_id.0),
    {
        let ghost orig = self@;
        let mut rest: Vec<Session> = Vec::new();
        std::mem::swap(&mut rest, &mut self.0);
        let ghost rest0 = rest@;
        let total = rest.len();
        assert(rest0.map_values(|s: Session| s@) =~= orig);
        let mut k: usize = 0;
        while rest.len() > 0
            invariant
                rest0.map_values(|s: Session| s@) == orig,
                k <= rest0.len(),
                rest@ == rest0.skip(k as int),
                k + rest@.len() == rest0.len(),
                rest0.len() == total,
                self@ == without_session(orig.take(k as int), session_id.0),
            decreases rest.len(),
        {
            let s = rest.remove(0);
            proof {
                assert(orig.take(k + 1).drop_last() =~= orig.take(k as int));
                assert(orig.take(k + 1).last() == s@);
            }
            if s.session_id.0 != session_id.0 {
                let ghost before_push = self@;
                self.0.push(s);
                assert(self@ =~= before_push.push(s@));
            }
            k = k + 1;
        }
        assert(orig.take(k as int) =~= orig);
    }

    /// The first session for the bank `name` in `country`.
    pub fn find_by_bank(&self, name: &String, country: &String) -> (res: Option<&Session>)
        ensures
            match res {
                Some(s) => exists|i: int|
                    first_index(self@, |v: SessionView| for_bank(v, name@, country@), i) && s@ == self@[i],
                None => forall|i: int| 0 <= i < self@.len() ==> !for_bank(#[trigger] self@[i], name@, country@),
            },
    {
        let n = self.0.len();
        let mut i: usize = 0;
        while i < n
            invariant
                n == self@.len(),
                i <= n,
                forall|j: int| 0 <= j < i ==> !for_bank(#[trigger] self@[j], name@, country@),
            decreases n - i,
        {
            let s = &self.0[i];
            if s.aspsp_name.eq(name) && s.aspsp_country.eq(country) {
                assert(first_index(self@, |v: SessionView| for_bank(v, name@, country@), i as int));
                return Some(s);
            }
            i = i + 1;
        }
        None
    }

    /// The first session for the bank `name` in `country` made with the
    /// application `app_id`.
    pub fn find_by_bank_and_app(&self, name: &String, country: &String, app_id: &String) -> (res: Option<&Session>)
        ensures
            match res {
                Some(s) => exists|i: int|
                    #[trigger] first_for_bank_and_app(self@, name@, country@, app_id@, i) && s@ == self@[i],
                None => forall|i: int|
                    0 <= i < self@.len() ==> !for_bank_and_app(#[trigger] self@[i], name@, country@, app_id@),
            },
    {
        let n = self.0.len();
        let mut i: usize = 0;
        while i < n
            invariant
                n == self@.len(),
                i <= n,
                forall|j: int| 0 <= j < i ==> !for_bank_and_app(#[trigger] self@[j], name@, country@, app_id@),
            decreases n - i,
        {
            let s = &self.0[i];
            if s.aspsp_name.eq(name) && s.aspsp_country.eq(country) && s.app_id.eq(app_id) {
                assert(first_for_bank_and_app(self@, name@, country@, app_id@, i as int));
                return Some(s);
            }
            i = i + 1;
        }
        None
    }

    /// The first session that gives access to the account `account_id`.
    pub fn find_by_account_id(&self, account_id: &EnableBankingAccountId) -> (res: Option<&Session>)
        ensures
            match res {
                Some(s) => exists|i: int|
                    first_index(self@, |v: SessionView| covers_account(v, account_id.0), i) && s@ == self@[i],
                None => forall|i: int| 0 <= i < self@.len() ==> !covers_account(#[trigger] self@[i], account_id.0),
            },
    {
        let n = self.0.len();
        let mut i: usize = 0;
        while i < n
            invariant
                n == self@.len(),
                i <= n,
                forall|j: int| 0 <= j < i ==> !covers_account(#[trigger] self@[j], account_id.0),
            decreases n - i,
        {
            let s = &self.0[i];
            let m = s.accounts.len();
            let mut k: usize = 0;
            while k < m
                invariant
                    n == self@.len(),
                    i < n,
                    self.0@[i as int] == *s,
                    forall|j: int| 0 <= j < i ==> !covers_account(#[trigger] self@[j], account_id.0),
                    m == s.accounts@.len(),
                    k <= m,
                    forall|j: int| 0 <= j < k ==> s.accounts@[j].0 != account_id.0,
                decreases m - k,
            {
                if s.accounts[k].0 == account_id.0 {
                    proof {
                        assert(s@.accounts[k as int] == account_id.0);
                        assert(covers_account(s@, account_id.0));
                        assert(self@[i as int] == s@);
                        assert(first_index(self@, |v: SessionView| covers_account(v, account_id.0), i as int));
                    }
                    return Some(s);
                }
                k = k + 1;
            }
            proof {
                assert forall|j: int| 0 <= j < s@.accounts.len() implies s@.accounts[j] != account_id.0 by {
                    assert(s@.accounts[j] == s.accounts@[j].0);
                }
                assert(self@[i as int] == s@);
            }
            i = i + 1;
        }
        None
    }
}


/// The sessions of `s` whose id is none of `ids` (removed one id after the
/// other).
pub open spec fn without_sessions(s: Seq<SessionView>, ids: Seq<u128>) -> Seq<SessionView>
    decreases ids.len(),
{
    if ids.len() == 0 {
        s
    } else {
        without_session(without_sessions(s, ids.drop_last()), ids.last())
    }
}

/// The steps of pruning the sessions of `s` made with the application `app_id`
/// at `now`: one per such session, in order, saying whether it has expired.
pub open spec fn prune_steps(s: Seq<SessionView>, app_id: Seq<char>, now: Timestamp) -> Seq<(u128, bool)>
    decreases s.len(),
{
    if s.len() == 0 {
        Seq::empty()
    } else {
        let rest = prune_steps(s.drop_last(), app_id, now);
        if s.last().app_id == app_id {
            rest.push((s.last().session_id, !before(now, s.last().valid_until)))
        } else {
            rest
        }
    }
}

/// What asking Enable Banking for a session's status gave.
#[derive(Clone, Copy, Debug, PartialEq, Eq, Structural)]
pub enum RemoteSessionCheck {
    /// The session is authorized.
    Authorized,
    /// The session is in another state.
    NotAuthorized,
    /// The status could not be asked.
    Failed,
}

/// Whether the session of a prune step is stale: expired, or known not to be
/// authorized (a failed check keeps it).
pub open spec fn step_is_stale(expired: bool, check: RemoteSessionCheck) -> bool {
    expired || check == RemoteSessionCheck::NotAuthorized
}

/// The ids of the stale sessions among `steps`, in order.
pub open spec fn stale_ids_spec(steps: Seq<PruneStep>, checks: Seq<RemoteSessionCheck>) -> Seq<u128>
    decreases steps.len(),
{
    if steps.len() == 0 {
        Seq::empty()
    } else {
        let rest = stale_ids_spec(steps.drop_last(), checks.take(steps.len() - 1));
        if step_is_stale(steps.last().expired, checks[steps.len() - 1]) {
            rest.push(steps.last().session_id.0)
        } else {
            rest
        }
    }
}

/// The key under which a session is kept: bank name, country, application.
pub open spec fn same_key(a: SessionView, b: SessionView) -> bool {
    for_bank_and_app(a, b.aspsp_name, b.aspsp_country, b.app_id)
}

/// No two sessions of `s` are for the same bank and application.
pub open spec fn one_per_bank_and_app(s: Seq<SessionView>) -> bool {
    forall|i: int, j: int| 0 <= i < j < s.len() ==> !same_key(#[trigger] s[i], #[trigger] s[j])
}

/// `s` after a new authorization `new`: the session for the same bank and
/// application, if any, is dropped (with every session of its id), and `new`
/// comes last.
pub open spec fn replaced_for_bank_and_app(s: Seq<SessionView>, new: SessionView) -> Seq<SessionView> {
    if exists|i: int| #[trigger] first_for_bank_and_app(s, new.aspsp_name, new.aspsp_country, new.app_id, i) {
        let i = choose|i: int| #[trigger] first_for_bank_and_app(s, new.aspsp_name, new.aspsp_country, new.app_id, i);
        without_session(s, s[i].session_id).push(new)
    } else {
        s.push(new)
    }
}

impl Sessions {
    /// The steps of pruning the sessions made with the application `app_id`,
    /// at `now`.
    pub fn prune_plan(&self, app_id: &String, now: Timestamp) -> (res: Vec<PruneStep>)
        ensures
            res@.map_values(|p: PruneStep| (p.session_id.0, p.expired)) == prune_steps(self@, app_id@, now),
    {
        let n = self.0.len();
        let mut steps: Vec<PruneStep> = Vec::new();
        let mut i: usize = 0;
        while i < n
            invariant
                n == self@.len(),
                i <= n,
                steps@.map_values(|p: PruneStep| (p.session_id.0, p.expired)) == prune_steps(
                    self@.take(i as int),
                    app_id@,
                    now,
                ),
            decreases n - i,
        {
            let s = &self.0[i];
            proof {
                assert(self@.take(i + 1).drop_last() =~= self@.take(i as int));
                assert(self@.take(i + 1).last() == s@);
            }
            if s.app_id.eq(app_id) {
                let ghost prev = steps@;
                steps.push(PruneStep { session_id: s.session_id, expired: s.is_expired_at(now) });
                assert(steps@.map_values(|p: PruneStep| (p.session_id.0, p.expired)) =~= prev.map_values(
                    |p: PruneStep| (p.session_id.0, p.expired),
                ).push((s@.session_id, !before(now, s@.valid_until))));
            }
            i = i + 1;
        }
        assert(self@.take(n as int) =~= self@);
        steps
    }

    /// Drops the sessions with the given ids; tells whether there were any ids.
    pub fn remove_all(&mut self, ids: &Vec<EnableBankingSessionId>) -> (res: bool)
        ensures
            final(self)@ == without_sessions(old(self)@, ids@.map_values(|id: EnableBankingSessionId| id.0)),
            res == (ids@.len() > 0),
    {
        let ghost orig = self@;
        let ghost all = ids@.map_values(|id: EnableBankingSessionId| id.0);
        let n = ids.len();
        let mut i: usize = 0;
        while i < n
            invariant
                n == ids@.len(),
                i <= n,
                all == ids@.map_values(|id: EnableBankingSessionId| id.0),
                self@ == without_sessions(orig, all.take(i as int)),
            decreases n - i,
        {
            proof {
                assert(all.take(i + 1).drop_last() =~= all.take(i as int));
            }
            self.remove(&ids[i]);
            i = i + 1;
        }
        assert(all.take(n as int) =~= all);
        n > 0
    }

    /// Replaces the session for the bank and application of `session` (if
    /// any) by `session`, which comes last.
    pub fn replace_for_bank_and_app(&mut self, session: Session)
        ensures
            final(self)@ == replaced_for_bank_and_app(old(self)@, session@),
    {
        let ghost orig = self@;
        let found = match self.find_by_bank_and_app(&session.aspsp_name, &session.aspsp_country, &session.app_id) {
            Some(old) => Some(old.session_id),
            None => None,
        };
        match found {
            Some(id) => {
                proof {
                    let new = session@;
                    let i = choose|i: int|
                        #[trigger] first_for_bank_and_app(orig, new.aspsp_name, new.aspsp_country, new.app_id, i)
                            && id.0 == orig[i].session_id;
                    lemma_first_unique(orig, new, i);
                }
                self.remove(&id);
            },
            None => {},
        }
        self.add(session);
    }
}

/// A first index is unique.
proof fn lemma_first_unique(s: Seq<SessionView>, key: SessionView, i: int)
    requires
        first_for_bank_and_app(s, key.aspsp_name, key.aspsp_country, key.app_id, i),
    ensures
        forall|k: int| #[trigger] first_for_bank_and_app(s, key.aspsp_name, key.aspsp_country, key.app_id, k) ==> k == i,
{
    assert forall|k: int| #[trigger] first_for_bank_and_app(s, key.aspsp_name, key.aspsp_country, key.app_id, k) implies k == i by {
        if k < i {
            assert(!for_bank_and_app(s[k], key.aspsp_name, key.aspsp_country, key.app_id));
        }
        if k > i {
            assert(!for_bank_and_app(s[i], key.aspsp_name, key.aspsp_country, key.app_id));
        }
    }
}

/// Where some session has the key of `key`, a first one does.
proof fn lemma_some_first(s: Seq<SessionView>, key: SessionView, k: int)
    requires
        0 <= k < s.len(),
        same_key(s[k], key),
    ensures
        exists|i: int| #[trigger] first_for_bank_and_app(s, key.aspsp_name, key.aspsp_country, key.app_id, i),
    decreases k,
{
    if forall|j: int| 0 <= j < k ==> !for_bank_and_app(#[trigger] s[j], key.aspsp_name, key.aspsp_country, key.app_id) {
        assert(first_for_bank_and_app(s, key.aspsp_name, key.aspsp_country, key.app_id, k));
    } else {
        let j = choose|j: int| 0 <= j < k && for_bank_and_app(#[trigger] s[j], key.aspsp_name, key.aspsp_country, key.app_id);
        lemma_some_first(s, key, j);
    }
}

/// What dropping the sessions of an id keeps: exactly the sessions with
/// another id.
pub proof fn lemma_without_session_contains(s: Seq<SessionView>, id: u128, x: SessionView)
    ensures
        without_session(s, id).contains(x) <==> (s.contains(x) && x.session_id != id),
    decreases s.len(),
{
    if s.len() > 0 {
        let t = s.drop_last();
        lemma_without_session_contains(t, id, x);
        let rest = without_session(t, id);
        let w = without_session(s, id);
        if s.contains(x) && x.session_id != id {
            let k = choose|k: int| 0 <= k < s.len() && s[k] == x;
            if k < s.len() - 1 {
                assert(t[k] == x);
                assert(t.contains(x));
                let m = choose|m: int| 0 <= m < rest.len() && rest[m] == x;
                if s.last().session_id != id {
                    assert(w[m] == x);
                } else {
                    assert(w[m] == x);
                }
                assert(w.contains(x));
            } else {
                assert(s.last() == x);
                assert(w == rest.push(x));
                assert(w[rest.len() as int] == x);
                assert(w.contains(x));
            }
        }
        if w.contains(x) {
            let k = choose|k: int| 0 <= k < w.len() && w[k] == x;
            if s.last().session_id != id {
                assert(w == rest.push(s.last()));
                if k < rest.len() {
                    assert(rest[k] == x);
                    assert(rest.contains(x));
                    let m = choose|m: int| 0 <= m < t.len() && t[m] == x;
                    assert(s[m] == x);
                } else {
                    assert(s[s.len() - 1] == x);
                }
            } else {
                assert(w == rest);
                assert(rest.contains(x));
                let m = choose|m: int| 0 <= m < t.len() && t[m] == x;
                assert(s[m] == x);
            }
        }
    }
}

/// Dropping the sessions of an id keeps at most one session per bank and
/// application.
pub proof fn lemma_without_session_keeps_one_per_key(s: Seq<SessionView>, id: u128)
    requires
        one_per_bank_and_app(s),
    ensures
        one_per_bank_and_app(without_session(s, id)),
    decreases s.len(),
{
    if s.len() > 0 {
        let t = s.drop_last();
        assert(one_per_bank_and_app(t)) by {
            assert forall|i: int, j: int| 0 <= i < j < t.len() implies !same_key(#[trigger] t[i], #[trigger] t[j]) by {
                assert(t[i] == s[i] && t[j] == s[j]);
            }
        }
        lemma_without_session_keeps_one_per_key(t, id);
        let rest = without_session(t, id);
        if s.last().session_id != id {
            let x = s.last();
            let r = rest.push(x);
            assert forall|i: int, j: int| 0 <= i < j < r.len() implies !same_key(#[trigger] r[i], #[trigger] r[j]) by {
                if j == r.len() - 1 {
                    assert(r[j] == x);
                    assert(r[i] == rest[i]);
                    assert(rest.contains(rest[i]));
                    lemma_without_session_contains(t, id, rest[i]);
                    let m = choose|m: int| 0 <= m < t.len() && t[m] == rest[i];
                    assert(s[m] == rest[i]);
                    assert(!same_key(s[m], s[s.len() - 1]));
                } else {
                    assert(r[i] == rest[i] && r[j] == rest[j]);
                }
            }
        }
    }
}

/// A new authorization leaves exactly one session for its bank and
/// application, the new one, when there was at most one before.
pub proof fn lemma_replace_keeps_one_per_key(s: Seq<SessionView>, new: SessionView)
    requires
        one_per_bank_and_app(s),
    ensures
        one_per_bank_and_app(replaced_for_bank_and_app(s, new)),
        replaced_for_bank_and_app(s, new).last() == new,
        forall|i: int|
            0 <= i < replaced_for_bank_and_app(s, new).len() - 1 ==> !same_key(
                #[trigger] replaced_for_bank_and_app(s, new)[i],
                new,
            ),
{
    let r = replaced_for_bank_and_app(s, new);
    if exists|i: int| #[trigger] first_for_bank_and_app(s, new.aspsp_name, new.aspsp_country, new.app_id, i) {
        let i = choose|i: int| #[trigger] first_for_bank_and_app(s, new.aspsp_name, new.aspsp_country, new.app_id, i);
        let id = s[i].session_id;
        let w = without_session(s, id);
        lemma_without_session_keeps_one_per_key(s, id);
        assert(r == w.push(new));
        assert forall|k: int| 0 <= k < w.len() implies !same_key(#[trigger] w[k], new) by {
            assert(w.contains(w[k]));
            lemma_without_session_contains(s, id, w[k]);
            let m = choose|m: int| 0 <= m < s.len() && s[m] == w[k];
            if same_key(w[k], new) {
                if m < i {
                    assert(!same_key(s[m], new));
                } else if m > i {
                    assert(same_key(s[i], s[m])) by {
                        assert(same_key(s[i], new));
                    }
                } else {
                    assert(s[m].session_id == id);
                }
            }
        }
        assert forall|a: int, b: int| 0 <= a < b < r.len() implies !same_key(#[trigger] r[a], #[trigger] r[b]) by {
            if b == r.len() - 1 {
                assert(r[a] == w[a]);
                assert(r[b] == new);
                assert(!same_key(w[a], new));
            } else {
                assert(r[a] == w[a] && r[b] == w[b]);
            }
        }
        assert forall|k: int| 0 <= k < r.len() - 1 implies !same_key(#[trigger] r[k], new) by {
            assert(r[k] == w[k]);
        }
    } else {
        assert(r == s.push(new));
        assert forall|k: int| 0 <= k < s.len() implies !same_key(#[trigger] s[k], new) by {
            if same_key(s[k], new) {
                lemma_some_first(s, new, k);
            }
        }
        assert forall|a: int, b: int| 0 <= a < b < r.len() implies !same_key(#[trigger] r[a], #[trigger] r[b]) by {
            if b == r.len() - 1 {
                assert(r[a] == s[a]);
            } else {
                assert(r[a] == s[a] && r[b] == s[b]);
            }
        }
        assert forall|k: int| 0 <= k < r.len() - 1 implies !same_key(#[trigger] r[k], new) by {
            assert(r[k] == s[k]);
        }
    }
}


/// The ids of the stale sessions among the prune steps `steps`, given the
/// remote check made for each step (ignored for expired ones), in order.
pub fn stale_ids(steps: &Vec<PruneStep>, checks: &Vec<RemoteSessionCheck>) -> (res: Vec<EnableBankingSessionId>)
    requires
        checks@.len() == steps@.len(),
    ensures
        res@.map_values(|id: EnableBankingSessionId| id.0) == stale_ids_spec(steps@, checks@),
{
    let n = steps.len();
    let mut ids: Vec<EnableBankingSessionId> = Vec::new();
    let mut i: usize = 0;
    while i < n
        invariant
            n == steps@.len(),
            checks@.len() == n,
            i <= n,
            ids@.map_values(|id: EnableBankingSessionId| id.0) == stale_ids_spec(
                steps@.take(i as int),
                checks@.take(i as int),
            ),
        decreases n - i,
    {
        proof {
            assert(steps@.take(i + 1).drop_last() =~= steps@.take(i as int));
            assert(checks@.take(i + 1).take(i as int) =~= checks@.take(i as int));
            assert(checks@.take(i + 1)[i as int] == checks@[i as int]);
        }
        let step = steps[i];
        let stale = step.expired || checks[i] == RemoteSessionCheck::NotAuthorized;
        if stale {
            let ghost prev = ids@;
            ids.push(step.session_id);
            assert(ids@.map_values(|id: EnableBankingSessionId| id.0) =~= prev.map_values(
                |id: EnableBankingSessionId| id.0,
            ).push(step.session_id.0));
        }
        i = i + 1;
    }
    assert(steps@.take(n as int) =~= steps@);
    assert(checks@.take(n as int) =~= checks@);
    ids
}

/// No dropped id survives: after dropping the sessions of each of `ids`, no
/// kept session has one of them, and every session with another id is kept.
pub proof fn lemma_without_sessions_contains(s: Seq<SessionView>, ids: Seq<u128>, x: SessionView)
    ensures
        without_sessions(s, ids).contains(x) <==> (s.contains(x) && !ids.contains(x.session_id)),
    decreases ids.len(),
{
    if ids.len() > 0 {
        let d = ids.drop_last();
        lemma_without_sessions_contains(s, d, x);
        lemma_without_session_contains(without_sessions(s, d), ids.last(), x);
        if ids.contains(x.session_id) {
            let k = choose|k: int| 0 <= k < ids.len() && ids[k] == x.session_id;
            if k < ids.len() - 1 {
                assert(d[k] == x.session_id);
            }
        }
        if d.contains(x.session_id) {
            let k = choose|k: int| 0 <= k < d.len() && d[k] == x.session_id;
            assert(ids[k] == x.session_id);
        }
        if x.session_id == ids.last() {
            assert(ids[ids.len() - 1] == x.session_id);
        }
    }
}

/// No two sessions share an id.
pub open spec fn unique_ids(s: Seq<SessionView>) -> bool {
    forall|i: int, j: int| 0 <= i < s.len() && 0 <= j < s.len() && i != j ==> (#[trigger] s[i]).session_id
        != (#[trigger] s[j]).session_id
}

/// The prune step made for a session at `now`.
pub open spec fn step_of(x: SessionView, now: Timestamp) -> (u128, bool) {
    (x.session_id, !before(now, x.valid_until))
}

/// Whether `step` is the prune step of one of the sessions `s` of the
/// application `app_id`.
pub open spec fn step_from_session(step: (u128, bool), s: Seq<SessionView>, app_id: Seq<char>, now: Timestamp) -> bool {
    exists|i: int| 0 <= i < s.len() && (#[trigger] s[i]).app_id == app_id && step == step_of(s[i], now)
}

proof fn lemma_prune_steps_sources(s: Seq<SessionView>, app_id: Seq<char>, now: Timestamp)
    ensures
        forall|k: int|
            0 <= k < prune_steps(s, app_id, now).len() ==> #[trigger] step_from_session(
                prune_steps(s, app_id, now)[k],
                s,
                app_id,
                now,
            ),
        forall|i: int|
            0 <= i < s.len() && (#[trigger] s[i]).app_id == app_id ==> prune_steps(s, app_id, now).contains(
                step_of(s[i], now),
            ),
        unique_ids(s) ==> forall|a: int, b: int|
            0 <= a < prune_steps(s, app_id, now).len() && 0 <= b < prune_steps(s, app_id, now).len() && a != b
                ==> (#[trigger] prune_steps(s, app_id, now)[a]).0 != (#[trigger] prune_steps(s, app_id, now)[b]).0,
    decreases s.len(),
{
    if s.len() > 0 {
        let t = s.drop_last();
        lemma_prune_steps_sources(t, app_id, now);
        let pt = prune_steps(t, app_id, now);
        let p = prune_steps(s, app_id, now);
        let last = s.len() - 1;
        assert(s[last] == s.last());
        if s.last().app_id == app_id {
            assert(p == pt.push(step_of(s.last(), now)));
        } else {
            assert(p == pt);
        }
        assert forall|k: int| 0 <= k < p.len() implies #[trigger] step_from_session(p[k], s, app_id, now) by {
            if k < pt.len() {
                assert(p[k] == pt[k]);
                assert(step_from_session(pt[k], t, app_id, now));
                let i = choose|i: int| 0 <= i < t.len() && (#[trigger] t[i]).app_id == app_id && pt[k] == step_of(t[i], now);
                assert(s[i] == t[i]);
            } else {
                assert(p[k] == step_of(s[last], now));
            }
        }
        assert forall|i: int| 0 <= i < s.len() && (#[trigger] s[i]).app_id == app_id implies p.contains(
            step_of(s[i], now),
        ) by {
            if i < t.len() {
                assert(t[i] == s[i]);
                assert(pt.contains(step_of(t[i], now)));
                let k = choose|k: int| 0 <= k < pt.len() && pt[k] == step_of(t[i], now);
                assert(p[k] == pt[k]);
            } else {
                assert(p[p.len() - 1] == step_of(s.last(), now));
            }
        }
        if unique_ids(s) {
            assert(unique_ids(t)) by {
                assert forall|i: int, j: int| 0 <= i < t.len() && 0 <= j < t.len() && i != j implies (#[trigger] t[i]).session_id
                    != (#[trigger] t[j]).session_id by {
                    assert(t[i] == s[i] && t[j] == s[j]);
                }
            }
            assert forall|a: int, b: int| 0 <= a < p.len() && 0 <= b < p.len() && a != b implies (#[trigger] p[a]).0
                != (#[trigger] p[b]).0 by {
                if a < pt.len() && b < pt.len() {
                    assert(p[a] == pt[a] && p[b] == pt[b]);
                } else {
                    let (inner, outer) = if a < pt.len() { (a, b) } else { (b, a) };
                    assert(p[inner] == pt[inner]);
                    assert(step_from_session(pt[inner], t, app_id, now));
                    let i = choose|i: int| 0 <= i < t.len() && (#[trigger] t[i]).app_id == app_id && pt[inner] == step_of(t[i], now);
                    assert(s[i] == t[i]);
                    assert(p[outer] == step_of(s.last(), now));
                    assert(s[i].session_id != s[last].session_id);
                }
            }
        }
    }
}

proof fn lemma_stale_ids_contains(steps: Seq<PruneStep>, checks: Seq<RemoteSessionCheck>, id: u128)
    requires
        checks.len() == steps.len(),
    ensures
        stale_ids_spec(steps, checks).contains(id) <==> exists|k: int|
            0 <= k < steps.len() && (#[trigger] steps[k]).session_id.0 == id && step_is_stale(
                steps[k].expired,
                checks[k],
            ),
    decreases steps.len(),
{
    if steps.len() > 0 {
        let d = steps.drop_last();
        let c = checks.take(steps.len() - 1);
        lemma_stale_ids_contains(d, c, id);
        let rest = stale_ids_spec(d, c);
        let r = stale_ids_spec(steps, checks);
        if r.contains(id) {
            let m = choose|m: int| 0 <= m < r.len() && r[m] == id;
            if m < rest.len() {
                assert(r[m] == rest[m]);
                assert(rest.contains(id));
                let k = choose|k: int| 0 <= k < d.len() && (#[trigger] d[k]).session_id.0 == id && step_is_stale(d[k].expired, c[k]);
                assert(steps[k] == d[k] && checks[k] == c[k]);
            } else {
                assert(steps[steps.len() - 1] == steps.last());
            }
        }
        if exists|k: int| 0 <= k < steps.len() && (#[trigger] steps[k]).session_id.0 == id && step_is_stale(steps[k].expired, checks[k]) {
            let k = choose|k: int| 0 <= k < steps.len() && (#[trigger] steps[k]).session_id.0 == id && step_is_stale(steps[k].expired, checks[k]);
            if k < d.len() {
                assert(d[k] == steps[k] && c[k] == checks[k]);
                assert(rest.contains(id));
                let m = choose|m: int| 0 <= m < rest.len() && rest[m] == id;
                if step_is_stale(steps.last().expired, checks[steps.len() - 1]) {
                    assert(r[m] == rest[m]);
                } else {
                    assert(r[m] == rest[m]);
                }
            } else {
                assert(r.last() == id);
                assert(r[r.len() - 1] == id);
            }
        }
    }
}

/// Pruning an application's sessions removes exactly its sessions that have
/// expired or that the API reports as no longer authorized: a session whose
/// check failed is kept, and so is every session of another application
/// (`steps` are the prune steps of the sessions, `checks` the remote answers
/// for them, session ids are distinct).
pub proof fn lemma_prune_removes_only_stale(
    s: Seq<SessionView>,
    app_id: Seq<char>,
    now: Timestamp,
    steps: Seq<PruneStep>,
    checks: Seq<RemoteSessionCheck>,
    i: int,
)
    requires
        steps.map_values(|p: PruneStep| (p.session_id.0, p.expired)) == prune_steps(s, app_id, now),
        checks.len() == steps.len(),
        unique_ids(s),
        0 <= i < s.len(),
    ensures
        s[i].app_id != app_id ==> without_sessions(
            s,
            stale_ids_spec(steps, checks),
        ).contains(s[i]),
        s[i].app_id == app_id ==> exists|k: int|
            {
                &&& 0 <= k < steps.len()
                &&& (#[trigger] steps[k]).session_id.0 == s[i].session_id
                &&& steps[k].expired == !before(now, s[i].valid_until)
                &&& (without_sessions(s, stale_ids_spec(steps, checks)).contains(s[i]) <==> !step_is_stale(
                    steps[k].expired,
                    checks[k],
                ))
            },
{
    let x = s[i];
    let p = prune_steps(s, app_id, now);
    let stale = stale_ids_spec(steps, checks);
    lemma_prune_steps_sources(s, app_id, now);
    lemma_without_sessions_contains(s, stale, x);
    lemma_stale_ids_contains(steps, checks, x.session_id);
    assert(s.contains(x)) by {
        assert(s[i] == x);
    }
    assert(steps.len() == p.len());
    assert forall|k: int| 0 <= k < steps.len() implies (#[trigger] steps[k]).session_id.0 == p[k].0 && steps[k].expired == p[k].1 by {
        assert(steps.map_values(|q: PruneStep| (q.session_id.0, q.expired))[k] == (steps[k].session_id.0, steps[k].expired));
    }
    if x.app_id != app_id {
        if stale.contains(x.session_id) {
            let k = choose|k: int| 0 <= k < steps.len() && (#[trigger] steps[k]).session_id.0 == x.session_id && step_is_stale(steps[k].expired, checks[k]);
            assert(step_from_session(p[k], s, app_id, now));
            let j = choose|j: int| 0 <= j < s.len() && (#[trigger] s[j]).app_id == app_id && p[k] == step_of(s[j], now);
            assert(s[j].session_id == x.session_id);
            assert(j != i);
        }
    } else {
        assert(p.contains(step_of(s[i], now)));
        let k = choose|k: int| 0 <= k < p.len() && p[k] == step_of(s[i], now);
        assert(steps[k].session_id.0 == x.session_id);
        if stale.contains(x.session_id) {
            let k2 = choose|k2: int| 0 <= k2 < steps.len() && (#[trigger] steps[k2]).session_id.0 == x.session_id && step_is_stale(steps[k2].expired, checks[k2]);
            if k2 != k {
                assert(p[k2].0 == p[k].0);
            }
        }
        assert(steps[k].session_id.0 == s[i].session_id && steps[k].expired == !before(now, s[i].valid_until));
    }
}

} // verus!
