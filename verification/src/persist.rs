//! The session store behind the dashboard: user sessions keyed by user
//! name, with expiry, and the `name--token` cookie framing the callback
//! handler issues.

use vstd::prelude::*;

verus! {

/// One signed-in dashboard user.
pub struct UserSession {
    pub name: String,
    pub session_id: String,
    pub expires_at: i64,
}

/// Mathematical model of a `UserSession`.
pub struct SessionView {
    pub name: Seq<char>,
    pub session_id: Seq<char>,
    pub expires_at: i64,
}

impl View for UserSession {
    type V = SessionView;

    open spec fn view(&self) -> SessionView {
        SessionView {
            name: self.name@,
            session_id: self.session_id@,
            expires_at: self.expires_at,
        }
    }
}

impl Clone for UserSession {
    /// Cloning preserves the session model.
    fn clone(&self) -> (r: Self)
        ensures
            r@ == self@,
    {
        UserSession {
            name: self.name.clone(),
            session_id: self.session_id.clone(),
            expires_at: self.expires_at,
        }
    }
}

/// Some session belongs to this user name.
pub open spec fn has_session(s: Seq<SessionView>, name: Seq<char>) -> bool {
    exists|i: int| 0 <= i < s.len() && #[trigger] s[i].name == name
}

/// The index of this user's session (unique under `persist_wf`).
pub open spec fn session_index(s: Seq<SessionView>, name: Seq<char>) -> int {
    choose|i: int| 0 <= i < s.len() && #[trigger] s[i].name == name
}

/// Store consistency: one session per user name.
pub open spec fn persist_wf(s: Seq<SessionView>) -> bool {
    forall|i: int, j: int| 0 <= i < j < s.len() ==> #[trigger] s[i].name != #[trigger] s[j].name
}

/// Effect of adding a session: replace the user's session, or append one.
pub open spec fn spec_add(s: Seq<SessionView>, session: SessionView) -> Seq<SessionView> {
    if has_session(s, session.name) {
        s.update(session_index(s, session.name), session)
    } else {
        s.push(session)
    }
}

/// The subsequence of sessions a predicate keeps, order preserved.
pub open spec fn filter_keep(s: Seq<SessionView>, p: spec_fn(SessionView) -> bool) -> Seq<SessionView>
    decreases s.len(),
{
    if s.len() == 0 {
        Seq::empty()
    } else if p(s.last()) {
        filter_keep(s.drop_last(), p).push(s.last())
    } else {
        filter_keep(s.drop_last(), p)
    }
}

/// Every kept session was in the store.
pub proof fn lemma_filter_keep_membership(s: Seq<SessionView>, p: spec_fn(SessionView) -> bool)
    ensures
        forall|x: SessionView| #[trigger] filter_keep(s, p).contains(x) ==> s.contains(x),
    decreases s.len(),
{
    if s.len() > 0 {
        lemma_filter_keep_membership(s.drop_last(), p);
        assert forall|x: SessionView| #[trigger] filter_keep(s, p).contains(x) implies s.contains(
            x,
        ) by {
            if filter_keep(s.drop_last(), p).contains(x) {
                let j = choose|j: int|
                    0 <= j < s.drop_last().len() && s.drop_last()[j] == x;
                assert(s[j] == x);
            } else {
                assert(x == s.last());
                assert(s[s.len() - 1] == x);
            }
        }
    }
}

/// Keeping a subsequence keeps name uniqueness.
pub proof fn lemma_filter_keep_wf(s: Seq<SessionView>, p: spec_fn(SessionView) -> bool)
    requires
        persist_wf(s),
    ensures
        persist_wf(filter_keep(s, p)),
    decreases s.len(),
{
    if s.len() > 0 {
        assert(persist_wf(s.drop_last()));
        lemma_filter_keep_wf(s.drop_last(), p);
        lemma_filter_keep_membership(s.drop_last(), p);
        if p(s.last()) {
            let f = filter_keep(s.drop_last(), p).push(s.last());
            assert forall|i: int, j: int| 0 <= i < j < f.len() implies f[i].name != f[j].name by {
                if j == f.len() - 1 {
                    assert(filter_keep(s.drop_last(), p).contains(f[i]));
                    let t = choose|t: int|
                        0 <= t < s.drop_last().len() && s.drop_last()[t] == f[i];
                    assert(s[t] == f[i]);
                    assert(s[t].name != s[s.len() - 1].name);
                }
            }
        }
    }
}

/// Effect of removing the session carrying a session id.
pub open spec fn spec_delete(s: Seq<SessionView>, session_id: Seq<char>) -> Seq<SessionView> {
    filter_keep(s, |u: SessionView| u.session_id != session_id)
}

/// Effect of expiring: only sessions that live past `now` stay.
pub open spec fn spec_expire(s: Seq<SessionView>, now: i64) -> Seq<SessionView> {
    filter_keep(s, |u: SessionView| u.expires_at >= now)
}

/// Index of the first separator pair `--` at or after position `i`
/// (`c.len()` when there is none).
pub open spec fn first_sep_from(c: Seq<char>, i: int) -> int
    decreases c.len() - i when 0 <= i <= c.len()
{
    if i + 2 > c.len() {
        c.len() as int
    } else if c[i] == '-' && c[i + 1] == '-' {
        i
    } else {
        first_sep_from(c, i + 1)
    }
}

/// The separator scan finds the least separator position.
pub proof fn lemma_first_sep(c: Seq<char>, i: int)
    requires
        0 <= i <= c.len(),
    ensures
        i <= first_sep_from(c, i) <= c.len(),
        first_sep_from(c, i) < c.len() ==> first_sep_from(c, i) + 1 < c.len() && c[first_sep_from(
            c,
            i,
        )] == '-' && c[first_sep_from(c, i) + 1] == '-',
        forall|k: int|
            i <= k < first_sep_from(c, i) && k + 1 < c.len() ==> !(#[trigger] c[k] == '-' && c[k
                + 1] == '-'),
    decreases c.len() - i,
{
    if i + 2 <= c.len() && !(c[i] == '-' && c[i + 1] == '-') {
        lemma_first_sep(c, i + 1);
    }
}

/// How a cookie splits at its first `--` separator: the part before it
/// and the part after it, or nothing when no separator occurs.
pub open spec fn spec_split_cookie(c: Seq<char>) -> Option<(Seq<char>, Seq<char>)> {
    let k = first_sep_from(c, 0);
    if k == c.len() {
        Option::None
    } else {
        Option::Some((c.take(k), c.skip(k + 2)))
    }
}

/// Frames a user name and a session token as the `name--token` cookie
/// value.
pub fn format_session_cookie(name: &str, session_id: &str) -> (r: String)
    ensures
        r@ == name@ + "--"@ + session_id@,
{
    let mut out = name.to_owned();
    out.append("--");
    out.append(session_id);
    out
}

/// Splits a cookie value at its first `--` separator; `None` for a value
/// that carries no separator.
#[verifier::loop_isolation(false)]
pub fn parse_session_cookie(cookie: &str) -> (r: Option<(String, String)>)
    ensures
        (match spec_split_cookie(cookie@) {
            Option::Some((name, sid)) => r matches Some(p) && p.0@ == name && p.1@ == sid,
            Option::None => r is None,
        }),
{
    let c = cookie;
    let n = c.unicode_len();
    let mut i: usize = 0;
    proof {
        lemma_first_sep(c@, 0);
    }
    while i < n && i + 1 < n
        invariant
            i <= n,
            forall|k: int| 0 <= k < i && k + 1 < n ==> !(#[trigger] c@[k] == '-' && c@[k + 1] == '-'),
        decreases n - i,
    {
        let a = c.get_char(i);
        let b = c.get_char(i + 1);
        if a == '-' && b == '-' {
            proof {
                let f = first_sep_from(c@, 0);
                assert(c@[i as int] == '-' && c@[i as int + 1] == '-');
                assert(f == i) by {
                    if f < i {
                        assert(c@[f] == '-' && c@[f + 1] == '-');
                        assert(!(c@[f] == '-' && c@[f + 1] == '-'));
                    }
                }
            }
            let name = c.substring_char(0, i);
            let sid = c.substring_char(i + 2, n);
            proof {
                assert(name@ =~= c@.take(i as int));
                assert(sid@ =~= c@.skip(i as int + 2));
            }
            return Option::Some((name.to_owned(), sid.to_owned()));
        }
        i = i + 1;
    }
    proof {
        let f = first_sep_from(c@, 0);
        assert(f == c@.len()) by {
            if f < c@.len() {
                assert(c@[f] == '-' && c@[f + 1] == '-');
                assert(!(c@[f] == '-' && c@[f + 1] == '-'));
            }
        }
    }
    Option::None
}

/// Law: the cookie framing round-trips. Splitting `name--token` yields
/// the name and the token back, provided the name holds no `--` of its
/// own and does not end in `-`.
pub proof fn lemma_cookie_round_trip(name: Seq<char>, session_id: Seq<char>)
    requires
        forall|i: int| 0 <= i < name.len() - 1 ==> !(#[trigger] name[i] == '-' && name[i + 1] == '-'),
        name.len() > 0 ==> name.last() != '-',
    ensures
        spec_split_cookie(name + "--"@ + session_id) == Option::Some((name, session_id)),
{
    reveal_strlit("--");
    let c = name + "--"@ + session_id;
    assert("--"@.len() == 2);
    assert("--"@[0] == '-' && "--"@[1] == '-');
    let m = name.len() as int;
    assert(c[m] == '-' && c[m + 1] == '-');
    lemma_first_sep(c, 0);
    let f = first_sep_from(c, 0);
    assert(forall|k: int| 0 <= k < m - 1 ==> #[trigger] c[k] == name[k] && c[k + 1] == name[k + 1]);
    assert(f == m) by {
        if f < m {
            if f < m - 1 {
                assert(!(name[f] == '-' && name[f + 1] == '-'));
            } else {
                assert(c[f] == name.last());
            }
        }
        if f > m {
            assert(!(c[m] == '-' && c[m + 1] == '-'));
        }
    }
    assert(c.take(m) =~= name);
    assert(c.skip(m + 2) =~= session_id);
}

/// The persisted session store.
pub struct Persist {
    pub user_sessions: Vec<UserSession>,
}

impl View for Persist {
    type V = Seq<SessionView>;

    open spec fn view(&self) -> Seq<SessionView> {
        self.user_sessions@.map_values(|u: UserSession| u@)
    }
}

impl Persist {
    /// An empty session store.
    pub fn new() -> (r: Persist)
        ensures
            r@ == Seq::<SessionView>::empty(),
            persist_wf(r@),
    {
        let p = Persist { user_sessions: Vec::new() };
        proof {
            assert(p@ =~= Seq::<SessionView>::empty());
        }
        p
    }

    /// Index of this user's session, if one exists.
    fn find_index(&self, name: &String) -> (r: Option<usize>)
        ensures
            match r {
                Option::Some(i) => i < self@.len() && self@[i as int].name == name@,
                Option::None => !has_session(self@, name@),
            },
    {
        let n = self.user_sessions.len();
        let mut i: usize = 0;
        while i < n
            invariant
                i <= n,
                n == self@.len(),
                forall|k: int| 0 <= k < i ==> #[trigger] self@[k].name != name@,
            decreases n - i,
        {
            let entry = &self.user_sessions[i];
            if entry.name == *name {
                return Option::Some(i);
            }
            i = i + 1;
        }
        Option::None
    }

    /// Store a session: replace the session of a user already signed in,
    /// append a session for a new user.
    pub fn add_record(&mut self, session: UserSession)
        requires
            persist_wf(old(self)@),
        ensures
            persist_wf(final(self)@),
            final(self)@ == spec_add(old(self)@, session@),
    {
        let ghost sv = session@;
        match self.find_index(&session.name) {
            Option::None => {
                self.user_sessions.push(session);
                proof {
                    assert(self@ =~= old(self)@.push(sv));
                }
            },
            Option::Some(idx) => {
                proof {
                    let k = session_index(old(self)@, sv.name);
                    assert(0 <= k < old(self)@.len() && old(self)@[k].name == sv.name);
                    assert(k == idx as int);
                }
                let _old_entry = self.user_sessions.remove(idx);
                self.user_sessions.insert(idx, session);
                proof {
                    assert(self@ =~= old(self)@.update(idx as int, sv));
                }
            },
        }
    }

    /// Forget the session carrying this session id.
    #[verifier::loop_isolation(false)]
    pub fn delete_record(&mut self, session_id: &String)
        requires
            persist_wf(old(self)@),
        ensures
            persist_wf(final(self)@),
            final(self)@ == spec_delete(old(self)@, session_id@),
    {
        let ghost s = old(self)@;
        let ghost p = |u: SessionView| u.session_id != session_id@;
        let n = self.user_sessions.len();
        let mut kept: Vec<UserSession> = Vec::new();
        let mut i: usize = 0;
        proof {
            assert(s.take(0) =~= Seq::<SessionView>::empty());
            assert(kept@.map_values(|u: UserSession| u@) =~= filter_keep(s.take(0), p));
        }
        while i < n
            invariant
                i <= n,
                n == s.len(),
                s == old(self)@,
                self@ == s,
                kept@.map_values(|u: UserSession| u@) == filter_keep(s.take(i as int), p),
            decreases n - i,
        {
            proof {
                assert(s.take(i + 1).drop_last() =~= s.take(i as int));
                assert(s.take(i + 1).last() == s[i as int]);
                assert(s[i as int] == self.user_sessions@[i as int]@);
            }
            let entry = &self.user_sessions[i];
            if !(entry.session_id == *session_id) {
                assert(p(s[i as int]));
                kept.push(entry.clone());
                proof {
                    assert(kept@.map_values(|u: UserSession| u@) =~= filter_keep(
                        s.take(i as int),
                        p,
                    ).push(s[i as int]));
                    assert(filter_keep(s.take(i + 1), p) == filter_keep(s.take(i as int), p).push(
                        s[i as int],
                    ));
                }
            } else {
                proof {
                    assert(!p(s[i as int]));
                    assert(filter_keep(s.take(i + 1), p) == filter_keep(s.take(i as int), p));
                }
            }
            i = i + 1;
        }
        proof {
            assert(s.take(n as int) =~= s);
            lemma_filter_keep_wf(s, p);
        }
        self.user_sessions = kept;
    }

    /// Drop every session that has expired by `now`.
    #[verifier::loop_isolation(false)]
    pub fn filter_records(&mut self, now: i64)
        requires
            persist_wf(old(self)@),
        ensures
            persist_wf(final(self)@),
            final(self)@ == spec_expire(old(self)@, now),
    {
        let ghost s = old(self)@;
        let ghost p = |u: SessionView| u.expires_at >= now;
        let n = self.user_sessions.len();
        let mut kept: Vec<UserSession> = Vec::new();
        let mut i: usize = 0;
        proof {
            assert(s.take(0) =~= Seq::<SessionView>::empty());
            assert(kept@.map_values(|u: UserSession| u@) =~= filter_keep(s.take(0), p));
        }
        while i < n
            invariant
                i <= n,
                n == s.len(),
                s == old(self)@,
                self@ == s,
                kept@.map_values(|u: UserSession| u@) == filter_keep(s.take(i as int), p),
            decreases n - i,
        {
            proof {
                assert(s.take(i + 1).drop_last() =~= s.take(i as int));
                assert(s.take(i + 1).last() == s[i as int]);
                assert(s[i as int] == self.user_sessions@[i as int]@);
            }
            let entry = &self.user_sessions[i];
            if entry.expires_at >= now {
                assert(p(s[i as int]));
                kept.push(entry.clone());
                proof {
                    assert(kept@.map_values(|u: UserSession| u@) =~= filter_keep(
                        s.take(i as int),
                        p,
                    ).push(s[i as int]));
                    assert(filter_keep(s.take(i + 1), p) == filter_keep(s.take(i as int), p).push(
                        s[i as int],
                    ));
                }
            } else {
                proof {
                    assert(!p(s[i as int]));
                    assert(filter_keep(s.take(i + 1), p) == filter_keep(s.take(i as int), p));
                }
            }
            i = i + 1;
        }
        proof {
            assert(s.take(n as int) =~= s);
            lemma_filter_keep_wf(s, p);
        }
        self.user_sessions = kept;
    }

    /// Whether a presented cookie names a stored session: the cookie must
    /// split as `name--token` and both parts must match one session. A
    /// cookie with no separator matches nothing.
    #[verifier::loop_isolation(false)]
    pub fn check_record_exists(&self, cookie: &str) -> (r: bool)
        ensures
            r == (match spec_split_cookie(cookie@) {
                Option::Some((name, sid)) => exists|i: int|
                    0 <= i < self@.len() && #[trigger] self@[i].name == name && self@[i].session_id
                        == sid,
                Option::None => false,
            }),
    {
        let parts = match parse_session_cookie(cookie) {
            Option::None => {
                return false;
            },
            Option::Some(p) => p,
        };
        let (name, sid) = parts;
        let n = self.user_sessions.len();
        let mut i: usize = 0;
        while i < n
            invariant
                i <= n,
                n == self@.len(),
                forall|k: int|
                    0 <= k < i ==> !(#[trigger] self@[k].name == name@ && self@[k].session_id
                        == sid@),
            decreases n - i,
        {
            let entry = &self.user_sessions[i];
            proof {
                assert(self@[i as int] == self.user_sessions@[i as int]@);
            }
            if entry.name == name && entry.session_id == sid {
                proof {
                    let pair = spec_split_cookie(cookie@)->Some_0;
                    assert(self@[i as int].name == pair.0 && self@[i as int].session_id == pair.1);
                }
                return true;
            }
            i = i + 1;
        }
        false
    }
}

} // verus!
