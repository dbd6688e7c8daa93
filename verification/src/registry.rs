//! Session registry: owns the mapping from session token to backend
//! connection. A client is authenticated exactly once per session; its
//! connection is created at most once, reused by later requests, and removed
//! at logout. Each entry also carries the per-session exclusion over its
//! connection: a `checkout` grants exclusive use of the connection for one
//! request, and `release` gives it back.
//!
//! The backend itself is an external collaborator. Opening a connection is
//! therefore split: `get_or_create` decides whether a backend call is needed
//! at all, the caller performs the `connect`, and `install` records the new
//! entry only on success, so no failed attempt is ever cached. Connections
//! are identified by handles that the registry allocates; the registry owns
//! every connection it records, and never hands the same handle to two
//! entries.

use vstd::prelude::*;

verus! {

struct SessionEntry {
    token: String,
    conn_id: u64,
    in_use: bool,
}

/// The registry: one entry per token, each with its own exclusion flag.
pub struct SessionRegistry {
    entries: Vec<SessionEntry>,
    next_id: u64,
}

/// Decision of `get_or_create`: reuse the present connection, or a backend
/// `connect` is required before `install`.
#[derive(Clone, Copy, PartialEq, Eq, Structural, Debug)]
pub enum GetOrCreate {
    Existing(u64),
    ConnectRequired,
}

/// Outcome of `checkout`: exclusive use granted, refused while another
/// request holds the session's connection, or no such session.
#[derive(Clone, Copy, PartialEq, Eq, Structural, Debug)]
pub enum Checkout {
    Granted(u64),
    Busy,
    NotFound,
}

impl SessionRegistry {
    /// Whether some entry carries the token `t`.
    pub closed spec fn has_token(&self, t: Seq<char>) -> bool {
        exists|i: int| 0 <= i < self.entries@.len() && self.entries@[i].token@ == t
    }

    spec fn idx_of(&self, t: Seq<char>) -> int {
        choose|i: int| 0 <= i < self.entries@.len() && self.entries@[i].token@ == t
    }

    /// The handle of the connection owned by the entry for `t`.
    pub closed spec fn conn_id_of(&self, t: Seq<char>) -> u64 {
        self.entries@[self.idx_of(t)].conn_id
    }

    /// Whether the connection of the entry for `t` is checked out.
    pub closed spec fn busy(&self, t: Seq<char>) -> bool {
        self.entries@[self.idx_of(t)].in_use
    }

    /// Well-formed: tokens are unique — at most one entry per token — and
    /// every entry owns its connection handle alone.
    pub closed spec fn wf(&self) -> bool {
        &&& (forall|i: int, j: int|
            0 <= i < j < self.entries@.len() ==> self.entries@[i].token@
                != self.entries@[j].token@)
        &&& (forall|i: int, j: int|
            0 <= i < j < self.entries@.len() ==> self.entries@[i].conn_id
                != self.entries@[j].conn_id)
        &&& (forall|i: int|
            0 <= i < self.entries@.len() ==> self.entries@[i].conn_id < self.next_id)
    }

    /// Every possible connection handle has been allocated once already;
    /// no further entry can be installed. Unreachable in practice.
    pub closed spec fn ids_exhausted(&self) -> bool {
        self.next_id == u64::MAX
    }

    proof fn lemma_unique_index(&self, i: int)
        requires
            self.wf(),
            0 <= i < self.entries@.len(),
        ensures
            self.has_token(self.entries@[i].token@),
            self.idx_of(self.entries@[i].token@) == i,
    {
        let t = self.entries@[i].token@;
        assert(self.has_token(t));
        let j = self.idx_of(t);
        assert(0 <= j < self.entries@.len() && self.entries@[j].token@ == t);
    }
}

/// What `resume` answers in a given state.
pub open spec fn spec_resume(reg: SessionRegistry, t: Seq<char>) -> Option<u64> {
    if reg.has_token(t) {
        Some(reg.conn_id_of(t))
    } else {
        None
    }
}

/// What `get_or_create` decides in a given state.
pub open spec fn spec_get_or_create(reg: SessionRegistry, t: Seq<char>) -> GetOrCreate {
    if reg.has_token(t) {
        GetOrCreate::Existing(reg.conn_id_of(t))
    } else {
        GetOrCreate::ConnectRequired
    }
}

/// What `checkout` answers in a given state.
pub open spec fn spec_checkout(reg: SessionRegistry, t: Seq<char>) -> Checkout {
    if !reg.has_token(t) {
        Checkout::NotFound
    } else if reg.busy(t) {
        Checkout::Busy
    } else {
        Checkout::Granted(reg.conn_id_of(t))
    }
}

/// Two states with the same entries up to the exclusion flags agree on
/// membership, entry order and connection handles.
proof fn lemma_same_layout(a: &SessionRegistry, b: &SessionRegistry)
    requires
        a.wf(),
        b.entries@.len() == a.entries@.len(),
        b.next_id == a.next_id,
        forall|k: int|
            0 <= k < a.entries@.len() ==> b.entries@[k].token@ == a.entries@[k].token@
                && b.entries@[k].conn_id == a.entries@[k].conn_id,
    ensures
        b.wf(),
        forall|u: Seq<char>| b.has_token(u) == a.has_token(u),
        forall|u: Seq<char>|
            a.has_token(u) ==> b.idx_of(u) == a.idx_of(u) && b.conn_id_of(u) == a.conn_id_of(u),
{
    assert forall|u: Seq<char>| b.has_token(u) == a.has_token(u) by {
        if a.has_token(u) {
            let k = a.idx_of(u);
            assert(0 <= k < a.entries@.len() && a.entries@[k].token@ == u);
            assert(b.entries@[k].token@ == u);
            assert(b.has_token(u));
        }
        if b.has_token(u) {
            let k = b.idx_of(u);
            assert(0 <= k < b.entries@.len() && b.entries@[k].token@ == u);
            assert(a.entries@[k].token@ == u);
            assert(a.has_token(u));
        }
    }
    assert forall|u: Seq<char>|
        a.has_token(u) implies b.idx_of(u) == a.idx_of(u) && b.conn_id_of(u) == a.conn_id_of(
        u,
    ) by {
        let k = a.idx_of(u);
        assert(0 <= k < a.entries@.len() && a.entries@[k].token@ == u);
        assert(b.has_token(u));
        let j = b.idx_of(u);
        assert(0 <= j < b.entries@.len() && b.entries@[j].token@ == u);
        assert(a.entries@[j].token@ == u);
        if j != k {
            assert(false);
        }
    }
}

impl SessionRegistry {
    /// A fresh registry with no sessions.
    pub fn new() -> (r: SessionRegistry)
        ensures
            r.wf(),
            !r.ids_exhausted(),
            forall|t: Seq<char>| !r.has_token(t),
    {
        SessionRegistry { entries: Vec::new(), next_id: 0 }
    }

    /// Whether no further connection handle can be allocated, so `install`
    /// must not be called. Callers can test this before a login.
    pub fn is_exhausted(&self) -> (b: bool)
        ensures
            b == self.ids_exhausted(),
    {
        self.next_id == u64::MAX
    }

    fn find_index(&self, token: &String) -> (r: Option<usize>)
        ensures
            match r {
                Some(i) => (i as int) < self.entries@.len() && self.entries@[i as int].token@
                    == token@,
                None => !self.has_token(token@),
            },
    {
        let n = self.entries.len();
        let mut i: usize = 0;
        while i < n
            invariant
                n == self.entries@.len(),
                i <= n,
                forall|j: int| 0 <= j < i ==> self.entries@[j].token@ != token@,
            decreases n - i,
        {
            if self.entries[i].token == *token {
                return Some(i);
            }
            i = i + 1;
        }
        None
    }

    /// Looks a session up without ever creating one: the handle of the
    /// connection bound to `token`, or nothing when the token is unknown.
    pub fn resume(&self, token: &String) -> (r: Option<u64>)
        requires
            self.wf(),
        ensures
            r == spec_resume(*self, token@),
    {
        match self.find_index(token) {
            Some(i) => {
                proof {
                    self.lemma_unique_index(i as int);
                }
                Some(self.entries[i].conn_id)
            },
            None => None,
        }
    }

    /// The creation decision for `token`: an existing entry is reused as it
    /// stands — no backend call, the stored connection is not replaced — and
    /// only an absent one demands a `connect` followed by `install`.
    pub fn get_or_create(&self, token: &String) -> (r: GetOrCreate)
        requires
            self.wf(),
        ensures
            r == spec_get_or_create(*self, token@),
    {
        match self.find_index(token) {
            Some(i) => {
                proof {
                    self.lemma_unique_index(i as int);
                }
                GetOrCreate::Existing(self.entries[i].conn_id)
            },
            None => GetOrCreate::ConnectRequired,
        }
    }

    /// Records a session after a successful backend `connect`. If `token` is
    /// already bound the registry is left exactly as it was and the existing
    /// handle comes back with `false`; otherwise a fresh handle — owned by no
    /// other entry — is allocated and returned with `true`. Entries of other
    /// tokens are untouched.
    pub fn install(&mut self, token: &String) -> (r: (u64, bool))
        requires
            old(self).wf(),
            !old(self).ids_exhausted(),
        ensures
            final(self).wf(),
            final(self).has_token(token@),
            r.1 == !old(self).has_token(token@),
            r.0 == final(self).conn_id_of(token@),
            old(self).has_token(token@) ==> *final(self) == *old(self) && r.0 == old(
                self,
            ).conn_id_of(token@),
            forall|u: Seq<char>|
                u != token@ ==> final(self).has_token(u) == old(self).has_token(u),
            forall|u: Seq<char>|
                u != token@ && old(self).has_token(u) ==> final(self).conn_id_of(u) == old(
                    self,
                ).conn_id_of(u) && final(self).busy(u) == old(self).busy(u),
            !old(self).has_token(token@) ==> !final(self).busy(token@) && (forall|u: Seq<char>|
                old(self).has_token(u) ==> old(self).conn_id_of(u) != r.0),
    {
        let ghost pre = *self;
        match self.find_index(token) {
            Some(i) => {
                proof {
                    self.lemma_unique_index(i as int);
                }
                (self.entries[i].conn_id, false)
            },
            None => {
                let id = self.next_id;
                self.next_id = self.next_id + 1;
                self.entries.push(SessionEntry { token: token.clone(), conn_id: id, in_use: false });
                proof {
                    let n = pre.entries@.len() as int;
                    assert(self.entries@ =~= pre.entries@.push(
                        SessionEntry { token: *token, conn_id: id, in_use: false },
                    ));
                    assert(self.entries@[n].token@ == token@);
                    assert forall|k: int| 0 <= k < n implies self.entries@[k] == pre.entries@[k] by {}
                    assert(self.wf());
                    self.lemma_unique_index(n);
                    assert forall|u: Seq<char>|
                        u != token@ implies self.has_token(u) == pre.has_token(u) by {
                        if pre.has_token(u) {
                            let k = pre.idx_of(u);
                            assert(0 <= k < n && pre.entries@[k].token@ == u);
                            assert(self.entries@[k].token@ == u);
                            assert(self.has_token(u));
                        }
                        if self.has_token(u) {
                            let k = self.idx_of(u);
                            assert(0 <= k < n + 1 && self.entries@[k].token@ == u);
                            assert(k != n);
                            assert(pre.entries@[k].token@ == u);
                            assert(pre.has_token(u));
                        }
                    }
                    assert forall|u: Seq<char>|
                        u != token@ && pre.has_token(u) implies self.conn_id_of(u)
                        == pre.conn_id_of(u) && self.busy(u) == pre.busy(u) by {
                        let k = pre.idx_of(u);
                        assert(0 <= k < n && pre.entries@[k].token@ == u);
                        assert(self.entries@[k].token@ == u);
                        self.lemma_unique_index(k);
                        assert(self.idx_of(u) == k);
                    }
                    assert forall|u: Seq<char>|
                        pre.has_token(u) implies pre.conn_id_of(u) != id by {
                        let k = pre.idx_of(u);
                        assert(0 <= k < n && pre.entries@[k].token@ == u);
                        assert(pre.entries@[k].conn_id < pre.next_id);
                    }
                }
                (id, true)
            },
        }
    }

    /// Grants exclusive use of the session's connection for one request, or
    /// reports the session busy or unknown. Nothing but the exclusion flag of
    /// `token`'s own entry changes, so sessions of other tokens are never
    /// affected.
    pub fn checkout(&mut self, token: &String) -> (r: Checkout)
        requires
            old(self).wf(),
        ensures
            final(self).wf(),
            r == spec_checkout(*old(self), token@),
            forall|u: Seq<char>| final(self).has_token(u) == old(self).has_token(u),
            forall|u: Seq<char>|
                old(self).has_token(u) ==> final(self).conn_id_of(u) == old(self).conn_id_of(u),
            forall|u: Seq<char>|
                u != token@ && old(self).has_token(u) ==> final(self).busy(u) == old(self).busy(u),
            r is Granted ==> final(self).busy(token@),
            !(r is Granted) ==> *final(self) == *old(self),
            final(self).ids_exhausted() == old(self).ids_exhausted(),
    {
        let ghost pre = *self;
        match self.find_index(token) {
            None => Checkout::NotFound,
            Some(i) => {
                proof {
                    self.lemma_unique_index(i as int);
                }
                if self.entries[i].in_use {
                    Checkout::Busy
                } else {
                    let id = self.entries[i].conn_id;
                    let tok = self.entries[i].token.clone();
                    self.entries[i] = SessionEntry { token: tok, conn_id: id, in_use: true };
                    proof {
                        lemma_same_layout(&pre, self);
                        assert forall|u: Seq<char>|
                            u != token@ && pre.has_token(u) implies self.busy(u) == pre.busy(
                            u,
                        ) by {
                            assert(pre.idx_of(u) != i as int);
                        }
                        assert(self.busy(token@));
                    }
                    Checkout::Granted(id)
                }
            },
        }
    }

    /// Gives the session's connection back after a request, on every exit
    /// path of the request's handling. Unknown tokens are tolerated.
    pub fn release(&mut self, token: &String)
        requires
            old(self).wf(),
        ensures
            final(self).wf(),
            forall|u: Seq<char>| final(self).has_token(u) == old(self).has_token(u),
            forall|u: Seq<char>|
                old(self).has_token(u) ==> final(self).conn_id_of(u) == old(self).conn_id_of(u),
            forall|u: Seq<char>|
                u != token@ && old(self).has_token(u) ==> final(self).busy(u) == old(self).busy(u),
            old(self).has_token(token@) ==> !final(self).busy(token@),
            final(self).ids_exhausted() == old(self).ids_exhausted(),
    {
        let ghost pre = *self;
        match self.find_index(token) {
            None => {
            },
            Some(i) => {
                proof {
                    self.lemma_unique_index(i as int);
                }
                let id = self.entries[i].conn_id;
                let tok = self.entries[i].token.clone();
                self.entries[i] = SessionEntry { token: tok, conn_id: id, in_use: false };
                proof {
                    lemma_same_layout(&pre, self);
                    assert forall|u: Seq<char>|
                        u != token@ && pre.has_token(u) implies self.busy(u) == pre.busy(u) by {
                        assert(pre.idx_of(u) != i as int);
                    }
                    assert(!self.busy(token@));
                }
            },
        }
    }

    /// Deletes the entry of `token` unconditionally and hands its connection
    /// handle out for a best-effort `quit` by the caller — whose failure is
    /// the caller's to log, never a reason to keep the entry. After the call
    /// the token is fully forgotten; other sessions are untouched.
    pub fn remove(&mut self, token: &String) -> (r: Option<u64>)
        requires
            old(self).wf(),
        ensures
            final(self).wf(),
            r == spec_resume(*old(self), token@),
            !final(self).has_token(token@),
            forall|u: Seq<char>|
                u != token@ ==> final(self).has_token(u) == old(self).has_token(u),
            forall|u: Seq<char>|
                u != token@ && old(self).has_token(u) ==> final(self).conn_id_of(u) == old(
                    self,
                ).conn_id_of(u) && final(self).busy(u) == old(self).busy(u),
            final(self).ids_exhausted() == old(self).ids_exhausted(),
    {
        let ghost pre = *self;
        match self.find_index(token) {
            None => None,
            Some(i) => {
                proof {
                    self.lemma_unique_index(i as int);
                }
                let id = self.entries[i].conn_id;
                self.entries.remove(i);
                proof {
                    let n = pre.entries@.len() as int;
                    assert(self.entries@ =~= pre.entries@.remove(i as int));
                    assert forall|k: int| 0 <= k < i as int implies self.entries@[k]
                        == pre.entries@[k] by {}
                    assert forall|k: int| i as int <= k < n - 1 implies self.entries@[k]
                        == pre.entries@[k + 1] by {}
                    assert(self.wf());
                    assert forall|k: int| 0 <= k < n - 1 implies self.entries@[k].token@
                        != token@ by {
                        if k < i as int {
                            assert(pre.entries@[k].token@ != pre.entries@[i as int].token@);
                        } else {
                            assert(pre.entries@[k + 1].token@ != pre.entries@[i as int].token@);
                        }
                    }
                    assert(!self.has_token(token@));
                    assert forall|u: Seq<char>|
                        u != token@ implies self.has_token(u) == pre.has_token(u) by {
                        if pre.has_token(u) {
                            let k = pre.idx_of(u);
                            assert(0 <= k < n && pre.entries@[k].token@ == u);
                            assert(k != i as int);
                            if k < i as int {
                                assert(self.entries@[k].token@ == u);
                            } else {
                                assert(self.entries@[k - 1].token@ == u);
                            }
                            assert(self.has_token(u));
                        }
                        if self.has_token(u) {
                            let k = self.idx_of(u);
                            assert(0 <= k < n - 1 && self.entries@[k].token@ == u);
                            if k < i as int {
                                assert(pre.entries@[k].token@ == u);
                            } else {
                                assert(pre.entries@[k + 1].token@ == u);
                            }
                            assert(pre.has_token(u));
                        }
                    }
                    assert forall|u: Seq<char>|
                        u != token@ && pre.has_token(u) implies self.conn_id_of(u)
                        == pre.conn_id_of(u) && self.busy(u) == pre.busy(u) by {
                        let k = pre.idx_of(u);
                        assert(0 <= k < n && pre.entries@[k].token@ == u);
                        assert(k != i as int);
                        if k < i as int {
                            assert(self.entries@[k] == pre.entries@[k]);
                            self.lemma_unique_index(k);
                        } else {
                            assert(self.entries@[k - 1] == pre.entries@[k]);
                            self.lemma_unique_index(k - 1);
                        }
                    }
                }
                Some(id)
            },
        }
    }
}

/// At most one connection per token: once a token is bound, any further
/// `get_or_create` reuses the bound connection and demands no backend call.
pub proof fn lemma_single_connection_per_token(reg: SessionRegistry, t: Seq<char>)
    requires
        reg.wf(),
        reg.has_token(t),
    ensures
        spec_get_or_create(reg, t) == GetOrCreate::Existing(reg.conn_id_of(t)),
{
}

/// Reuse: in every state reached after a successful login of token `t` — so
/// `t` is bound, to the handle the login returned — both `get_or_create` and
/// `resume` answer with that same handle, and `get_or_create` asks for no
/// backend call.
pub proof fn lemma_reuse(reg: SessionRegistry, t: Seq<char>, id: u64)
    requires
        reg.wf(),
        reg.has_token(t),
        reg.conn_id_of(t) == id,
    ensures
        spec_get_or_create(reg, t) == GetOrCreate::Existing(id),
        spec_resume(reg, t) == Some(id),
{
}

/// Clean removal: in every state without token `t` — as `remove` leaves it,
/// whether or not the connection's `quit` succeeded — `resume(t)` finds
/// nothing and a new login must connect afresh.
pub proof fn lemma_clean_removal(reg: SessionRegistry, t: Seq<char>)
    requires
        !reg.has_token(t),
    ensures
        spec_resume(reg, t) == None::<u64>,
        spec_get_or_create(reg, t) == GetOrCreate::ConnectRequired,
{
}

/// Isolation: an operation that touches only the entry of `t1` — as
/// `install`, `checkout`, `release` and `remove` promise of every other
/// token — leaves what `resume` and `checkout` answer for `t2` unchanged.
pub proof fn lemma_isolation(
    pre: SessionRegistry,
    post: SessionRegistry,
    t1: Seq<char>,
    t2: Seq<char>,
)
    requires
        t1 != t2,
        post.has_token(t2) == pre.has_token(t2),
        pre.has_token(t2) ==> post.conn_id_of(t2) == pre.conn_id_of(t2) && post.busy(t2)
            == pre.busy(t2),
    ensures
        spec_resume(post, t2) == spec_resume(pre, t2),
        spec_checkout(post, t2) == spec_checkout(pre, t2),
{
}

/// Serialization: while one checkout of token `t` is outstanding — the state
/// a granted `checkout` leaves, with `t` busy — a second `checkout(t)` is
/// refused, so two requests never use one session's connection at once.
pub proof fn lemma_checkout_serializes(reg: SessionRegistry, t: Seq<char>)
    requires
        reg.wf(),
        reg.has_token(t),
        reg.busy(t),
    ensures
        spec_checkout(reg, t) == Checkout::Busy,
{
}

} // verus!

