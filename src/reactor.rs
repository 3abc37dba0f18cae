use std::collections::HashMap;
use std::collections::HashSet;
use vstd::prelude::*;

use crate::token::{next, Token, SERVER};

verus! {

broadcast use vstd::std_specs::hash::group_hash_axioms;

/// What the poller reported for one `poll` call.
#[derive(Clone, Copy, Debug, PartialEq, Eq, Structural)]
pub enum PollStatus {
    /// A batch of events is ready.
    Ready,
    /// A signal interrupted the call before anything was collected.
    Interrupted,
    /// Any other failure of the poller.
    Failed,
}

/// What the loop does after a `poll` call.
#[derive(Clone, Copy, Debug, PartialEq, Eq, Structural)]
pub enum LoopStep {
    /// Route every event of the batch.
    Dispatch,
    /// Poll again at once.
    Retry,
    /// Leave the loop with the poller's error.
    Abort,
}

/// What `accept` on the listening socket reported.
#[derive(Clone, Copy, Debug, PartialEq, Eq, Structural)]
pub enum AcceptStatus {
    /// A connection was taken from the queue.
    Accepted,
    /// The queue is empty for now.
    WouldBlock,
    /// Any other failure of `accept`.
    Failed,
}

/// What the draining loop does after one `accept`.
#[derive(Clone, Copy, Debug, PartialEq, Eq, Structural)]
pub enum DrainStep {
    /// Register the new socket under this token, then `enroll` its session.
    Enroll(Token),
    /// Stop draining and go on with the batch.
    Stop,
    /// Leave the loop: the error is fatal.
    Abort,
}

/// Where an event is routed, by its token.
#[derive(Clone, Copy, Debug, PartialEq, Eq, Structural)]
pub enum Route {
    /// The listening socket: drain its queue.
    Listener,
    /// A live connection: drive its session.
    Session,
    /// A token with no live connection: ignore the event.
    Stale,
}

/// Why `enroll` refused a token.
#[derive(Clone, Copy, Debug, PartialEq, Eq, Structural)]
pub enum EnrollError {
    /// The token is the listening socket's.
    ListenerToken,
    /// The token was never handed out by `on_accept`.
    NotIssued,
    /// A live connection already holds the token.
    Duplicate,
}

/// The reactor's bookkeeping as mathematical values.
pub struct ReactorModel<S> {
    /// The token that the next accepted connection receives.
    pub next: nat,
    /// The connection registry: live token to its session.
    pub registry: Map<usize, S>,
    /// The tokens known to the server context.
    pub context: Set<usize>,
}

impl<S> ReactorModel<S> {
    /// Registry and server context know the same connections.
    pub open spec fn consistent(self) -> bool {
        self.registry.dom() =~= self.context
    }

    /// Consistent, finite, and every live token lies strictly between the
    /// listener's and the next one to be handed out.
    pub open spec fn wf(self) -> bool {
        &&& self.consistent()
        &&& self.registry.dom().finite()
        &&& self.next > SERVER
        &&& forall|t: usize| #[trigger]
            self.registry.contains_key(t) ==> SERVER < t < self.next
    }

    /// The route of an event carrying `t`.
    pub open spec fn route_of(self, t: usize) -> Route {
        if t == SERVER {
            Route::Listener
        } else if self.registry.contains_key(t) {
            Route::Session
        } else {
            Route::Stale
        }
    }

    /// The state after the allocator handed out `self.next`.
    pub open spec fn minted(self) -> Self {
        ReactorModel { next: self.next + 1, registry: self.registry, context: self.context }
    }

    /// The state after a session is entered in the registry and the context.
    pub open spec fn enrolled(self, t: usize, s: S) -> Self {
        ReactorModel {
            next: self.next,
            registry: self.registry.insert(t, s),
            context: self.context.insert(t),
        }
    }

    /// The state after the connection under `t` was torn down.
    pub open spec fn closed(self, t: usize) -> Self {
        ReactorModel {
            next: self.next,
            registry: self.registry.remove(t),
            context: self.context.remove(t),
        }
    }

    /// One full accept cycle: mint a token, then enroll the session under it.
    pub open spec fn accept_one(self, s: S) -> Self {
        self.minted().enrolled(self.next as usize, s)
    }

    /// Accept cycles for each session of `ss`, in order.
    pub open spec fn accept_all(self, ss: Seq<S>) -> Self
        decreases ss.len(),
    {
        if ss.len() == 0 {
            self
        } else {
            self.accept_one(ss[0]).accept_all(ss.drop_first())
        }
    }
}

/// The tokens that `n` successive accept cycles hand out, starting from `m`.
pub open spec fn minted_tokens<S>(m: ReactorModel<S>, n: nat) -> Seq<nat>
    decreases n,
{
    if n == 0 {
        Seq::empty()
    } else {
        seq![m.next].add(minted_tokens(m.minted(), (n - 1) as nat))
    }
}

proof fn lemma_minted_tokens_values<S>(m: ReactorModel<S>, n: nat)
    ensures
        minted_tokens(m, n).len() == n,
        forall|i: int| 0 <= i < n ==> #[trigger] minted_tokens(m, n)[i] == m.next + i,
    decreases n,
{
    if n > 0 {
        lemma_minted_tokens_values(m.minted(), (n - 1) as nat);
        assert forall|i: int| 0 <= i < n implies #[trigger] minted_tokens(m, n)[i] == m.next + i by {
            if i > 0 {
                assert(minted_tokens(m, n)[i] == minted_tokens(m.minted(), (n - 1) as nat)[i - 1]);
            }
        }
    }
}

/// Tokens are unique: any run of accept cycles hands out strictly
/// increasing tokens, each above the listener's and above every token held by
/// a live connection.
pub proof fn lemma_tokens_unique<S>(m: ReactorModel<S>, n: nat)
    requires
        m.wf(),
    ensures
        minted_tokens(m, n).len() == n,
        forall|i: int, j: int|
            0 <= i < j < n ==> minted_tokens(m, n)[i] < minted_tokens(m, n)[j],
        forall|i: int| 0 <= i < n ==> #[trigger] minted_tokens(m, n)[i] > SERVER,
        forall|i: int, t: usize|
            0 <= i < n && #[trigger] m.registry.contains_key(t) ==> t < #[trigger] minted_tokens(
                m,
                n,
            )[i],
{
    lemma_minted_tokens_values(m, n);
}

/// Draining is complete: accept cycles for `ss` enter every session under
/// its own token, keep every live connection, and add nothing else.
pub proof fn lemma_drain_complete<S>(m: ReactorModel<S>, ss: Seq<S>)
    requires
        m.wf(),
        m.next + ss.len() <= usize::MAX,
    ensures
        m.accept_all(ss).wf(),
        m.accept_all(ss).next == m.next + ss.len(),
        m.accept_all(ss).registry.len() == m.registry.len() + ss.len(),
        forall|i: int|
            0 <= i < ss.len() ==> #[trigger] m.accept_all(ss).registry.contains_key(
                (m.next + i) as usize,
            ) && m.accept_all(ss).registry[(m.next + i) as usize] == ss[i],
        forall|t: usize|
            #[trigger] m.accept_all(ss).registry.contains_key(t) <==> (m.registry.contains_key(t)
                || m.next <= t < m.next + ss.len()),
        forall|t: usize|
            #[trigger] m.registry.contains_key(t) ==> m.accept_all(ss).registry[t]
                == m.registry[t],
    decreases ss.len(),
{
    if ss.len() > 0 {
        let m1 = m.accept_one(ss[0]);
        let t0 = m.next as usize;
        assert(!m.registry.contains_key(t0));
        assert(m1.registry.dom() =~= m.registry.dom().insert(t0));
        assert(m1.wf());
        lemma_drain_complete(m1, ss.drop_first());
        let r = m.accept_all(ss);
        assert(r == m1.accept_all(ss.drop_first()));
        assert forall|t: usize| #[trigger] m.registry.contains_key(t) implies r.registry[t]
            == m.registry[t] by {
            assert(m1.registry.contains_key(t));
        }
        assert forall|i: int| 0 <= i < ss.len() implies #[trigger] r.registry.contains_key(
            (m.next + i) as usize,
        ) && r.registry[(m.next + i) as usize] == ss[i] by {
            if i > 0 {
                assert(ss.drop_first()[i - 1] == ss[i]);
                assert(m1.next + (i - 1) == m.next + i);
                assert(r.registry.contains_key((m1.next + (i - 1)) as usize));
            } else {
                assert(m1.registry.contains_key(t0));
            }
        }
    } else {
        assert(m.accept_all(ss) == m);
    }
}

/// Teardown is final: once a connection is closed its token is neither in
/// the registry nor in the server context, and a late event for it is
/// ignored.
pub proof fn lemma_teardown<S>(m: ReactorModel<S>, t: usize)
    requires
        m.wf(),
        m.registry.contains_key(t),
    ensures
        m.closed(t).wf(),
        !m.closed(t).registry.contains_key(t),
        !m.closed(t).context.contains(t),
        m.closed(t).route_of(t) == Route::Stale,
        m.closed(t).registry.len() + 1 == m.registry.len(),
{
    assert(m.closed(t).registry.dom() =~= m.closed(t).context);
}

/// Connection registry, token allocator and the server context's client
/// index, owned by the reactor thread.
pub struct Reactor<S> {
    next_token: Token,
    connections: HashMap<usize, S>,
    clients: HashSet<usize>,
}

impl<S> View for Reactor<S> {
    type V = ReactorModel<S>;

    closed spec fn view(&self) -> ReactorModel<S> {
        ReactorModel {
            next: self.next_token.0 as nat,
            registry: self.connections@,
            context: self.clients@,
        }
    }
}

/// Decides what follows a `poll` call: an interrupted call is retried,
/// never reported.
pub fn after_poll(status: PollStatus) -> (r: LoopStep)
    ensures
        status == PollStatus::Ready <==> r == LoopStep::Dispatch,
        status == PollStatus::Interrupted <==> r == LoopStep::Retry,
        status == PollStatus::Failed <==> r == LoopStep::Abort,
{
    match status {
        PollStatus::Ready => LoopStep::Dispatch,
        PollStatus::Interrupted => LoopStep::Retry,
        PollStatus::Failed => LoopStep::Abort,
    }
}

impl<S> Reactor<S> {
    pub closed spec fn wf(&self) -> bool {
        self@.wf()
    }

    /// An empty registry; the first connection receives the token after the
    /// listener's.
    pub fn new() -> (r: Self)
        ensures
            r.wf(),
            r@.next == SERVER + 1,
            r@.registry.is_empty(),
            r@.context.is_empty(),
    {
        let r = Reactor {
            next_token: Token(SERVER + 1),
            connections: HashMap::new(),
            clients: HashSet::new(),
        };
        r
    }

    /// Where an event carrying `token` goes.
    pub fn route(&self, token: Token) -> (r: Route)
        requires
            self.wf(),
        ensures
            r == self@.route_of(token.0),
    {
        if token.0 == SERVER {
            Route::Listener
        } else if self.connections.contains_key(&token.0) {
            Route::Session
        } else {
            Route::Stale
        }
    }

    /// One step of draining the listener's queue. An accepted connection
    /// receives a fresh token; an empty queue ends the draining; any other
    /// failure, or an exhausted allocator, is fatal.
    pub fn on_accept(&mut self, status: AcceptStatus) -> (r: DrainStep)
        requires
            old(self).wf(),
        ensures
            final(self).wf(),
            status == AcceptStatus::WouldBlock ==> r == DrainStep::Stop && final(self)@ == old(self)@,
            status == AcceptStatus::Failed ==> r == DrainStep::Abort && final(self)@ == old(self)@,
            status == AcceptStatus::Accepted && old(self)@.next < usize::MAX ==> r == DrainStep::Enroll(
                Token(old(self)@.next as usize),
            ) && final(self)@ == old(self)@.minted(),
            status == AcceptStatus::Accepted && old(self)@.next == usize::MAX ==> r
                == DrainStep::Abort && final(self)@ == old(self)@,
    {
        match status {
            AcceptStatus::WouldBlock => DrainStep::Stop,
            AcceptStatus::Failed => DrainStep::Abort,
            AcceptStatus::Accepted => {
                if self.next_token.0 == usize::MAX {
                    DrainStep::Abort
                } else {
                    let t = next(&mut self.next_token);
                    DrainStep::Enroll(t)
                }
            },
        }
    }

    /// Enters the session of a freshly registered socket in the registry and
    /// in the server context, together.
    pub fn enroll(&mut self, token: Token, session: S) -> (r: Result<(), EnrollError>)
        requires
            old(self).wf(),
        ensures
            final(self).wf(),
            token.0 == SERVER ==> r == Err::<(), EnrollError>(EnrollError::ListenerToken),
            token.0 != SERVER && token.0 >= old(self)@.next ==> r == Err::<(), EnrollError>(
                EnrollError::NotIssued,
            ),
            token.0 != SERVER && token.0 < old(self)@.next && old(self)@.registry.contains_key(
                token.0,
            ) ==> r == Err::<(), EnrollError>(EnrollError::Duplicate),
            r.is_err() ==> final(self)@ == old(self)@,
            r.is_ok() ==> final(self)@ == old(self)@.enrolled(token.0, session),
            r.is_ok() <==> old(self)@.route_of(token.0) == Route::Stale && token.0 < old(self)@.next,
    {
        if token.0 == SERVER {
            return Err(EnrollError::ListenerToken);
        }
        if token.0 >= self.next_token.0 {
            return Err(EnrollError::NotIssued);
        }
        if self.connections.contains_key(&token.0) {
            return Err(EnrollError::Duplicate);
        }
        self.connections.insert(token.0, session);
        self.clients.insert(token.0);
        proof {
            assert(self@.registry.dom() =~= old(self)@.registry.dom().insert(token.0));
        }
        Ok(())
    }

    /// The session of a live connection, to be driven for one event.
    pub fn session(&self, token: Token) -> (r: Option<&S>)
        requires
            self.wf(),
        ensures
            r.is_some() <==> self@.registry.contains_key(token.0),
            r.is_some() ==> *r.unwrap() == self@.registry[token.0],
    {
        self.connections.get(&token.0)
    }

    /// Called after a session was driven for one event, with its closed flag.
    /// A closed session leaves the registry, then the server context, and is
    /// handed back so that its socket is deregistered before it is dropped.
    pub fn settle(&mut self, token: Token, closed: bool) -> (r: Option<S>)
        requires
            old(self).wf(),
        ensures
            final(self).wf(),
            closed && old(self)@.registry.contains_key(token.0) ==> r == Some(
                old(self)@.registry[token.0],
            ) && final(self)@ == old(self)@.closed(token.0),
            !(closed && old(self)@.registry.contains_key(token.0)) ==> r.is_none() && final(self)@
                == old(self)@,
    {
        if !closed {
            return None;
        }
        let removed = self.connections.remove(&token.0);
        match removed {
            Some(s) => {
                self.clients.remove(&token.0);
                proof {
                    assert(self@.registry.dom() =~= old(self)@.registry.dom().remove(token.0));
                }
                Some(s)
            },
            None => {
                proof {
                    assert(self@.registry =~= old(self)@.registry);
                }
                None
            },
        }
    }

    /// Number of live connections in the registry.
    pub fn connection_count(&self) -> (r: usize)
        requires
            self.wf(),
        ensures
            r == self@.registry.len(),
    {
        self.connections.len()
    }

    /// Number of connections known to the server context.
    pub fn client_count(&self) -> (r: usize)
        requires
            self.wf(),
        ensures
            r == self@.context.len(),
    {
        self.clients.len()
    }

    /// Whether the server context knows the connection under `token`.
    pub fn knows_client(&self, token: Token) -> (r: bool)
        requires
            self.wf(),
        ensures
            r == self@.context.contains(token.0),
    {
        self.clients.contains(&token.0)
    }

    /// The token that the next accepted connection receives.
    pub fn next_token(&self) -> (r: Token)
        requires
            self.wf(),
        ensures
            r.0 == self@.next,
    {
        self.next_token
    }

    /// Between two calls, the registry and the server context know exactly
    /// the same connections.
    pub proof fn lemma_consistent(&self)
        requires
            self.wf(),
        ensures
            self@.registry.dom() == self@.context,
            forall|t: usize| #[trigger] self@.context.contains(t) ==> SERVER < t < self@.next,
    {
    }
}

} // verus!
