//! The supervisor proper: the per-worker idempotency registry and the
//! lifecycle hook that binds launches to application startup and
//! terminations to the first close request of the host window.

use crate::command::{KillRequest, LaunchRequest};
use vstd::prelude::*;

verus! {

/// Per-worker launch state.  `Running` records that a spawn request has
/// been issued and not followed by a termination; it reflects intent, not
/// confirmed liveness of the OS process.
#[derive(Clone, Copy, Debug, PartialEq, Eq, Structural)]
pub enum ProcessState {
    NotStarted,
    Running,
}

/// State of the lifecycle hook itself.  It moves `Uninitialized` to
/// `Bound` when startup runs, and `Bound` to `Fired` on the first close
/// request; it never moves again.
#[derive(Clone, Copy, Debug, PartialEq, Eq, Structural)]
pub enum HookState {
    Uninitialized,
    Bound,
    Fired,
}

/// What a launch decided: either the worker was already running and
/// nothing is to be spawned, or the host must dispatch the returned
/// spawn request.
#[derive(Debug)]
pub enum LaunchAction {
    AlreadyRunning,
    Spawn(LaunchRequest),
}

/// The supervisor: the configured worker names in their declared launch
/// order, one launch state per name, and the lifecycle hook's own state.
/// The launch state is the idempotency guard: a worker already `Running`
/// is not spawned a second time.
pub struct Supervisor {
    names: Vec<String>,
    states: Vec<ProcessState>,
    hook: HookState,
}

impl Supervisor {
    /// The configured names, in launch order.
    pub closed spec fn names_view(self) -> Seq<Seq<char>> {
        Seq::new(self.names@.len(), |i: int| self.names@[i]@)
    }

    /// How many workers are configured.
    pub open spec fn count(self) -> int {
        self.names_view().len() as int
    }

    /// The name configured at position `i`.
    pub open spec fn name_at(self, i: int) -> Seq<char> {
        self.names_view()[i]
    }

    /// The launch state of the worker at position `i`.
    pub closed spec fn state_at(self, i: int) -> ProcessState {
        self.states@[i]
    }

    /// The lifecycle hook's state.
    pub closed spec fn hook_state(self) -> HookState {
        self.hook
    }

    /// Well-formed: one launch state per name, and no two configured
    /// names collide.
    pub closed spec fn wf(self) -> bool {
        &&& self.states@.len() == self.names@.len()
        &&& forall|i: int, j: int|
            0 <= i < j < self.names@.len() ==> self.names@[i]@ != self.names@[j]@
    }

    /// Whether `n` is one of the configured names.
    pub open spec fn is_configured(self, n: Seq<char>) -> bool {
        exists|i: int| 0 <= i < self.count() && self.name_at(i) == n
    }

    /// The position of configured name `n` (meaningful when `n` is
    /// configured and the supervisor is well-formed).
    pub open spec fn index_of(self, n: Seq<char>) -> int {
        choose|i: int| 0 <= i < self.count() && self.name_at(i) == n
    }

    /// Whether a launch of `n` has been issued and not yet followed by a
    /// termination.
    pub open spec fn running(self, n: Seq<char>) -> bool {
        self.is_configured(n) && self.state_at(self.index_of(n)) is Running
    }

    /// A well-formed supervisor's positions determine `index_of`: the
    /// name at `i` points back to `i`.
    pub proof fn lemma_index_of_position(self, i: int)
        requires
            self.wf(),
            0 <= i < self.count(),
        ensures
            self.is_configured(self.name_at(i)),
            self.index_of(self.name_at(i)) == i,
    {
        assert(self.is_configured(self.name_at(i)));
        let j = self.index_of(self.name_at(i));
        if j < i {
            assert(self.names@[j]@ != self.names@[i]@);
        } else if j > i {
            assert(self.names@[i]@ != self.names@[j]@);
        }
    }

    /// A fresh supervisor over `names`: every worker `NotStarted`, the
    /// hook not yet bound.
    pub fn new(names: Vec<String>) -> (s: Supervisor)
        requires
            forall|i: int, j: int|
                0 <= i < j < names@.len() ==> names@[i]@ != names@[j]@,
        ensures
            s.wf(),
            s.count() == names@.len(),
            forall|i: int| 0 <= i < s.count() ==> s.name_at(i) == names@[i]@,
            forall|i: int| 0 <= i < s.count() ==> s.state_at(i) is NotStarted,
            s.hook_state() is Uninitialized,
    {
        let n = names.len();
        let mut states: Vec<ProcessState> = Vec::new();
        let mut i: usize = 0;
        while i < n
            invariant
                i <= n,
                states@.len() == i,
                forall|j: int| 0 <= j < i ==> states@[j] is NotStarted,
            decreases n - i,
        {
            states.push(ProcessState::NotStarted);
            i += 1;
        }
        Supervisor { names, states, hook: HookState::Uninitialized }
    }

    /// The position of `name` among the configured names, if any.
    fn position_of(&self, name: &String) -> (r: Option<usize>)
        ensures
            match r {
                Some(i) => 0 <= i < self.count() && self.name_at(i as int) == name@,
                None => !self.is_configured(name@),
            },
    {
        let n = self.names.len();
        let mut i: usize = 0;
        while i < n
            invariant
                i <= n,
                n == self.names@.len(),
                forall|j: int| 0 <= j < i ==> self.names@[j]@ != name@,
            decreases n - i,
        {
            if self.names[i] == *name {
                return Some(i);
            }
            i += 1;
        }
        None
    }

    /// The worker at `pre.index_of(n)` has been cleared back to
    /// `NotStarted`; every other worker, the configured names and the
    /// hook are untouched.
    pub open spec fn cleared(pre: Supervisor, n: Seq<char>, post: Supervisor) -> bool {
        &&& post.names_view() == pre.names_view()
        &&& post.hook_state() == pre.hook_state()
        &&& post.state_at(pre.index_of(n)) is NotStarted
        &&& forall|j: int|
            0 <= j < pre.count() && j != pre.index_of(n) ==> post.state_at(j) == pre.state_at(j)
        &&& post.wf()
        &&& forall|m: Seq<char>| #[trigger] post.is_configured(m) == pre.is_configured(m)
        &&& forall|m: Seq<char>| m != n ==> #[trigger] post.running(m) == pre.running(m)
    }

    /// How a launch of `n` relates the supervisor before and after the
    /// call to the action it returned: a running worker is left alone
    /// and nothing is spawned; otherwise exactly one spawn request, for
    /// `n`, comes back, and only `n`'s state moves (to `Running`).
    pub open spec fn launch_post(
        pre: Supervisor,
        n: Seq<char>,
        post: Supervisor,
        a: LaunchAction,
    ) -> bool {
        &&& pre.running(n) ==> (a is AlreadyRunning && post == pre)
        &&& !pre.running(n) ==> {
            &&& a matches LaunchAction::Spawn(req) && req.is_for(n)
            &&& post.names_view() == pre.names_view()
            &&& post.hook_state() == pre.hook_state()
            &&& post.state_at(pre.index_of(n)) is Running
            &&& forall|j: int|
                0 <= j < pre.count() && j != pre.index_of(n) ==> post.state_at(j)
                    == pre.state_at(j)
            &&& post.wf()
            &&& post.running(n)
            &&& forall|m: Seq<char>| #[trigger] post.is_configured(m) == pre.is_configured(m)
            &&& forall|m: Seq<char>| m != n ==> #[trigger] post.running(m) == pre.running(m)
        }
    }

    /// When only the worker at position `k` changed state, every other
    /// name's configuration and running status is untouched.
    proof fn lemma_frame_by_name(pre: Supervisor, post: Supervisor, k: int)
        requires
            pre.wf(),
            post.wf(),
            post.names_view() == pre.names_view(),
            0 <= k < pre.count(),
            forall|j: int| 0 <= j < pre.count() && j != k ==> post.state_at(j) == pre.state_at(j),
        ensures
            forall|m: Seq<char>| #[trigger] post.is_configured(m) == pre.is_configured(m),
            forall|m: Seq<char>|
                m != pre.name_at(k) ==> #[trigger] post.running(m) == pre.running(m),
    {
        assert forall|m: Seq<char>| #[trigger] post.is_configured(m)
            == pre.is_configured(m) by {
            if pre.is_configured(m) {
                let i = pre.index_of(m);
                assert(post.name_at(i) == m);
            }
            if post.is_configured(m) {
                let i = post.index_of(m);
                assert(pre.name_at(i) == m);
            }
        }
        assert forall|m: Seq<char>| m != pre.name_at(k) implies #[trigger] post.running(m)
            == pre.running(m) by {
            if pre.is_configured(m) {
                let i = pre.index_of(m);
                pre.lemma_index_of_position(i);
                assert(post.name_at(i) == m);
                post.lemma_index_of_position(i);
            }
        }
    }

    /// Decide a launch of the configured worker `name`.  If a launch for
    /// it is already outstanding this is a no-op; otherwise the worker is
    /// marked `Running` and the spawn request to dispatch is returned.
    /// The call only records and decides; it does not wait on, or even
    /// start, any process itself.
    pub fn launch(&mut self, name: &String) -> (a: LaunchAction)
        requires
            old(self).wf(),
            old(self).is_configured(name@),
        ensures
            final(self).wf(),
            Self::launch_post(*old(self), name@, *final(self), a),
    {
        let i = self.position_of(name).unwrap();
        proof {
            self.lemma_index_of_position(i as int);
        }
        if self.states[i] == ProcessState::Running {
            LaunchAction::AlreadyRunning
        } else {
            let req = LaunchRequest::new(self.names[i].as_str());
            self.states.set(i, ProcessState::Running);
            proof {
                self.lemma_index_of_position(i as int);
                Self::lemma_frame_by_name(*old(self), *self, i as int);
            }
            LaunchAction::Spawn(req)
        }
    }

    /// Record that the OS rejected the spawn request a launch of `name`
    /// handed out: the worker goes back to `NotStarted`, so a later
    /// launch may try again.
    pub fn spawn_rejected(&mut self, name: &String)
        requires
            old(self).wf(),
            old(self).is_configured(name@),
        ensures
            final(self).wf(),
            Self::cleared(*old(self), name@, *final(self)),
            !final(self).running(name@),
    {
        let i = self.position_of(name).unwrap();
        proof {
            self.lemma_index_of_position(i as int);
        }
        self.states.set(i, ProcessState::NotStarted);
        proof {
            Self::lemma_frame_by_name(*old(self), *self, i as int);
        }
    }

    /// Issue a termination of the configured worker `name`.  The kill
    /// request is returned unconditionally — whether or not a launch is
    /// outstanding, and whether or not a matching OS process exists — and
    /// the worker's state goes back to `NotStarted` without waiting for
    /// any confirmation.
    pub fn terminate(&mut self, name: &String) -> (k: KillRequest)
        requires
            old(self).wf(),
            old(self).is_configured(name@),
        ensures
            final(self).wf(),
            Self::cleared(*old(self), name@, *final(self)),
            k.is_for(name@),
            !final(self).running(name@),
    {
        let i = self.position_of(name).unwrap();
        proof {
            self.lemma_index_of_position(i as int);
        }
        let k = KillRequest::new(self.names[i].as_str());
        self.states.set(i, ProcessState::NotStarted);
        proof {
            Self::lemma_frame_by_name(*old(self), *self, i as int);
        }
        k
    }

    /// The names among the first `n` configured workers whose state is
    /// still `NotStarted`, in configured order: exactly the workers a
    /// startup pass will spawn.
    pub open spec fn pending_prefix(self, n: int) -> Seq<Seq<char>>
        decreases n,
    {
        if n <= 0 {
            Seq::empty()
        } else if self.state_at(n - 1) is NotStarted {
            self.pending_prefix(n - 1).push(self.name_at(n - 1))
        } else {
            self.pending_prefix(n - 1)
        }
    }

    /// Run the startup half of the lifecycle hook: issue a launch for
    /// every configured worker not already running, in the declared
    /// order, and bind the hook.  The returned spawn requests are, in
    /// order, exactly those for the workers that were `NotStarted`.
    pub fn startup(&mut self) -> (reqs: Vec<LaunchRequest>)
        requires
            old(self).wf(),
            old(self).hook_state() is Uninitialized,
        ensures
            final(self).wf(),
            final(self).names_view() == old(self).names_view(),
            final(self).hook_state() is Bound,
            forall|j: int| 0 <= j < final(self).count() ==> final(self).state_at(j) is Running,
            reqs@.len() == old(self).pending_prefix(old(self).count()).len(),
            forall|j: int|
                0 <= j < reqs@.len() ==> reqs@[j].is_for(
                    old(self).pending_prefix(old(self).count())[j],
                ),
    {
        let ghost pre = *self;
        let n = self.names.len();
        let mut reqs: Vec<LaunchRequest> = Vec::new();
        let mut i: usize = 0;
        while i < n
            invariant
                i <= n,
                n == self.names@.len(),
                self.names == pre.names,
                self.states@.len() == n,
                self.states@.len() == pre.states@.len(),
                self.hook == pre.hook,
                forall|j: int| 0 <= j < i ==> self.states@[j] is Running,
                forall|j: int| i <= j < n ==> self.states@[j] == pre.states@[j],
                reqs@.len() == pre.pending_prefix(i as int).len(),
                forall|j: int|
                    0 <= j < reqs@.len() ==> reqs@[j].is_for(pre.pending_prefix(i as int)[j]),
            decreases n - i,
        {
            if self.states[i] == ProcessState::NotStarted {
                let req = LaunchRequest::new(self.names[i].as_str());
                reqs.push(req);
                self.states.set(i, ProcessState::Running);
            }
            i += 1;
        }
        self.hook = HookState::Bound;
        proof {
            assert(self.names_view() =~= pre.names_view());
        }
        reqs
    }

    /// Run the shutdown half of the lifecycle hook.  On the first close
    /// request after the hook was bound, a kill request for every
    /// configured worker, in the declared order, is returned, every
    /// worker's state is cleared, and the hook moves to `Fired`; any
    /// close request before binding or after the first returns no kill
    /// requests and changes nothing.
    pub fn on_close_requested(&mut self) -> (kills: Vec<KillRequest>)
        requires
            old(self).wf(),
        ensures
            final(self).wf(),
            Self::close_post(*old(self), *final(self), kills@),
    {
        if !matches!(self.hook, HookState::Bound) {
            return Vec::new();
        }
        let ghost pre = *self;
        let n = self.names.len();
        let mut kills: Vec<KillRequest> = Vec::new();
        let mut i: usize = 0;
        while i < n
            invariant
                i <= n,
                n == self.names@.len(),
                self.names == pre.names,
                self.states@.len() == n,
                self.states@.len() == pre.states@.len(),
                self.hook == pre.hook,
                forall|j: int| 0 <= j < i ==> self.states@[j] is NotStarted,
                kills@.len() == i,
                forall|j: int| 0 <= j < i ==> kills@[j].is_for(pre.name_at(j)),
            decreases n - i,
        {
            let k = KillRequest::new(self.names[i].as_str());
            kills.push(k);
            self.states.set(i, ProcessState::NotStarted);
            i += 1;
        }
        self.hook = HookState::Fired;
        proof {
            assert(self.names_view() =~= pre.names_view());
        }
        kills
    }

    /// How a close request relates the supervisor before and after the
    /// call to the kill requests it returned: a bound hook fires — one
    /// kill per configured worker, in order, every state cleared — and
    /// any other hook state leaves everything untouched with no kills.
    pub open spec fn close_post(pre: Supervisor, post: Supervisor, kills: Seq<KillRequest>) -> bool {
        &&& pre.hook_state() is Bound ==> {
            &&& post.names_view() == pre.names_view()
            &&& post.hook_state() is Fired
            &&& kills.len() == pre.count()
            &&& forall|j: int| 0 <= j < kills.len() ==> kills[j].is_for(pre.name_at(j))
            &&& forall|j: int| 0 <= j < post.count() ==> post.state_at(j) is NotStarted
            &&& post.wf()
        }
        &&& !(pre.hook_state() is Bound) ==> (post == pre && kills.len() == 0)
    }

    /// How many workers are configured.
    pub fn configured_len(&self) -> (n: usize)
        ensures
            n == self.count(),
    {
        self.names.len()
    }

    /// The configured name at position `i`.
    pub fn configured_name(&self, i: usize) -> (r: &String)
        requires
            i < self.count(),
        ensures
            r@ == self.name_at(i as int),
    {
        &self.names[i]
    }

    /// Whether `name` is one of the configured names.
    pub fn configured(&self, name: &String) -> (b: bool)
        ensures
            b == self.is_configured(name@),
    {
        self.position_of(name).is_some()
    }

    /// Whether a launch of `name` is outstanding.
    pub fn launched(&self, name: &String) -> (b: bool)
        requires
            self.wf(),
        ensures
            b == self.running(name@),
    {
        match self.position_of(name) {
            Some(i) => {
                proof {
                    self.lemma_index_of_position(i as int);
                }
                self.states[i] == ProcessState::Running
            },
            None => false,
        }
    }

    /// The lifecycle hook's current state.
    pub fn hook_phase(&self) -> (h: HookState)
        ensures
            h == self.hook_state(),
    {
        self.hook
    }
}

/// Whether no two of `names` collide, as `Supervisor::new` requires.
pub fn names_distinct(names: &Vec<String>) -> (b: bool)
    ensures
        b == (forall|i: int, j: int| 0 <= i < j < names@.len() ==> names@[i]@ != names@[j]@),
{
    let n = names.len();
    let mut i: usize = 0;
    while i < n
        invariant
            i <= n,
            n == names@.len(),
            forall|p: int, q: int| 0 <= p < q < n && p < i ==> names@[p]@ != names@[q]@,
        decreases n - i,
    {
        let mut j: usize = i + 1;
        while j < n
            invariant
                i < j <= n,
                i < n,
                n == names@.len(),
                forall|q: int| i < q < j ==> names@[i as int]@ != names@[q]@,
            decreases n - j,
        {
            if names[i] == names[j] {
                return false;
            }
            j += 1;
        }
        i += 1;
    }
    true
}

/// Idempotent launch: however a launch of `n` and then a second launch
/// of `n` go, with no intervening termination, at most one of them hands
/// out a spawn request.
pub proof fn lemma_idempotent_launch(
    s0: Supervisor,
    s1: Supervisor,
    s2: Supervisor,
    n: Seq<char>,
    a1: LaunchAction,
    a2: LaunchAction,
)
    requires
        s0.wf(),
        s0.is_configured(n),
        Supervisor::launch_post(s0, n, s1, a1),
        Supervisor::launch_post(s1, n, s2, a2),
    ensures
        !(a1 is Spawn && a2 is Spawn),
{
}

/// Idempotent shutdown: the first close request after the hook is bound
/// fires one kill per configured worker, in the declared order, and any
/// further close request fires nothing and changes nothing.
pub proof fn lemma_shutdown_fires_once(
    s0: Supervisor,
    s1: Supervisor,
    s2: Supervisor,
    ks1: Seq<KillRequest>,
    ks2: Seq<KillRequest>,
)
    requires
        s0.wf(),
        s0.hook_state() is Bound,
        Supervisor::close_post(s0, s1, ks1),
        Supervisor::close_post(s1, s2, ks2),
    ensures
        ks1.len() == s0.count(),
        forall|j: int| 0 <= j < ks1.len() ==> ks1[j].is_for(s0.name_at(j)),
        ks2.len() == 0,
        s2 == s1,
{
}

/// A termination re-arms the launch guard: a launch of `n` right after
/// `n` was cleared hands out a spawn request again.
pub proof fn lemma_relaunch_after_terminate(
    s0: Supervisor,
    s1: Supervisor,
    s2: Supervisor,
    n: Seq<char>,
    a: LaunchAction,
)
    requires
        s0.wf(),
        s0.is_configured(n),
        Supervisor::cleared(s0, n, s1),
        Supervisor::launch_post(s1, n, s2, a),
    ensures
        a is Spawn,
{
    let k = s0.index_of(n);
    assert(s0.name_at(k) == n);
    assert(s1.name_at(k) == n);
    s1.lemma_index_of_position(k);
}

/// Once the hook has fired — and likewise before it is bound — a close
/// request neither kills anything nor moves the supervisor, however many
/// times the window framework raises the event.
pub proof fn lemma_close_without_bound_hook(
    s0: Supervisor,
    s1: Supervisor,
    ks: Seq<KillRequest>,
)
    requires
        !(s0.hook_state() is Bound),
        Supervisor::close_post(s0, s1, ks),
    ensures
        ks.len() == 0,
        s1 == s0,
{
}

proof fn lemma_pending_prefix_fresh(s: Supervisor, n: int)
    requires
        0 <= n <= s.count(),
        forall|i: int| 0 <= i < s.count() ==> s.state_at(i) is NotStarted,
    ensures
        s.pending_prefix(n) == s.names_view().take(n),
    decreases n,
{
    if n > 0 {
        lemma_pending_prefix_fresh(s, n - 1);
        assert(s.pending_prefix(n) =~= s.names_view().take(n));
    } else {
        assert(s.pending_prefix(0) =~= s.names_view().take(0));
    }
}

/// Deterministic startup order: on a fresh supervisor — no worker yet
/// running — a startup pass spawns every configured worker, in exactly
/// the declared order.
pub proof fn lemma_startup_order(s: Supervisor)
    requires
        s.wf(),
        forall|i: int| 0 <= i < s.count() ==> s.state_at(i) is NotStarted,
    ensures
        s.pending_prefix(s.count()) == s.names_view(),
{
    lemma_pending_prefix_fresh(s, s.count());
    assert(s.names_view().take(s.count()) =~= s.names_view());
}

} // verus!
