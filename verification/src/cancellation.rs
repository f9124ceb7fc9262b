//! Cooperative cancellation.
//!
//! A token is a three-state machine, monotonic in the order
//! none < graceful < immediate, with running-tool tracking, child tokens that
//! inherit cancellation, and registered cancel-callback handles. Requesting a
//! state change propagates to every registered child; a request that changes
//! nothing does not re-propagate.

use vstd::prelude::*;

verus! {

/// The cancellation state machine: running normally (`Idle`), waiting for
/// current tools to finish (`Graceful`), or stopping now (`Immediate`).
#[derive(Clone, Copy, Debug, PartialEq, Eq, Structural)]
pub enum CancellationState {
    Idle,
    Graceful,
    Immediate,
}

impl Default for CancellationState {
    fn default() -> (r: Self)
        ensures
            r == CancellationState::Idle,
    {
        CancellationState::Idle
    }
}

/// The monotonic order on cancellation states.
pub open spec fn state_le(a: CancellationState, b: CancellationState) -> bool {
    match a {
        CancellationState::Idle => true,
        CancellationState::Graceful => b != CancellationState::Idle,
        CancellationState::Immediate => b == CancellationState::Immediate,
    }
}

/// Cancellation token for one session, owning its child tokens.
///
/// Orchestrators and tools poll the predicates to decide when to stop;
/// nothing is ever aborted from here.
pub struct CancellationToken {
    state: CancellationState,
    running: Vec<(String, String)>,
    children: Vec<CancellationToken>,
    callbacks: Vec<u64>,
}

/// The ids no longer present after removing `id`.
pub open spec fn remove_call_id(
    s: Seq<(Seq<char>, Seq<char>)>,
    id: Seq<char>,
) -> Seq<(Seq<char>, Seq<char>)>
    decreases s.len(),
{
    if s.len() == 0 {
        Seq::empty()
    } else if s[0].0 == id {
        remove_call_id(s.skip(1), id)
    } else {
        seq![s[0]] + remove_call_id(s.skip(1), id)
    }
}

/// How a graceful request transforms a token: a token still running advances
/// to graceful and passes the request on; any other token is left untouched.
pub open spec fn graceful_rel(pre: CancellationToken, post: CancellationToken) -> bool
    decreases pre,
{
    if pre.state_of() == CancellationState::Idle {
        &&& post.state_of() == CancellationState::Graceful
        &&& post.running_v() == pre.running_v()
        &&& post.callbacks_v() == pre.callbacks_v()
        &&& post.child_seq().len() == pre.child_seq().len()
        &&& forall|i: int|
            0 <= i < pre.child_seq().len() ==> graceful_rel(
                #[trigger] pre.child_seq()[i],
                post.child_seq()[i],
            )
    } else {
        post == pre
    }
}

/// How an immediate request transforms a token: a token not yet immediate
/// advances and passes the request on; an immediate token is left untouched.
pub open spec fn immediate_rel(pre: CancellationToken, post: CancellationToken) -> bool
    decreases pre,
{
    if pre.state_of() != CancellationState::Immediate {
        &&& post.state_of() == CancellationState::Immediate
        &&& post.running_v() == pre.running_v()
        &&& post.callbacks_v() == pre.callbacks_v()
        &&& post.child_seq().len() == pre.child_seq().len()
        &&& forall|i: int|
            0 <= i < pre.child_seq().len() ==> immediate_rel(
                #[trigger] pre.child_seq()[i],
                post.child_seq()[i],
            )
    } else {
        post == pre
    }
}

fn graceful_child(t: CancellationToken) -> (r: CancellationToken)
    ensures
        graceful_rel(t, r),
    decreases t,
{
    match t.state {
        CancellationState::Idle => {},
        _ => {
            return t;
        },
    }
    let CancellationToken { state: _, running, children, callbacks } = t;
    let mut rest = children;
    let mut advanced: Vec<CancellationToken> = Vec::new();
    while rest.len() > 0
        invariant
            advanced@.len() + rest@.len() == t.children@.len(),
            rest@ =~= t.children@.skip(advanced@.len() as int),
            forall|i: int|
                0 <= i < advanced@.len() ==> graceful_rel(
                    #[trigger] t.children@[i],
                    advanced@[i],
                ),
        decreases rest.len(),
    {
        let ghost k = advanced@.len() as int;
        let c = rest.remove(0);
        proof {
            assert(c == t.children@[k]);
            assert(decreases_to!(t => t.children));
            assert(decreases_to!(t.children => t.children@));
            assert(decreases_to!(t.children@ => t.children@[k]));
        }
        let c2 = graceful_child(c);
        advanced.push(c2);
    }
    CancellationToken {
        state: CancellationState::Graceful,
        running,
        children: advanced,
        callbacks,
    }
}

fn immediate_child(t: CancellationToken) -> (r: CancellationToken)
    ensures
        immediate_rel(t, r),
    decreases t,
{
    match t.state {
        CancellationState::Immediate => {
            return t;
        },
        _ => {},
    }
    let CancellationToken { state: _, running, children, callbacks } = t;
    let mut rest = children;
    let mut advanced: Vec<CancellationToken> = Vec::new();
    while rest.len() > 0
        invariant
            advanced@.len() + rest@.len() == t.children@.len(),
            rest@ =~= t.children@.skip(advanced@.len() as int),
            forall|i: int|
                0 <= i < advanced@.len() ==> immediate_rel(
                    #[trigger] t.children@[i],
                    advanced@[i],
                ),
        decreases rest.len(),
    {
        let ghost k = advanced@.len() as int;
        let c = rest.remove(0);
        proof {
            assert(c == t.children@[k]);
            assert(decreases_to!(t => t.children));
            assert(decreases_to!(t.children => t.children@));
            assert(decreases_to!(t.children@ => t.children@[k]));
        }
        let c2 = immediate_child(c);
        advanced.push(c2);
    }
    CancellationToken {
        state: CancellationState::Immediate,
        running,
        children: advanced,
        callbacks,
    }
}

impl CancellationToken {
    /// The current state.
    pub closed spec fn state_of(self) -> CancellationState {
        self.state
    }

    /// The running tool calls, as (call id, display name) in start order.
    pub closed spec fn running_v(self) -> Seq<(Seq<char>, Seq<char>)> {
        Seq::new(self.running@.len(), |i: int| (self.running@[i].0@, self.running@[i].1@))
    }

    /// The registered child tokens, in registration order.
    pub closed spec fn child_seq(self) -> Seq<CancellationToken> {
        self.children@
    }

    /// The registered cancel-callback handles, in registration order.
    pub closed spec fn callbacks_v(self) -> Seq<u64> {
        self.callbacks@
    }

    /// Call ids are unique.
    pub closed spec fn wf(self) -> bool {
        forall|i: int, j: int|
            0 <= i < j < self.running@.len() ==> (#[trigger] self.running@[i]).0@ != (
            #[trigger] self.running@[j]).0@
    }

    /// A fresh token: running normally, tracking nothing, with no children
    /// and no callbacks.
    pub fn new() -> (r: Self)
        ensures
            r.state_of() == CancellationState::Idle,
            r.running_v().len() == 0,
            r.child_seq().len() == 0,
            r.callbacks_v().len() == 0,
            r.wf(),
    {
        let r = CancellationToken {
            state: CancellationState::Idle,
            running: Vec::new(),
            children: Vec::new(),
            callbacks: Vec::new(),
        };
        proof {
            assert(r.running_v() =~= Seq::<(Seq<char>, Seq<char>)>::empty());
        }
        r
    }

    /// The current state.
    pub fn state(&self) -> (r: CancellationState)
        ensures
            r == self.state_of(),
    {
        self.state
    }

    /// Whether any cancellation was requested, graceful or immediate.
    pub fn is_cancelled(&self) -> (r: bool)
        ensures
            r == (self.state_of() != CancellationState::Idle),
    {
        match self.state {
            CancellationState::Idle => false,
            _ => true,
        }
    }

    /// Whether a graceful cancellation is pending.
    pub fn is_graceful(&self) -> (r: bool)
        ensures
            r == (self.state_of() == CancellationState::Graceful),
    {
        match self.state {
            CancellationState::Graceful => true,
            _ => false,
        }
    }

    /// Whether an immediate stop was requested. Once this returns true it
    /// returns true forever: no operation but [`Self::reset`] leaves
    /// `Immediate`.
    pub fn is_immediate(&self) -> (r: bool)
        ensures
            r == (self.state_of() == CancellationState::Immediate),
    {
        match self.state {
            CancellationState::Immediate => true,
            _ => false,
        }
    }

    /// Request graceful cancellation and pass it to every registered child.
    /// On a token already cancelled this changes nothing, does not
    /// re-propagate, and returns false.
    pub fn request_graceful(&mut self) -> (r: bool)
        ensures
            r == (old(self).state_of() == CancellationState::Idle),
            graceful_rel(*old(self), *final(self)),
            state_le(old(self).state_of(), final(self).state_of()),
            !r ==> *final(self) == *old(self),
    {
        match self.state {
            CancellationState::Idle => {},
            _ => {
                return false;
            },
        }
        self.state = CancellationState::Graceful;
        let mut kids: Vec<CancellationToken> = Vec::new();
        core::mem::swap(&mut self.children, &mut kids);
        let mut advanced: Vec<CancellationToken> = Vec::new();
        while kids.len() > 0
            invariant
                advanced@.len() + kids@.len() == old(self).children@.len(),
                kids@ =~= old(self).children@.skip(advanced@.len() as int),
                forall|i: int|
                    0 <= i < advanced@.len() ==> graceful_rel(
                        #[trigger] old(self).children@[i],
                        advanced@[i],
                    ),
            decreases kids.len(),
        {
            let ghost k = advanced@.len() as int;
            let c = kids.remove(0);
            proof {
                assert(c == old(self).children@[k]);
            }
            let c2 = graceful_child(c);
            advanced.push(c2);
        }
        self.children = advanced;
        true
    }

    /// Request an immediate stop and pass it to every registered child. On a
    /// token already immediate this changes nothing and returns false.
    pub fn request_immediate(&mut self) -> (r: bool)
        ensures
            r == (old(self).state_of() != CancellationState::Immediate),
            immediate_rel(*old(self), *final(self)),
            state_le(old(self).state_of(), final(self).state_of()),
            !r ==> *final(self) == *old(self),
    {
        match self.state {
            CancellationState::Immediate => {
                return false;
            },
            _ => {},
        }
        self.state = CancellationState::Immediate;
        let mut kids: Vec<CancellationToken> = Vec::new();
        core::mem::swap(&mut self.children, &mut kids);
        let mut advanced: Vec<CancellationToken> = Vec::new();
        while kids.len() > 0
            invariant
                advanced@.len() + kids@.len() == old(self).children@.len(),
                kids@ =~= old(self).children@.skip(advanced@.len() as int),
                forall|i: int|
                    0 <= i < advanced@.len() ==> immediate_rel(
                        #[trigger] old(self).children@[i],
                        advanced@[i],
                    ),
            decreases kids.len(),
        {
            let ghost k = advanced@.len() as int;
            let c = kids.remove(0);
            proof {
                assert(c == old(self).children@[k]);
            }
            let c2 = immediate_child(c);
            advanced.push(c2);
        }
        self.children = advanced;
        true
    }

    /// Reset to running and clear running-tool tracking. Children and
    /// callbacks are kept: they are session-level registrations.
    pub fn reset(&mut self)
        ensures
            final(self).state_of() == CancellationState::Idle,
            final(self).running_v().len() == 0,
            final(self).child_seq() == old(self).child_seq(),
            final(self).callbacks_v() == old(self).callbacks_v(),
            final(self).wf(),
    {
        self.state = CancellationState::Idle;
        self.running = Vec::new();
        proof {
            assert(self.running_v() =~= Seq::<(Seq<char>, Seq<char>)>::empty());
        }
    }

    /// Record that tool call `call_id` named `tool_name` started running.
    pub fn register_tool_start(&mut self, call_id: &str, tool_name: &str)
        requires
            old(self).wf(),
        ensures
            final(self).wf(),
            final(self).running_v() == remove_call_id(old(self).running_v(), call_id@).push(
                (call_id@, tool_name@),
            ),
            final(self).state_of() == old(self).state_of(),
            final(self).child_seq() == old(self).child_seq(),
            final(self).callbacks_v() == old(self).callbacks_v(),
    {
        self.remove_running(call_id);
        let ghost mid = self.running_v();
        let ghost mid_pairs = self.running@;
        self.running.push((call_id.to_owned(), tool_name.to_owned()));
        proof {
            assert(self.running_v() =~= mid.push((call_id@, tool_name@)));
            assert forall|i: int, j: int|
                0 <= i < j < self.running@.len() implies (#[trigger] self.running@[i]).0@ != (
            #[trigger] self.running@[j]).0@ by {
                if j == self.running@.len() - 1 {
                    assert(self.running@[i] == mid_pairs[i]);
                    assert(mid[i].0 == mid_pairs[i].0@);
                } else {
                    assert(self.running@[i] == mid_pairs[i]);
                    assert(self.running@[j] == mid_pairs[j]);
                }
            }
        }
    }

    /// Record that tool call `call_id` completed. Completing an unknown call
    /// changes nothing.
    pub fn register_tool_complete(&mut self, call_id: &str)
        requires
            old(self).wf(),
        ensures
            final(self).wf(),
            final(self).running_v() == remove_call_id(old(self).running_v(), call_id@),
            final(self).state_of() == old(self).state_of(),
            final(self).child_seq() == old(self).child_seq(),
            final(self).callbacks_v() == old(self).callbacks_v(),
    {
        self.remove_running(call_id);
    }

    fn remove_running(&mut self, call_id: &str)
        requires
            old(self).wf(),
        ensures
            final(self).wf(),
            final(self).running_v() == remove_call_id(old(self).running_v(), call_id@),
            forall|j: int|
                0 <= j < final(self).running_v().len()
                    ==> (#[trigger] final(self).running_v()[j]).0 != call_id@,
            final(self).state_of() == old(self).state_of(),
            final(self).child_seq() == old(self).child_seq(),
            final(self).callbacks_v() == old(self).callbacks_v(),
    {
        let key: String = call_id.to_owned();
        let mut rest: Vec<(String, String)> = Vec::new();
        core::mem::swap(&mut self.running, &mut rest);
        let ghost orig = Seq::new(rest@.len(), |i: int| (rest@[i].0@, rest@[i].1@));
        proof {
            assert(orig =~= old(self).running_v());
        }
        let mut kept: Vec<(String, String)> = Vec::new();
        while rest.len() > 0
            invariant
                key@ == call_id@,
                ({
                    let kv = Seq::new(kept@.len(), |i: int| (kept@[i].0@, kept@[i].1@));
                    let rv = Seq::new(rest@.len(), |i: int| (rest@[i].0@, rest@[i].1@));
                    remove_call_id(orig, call_id@) == kv + remove_call_id(rv, call_id@)
                }),
                forall|j: int| 0 <= j < kept@.len() ==> (#[trigger] kept@[j]).0@ != call_id@,
                ({
                    let all = kept@ + rest@;
                    forall|i: int, j: int|
                        0 <= i < j < all.len() ==> (#[trigger] all[i]).0@ != (
                        #[trigger] all[j]).0@
                }),
            decreases rest.len(),
        {
            let ghost rv_pre = Seq::new(rest@.len(), |i: int| (rest@[i].0@, rest@[i].1@));
            let ghost kv_pre = Seq::new(kept@.len(), |i: int| (kept@[i].0@, kept@[i].1@));
            let ghost all_pre = kept@ + rest@;
            let ghost kept_pre = kept@;
            let e = rest.remove(0);
            proof {
                let rv_now = Seq::new(rest@.len(), |i: int| (rest@[i].0@, rest@[i].1@));
                assert(rv_now =~= rv_pre.skip(1));
            }
            if e.0 == key {
            } else {
                kept.push(e);
            }
            proof {
                let rv_now = Seq::new(rest@.len(), |i: int| (rest@[i].0@, rest@[i].1@));
                let kv_now = Seq::new(kept@.len(), |i: int| (kept@[i].0@, kept@[i].1@));
                if e.0@ == call_id@ {
                    assert(kv_now =~= kv_pre);
                    assert(remove_call_id(rv_pre, call_id@) == remove_call_id(rv_now, call_id@));
                    let all = kept@ + rest@;
                    assert forall|i: int, j: int|
                        0 <= i < j < all.len() implies (#[trigger] all[i]).0@ != (
                    #[trigger] all[j]).0@ by {
                        let ki = kept_pre.len() as int;
                        let i2: int = if i < ki { i } else { i + 1 };
                        let j2: int = if j < ki { j } else { j + 1 };
                        assert(all[i] == all_pre[i2]);
                        assert(all[j] == all_pre[j2]);
                    }
                } else {
                    assert(kv_now =~= kv_pre.push((e.0@, e.1@)));
                    assert(remove_call_id(rv_pre, call_id@) == seq![(e.0@, e.1@)]
                        + remove_call_id(rv_now, call_id@));
                    assert(kv_now + remove_call_id(rv_now, call_id@) =~= kv_pre + (seq![
                        (e.0@, e.1@),
                    ] + remove_call_id(rv_now, call_id@)));
                    assert(kept@ + rest@ =~= all_pre);
                }
            }
        }
        proof {
            let rv_now = Seq::new(rest@.len(), |i: int| (rest@[i].0@, rest@[i].1@));
            assert(rv_now =~= Seq::<(Seq<char>, Seq<char>)>::empty());
            let kv_now = Seq::new(kept@.len(), |i: int| (kept@[i].0@, kept@[i].1@));
            assert(kv_now + remove_call_id(rv_now, call_id@) =~= kv_now);
        }
        proof {
            let all = kept@ + rest@;
            assert(all =~= kept@);
            assert forall|i: int, j: int|
                0 <= i < j < kept@.len() implies (#[trigger] kept@[i]).0@ != (
            #[trigger] kept@[j]).0@ by {
                assert(kept@[i] == all[i]);
                assert(kept@[j] == all[j]);
            }
        }
        let ghost kept_final = kept@;
        self.running = kept;
        proof {
            assert(self.running@ == kept_final);
            let kv_now = Seq::new(kept_final.len(), |i: int| (kept_final[i].0@, kept_final[i].1@));
            assert(self.running_v() =~= kv_now);
        }
    }

    /// The call ids of the running tools, in start order.
    pub fn running_tools(&self) -> (r: Vec<String>)
        ensures
            r.deep_view() == Seq::new(self.running_v().len(), |i: int| self.running_v()[i].0),
    {
        let n: usize = self.running.len();
        let mut r: Vec<String> = Vec::new();
        let mut i: usize = 0;
        while i < n
            invariant
                n == self.running@.len(),
                0 <= i <= n,
                r@.len() == i,
                forall|j: int| 0 <= j < i ==> (#[trigger] r@[j])@ == self.running@[j].0@,
            decreases n - i,
        {
            r.push(self.running[i].0.clone());
            i = i + 1;
        }
        proof {
            assert(r.deep_view() =~= Seq::new(
                self.running_v().len(),
                |i: int| self.running_v()[i].0,
            ));
        }
        r
    }

    /// The display names of the running tools, in start order.
    pub fn running_tool_names(&self) -> (r: Vec<String>)
        ensures
            r.deep_view() == Seq::new(self.running_v().len(), |i: int| self.running_v()[i].1),
    {
        let n: usize = self.running.len();
        let mut r: Vec<String> = Vec::new();
        let mut i: usize = 0;
        while i < n
            invariant
                n == self.running@.len(),
                0 <= i <= n,
                r@.len() == i,
                forall|j: int| 0 <= j < i ==> (#[trigger] r@[j])@ == self.running@[j].1@,
            decreases n - i,
        {
            r.push(self.running[i].1.clone());
            i = i + 1;
        }
        proof {
            assert(r.deep_view() =~= Seq::new(
                self.running_v().len(),
                |i: int| self.running_v()[i].1,
            ));
        }
        r
    }

    /// Register a child token. A parent already cancelled brings the child
    /// to at least its own state before keeping it.
    pub fn register_child(&mut self, child: CancellationToken)
        ensures
            final(self).state_of() == old(self).state_of(),
            final(self).running_v() == old(self).running_v(),
            final(self).callbacks_v() == old(self).callbacks_v(),
            final(self).child_seq().len() == old(self).child_seq().len() + 1,
            forall|i: int|
                0 <= i < old(self).child_seq().len() ==> final(self).child_seq()[i] == old(
                    self,
                ).child_seq()[i],
            match old(self).state_of() {
                CancellationState::Idle => final(self).child_seq().last() == child,
                CancellationState::Graceful => graceful_rel(child, final(self).child_seq().last()),
                CancellationState::Immediate => immediate_rel(
                    child,
                    final(self).child_seq().last(),
                ),
            },
    {
        let advanced: CancellationToken = match self.state {
            CancellationState::Idle => child,
            CancellationState::Graceful => graceful_child(child),
            CancellationState::Immediate => immediate_child(child),
        };
        self.children.push(advanced);
    }

    /// Remove and return the child at `index`; out of range is a no-op.
    pub fn unregister_child(&mut self, index: usize) -> (r: Option<CancellationToken>)
        ensures
            final(self).state_of() == old(self).state_of(),
            final(self).running_v() == old(self).running_v(),
            final(self).callbacks_v() == old(self).callbacks_v(),
            if index < old(self).child_seq().len() {
                r == Option::Some(old(self).child_seq()[index as int]) && final(self).child_seq()
                    == old(self).child_seq().remove(index as int)
            } else {
                r is None && final(self).child_seq() == old(self).child_seq()
            },
    {
        if index < self.children.len() {
            let c = self.children.remove(index);
            Option::Some(c)
        } else {
            Option::None
        }
    }

    /// Register a cancel-callback handle. The host invokes the handles in
    /// registration order when it observes cancellation, isolating failures.
    pub fn on_cancel(&mut self, callback: u64)
        ensures
            final(self).state_of() == old(self).state_of(),
            final(self).running_v() == old(self).running_v(),
            final(self).child_seq() == old(self).child_seq(),
            final(self).callbacks_v() == old(self).callbacks_v().push(callback),
    {
        self.callbacks.push(callback);
    }

    /// A snapshot of the registered cancel-callback handles, in order.
    pub fn cancel_callbacks(&self) -> (r: Vec<u64>)
        ensures
            r@ == self.callbacks_v(),
    {
        let n: usize = self.callbacks.len();
        let mut r: Vec<u64> = Vec::new();
        let mut i: usize = 0;
        while i < n
            invariant
                n == self.callbacks@.len(),
                0 <= i <= n,
                r@ =~= self.callbacks@.take(i as int),
            decreases n - i,
        {
            r.push(self.callbacks[i]);
            i = i + 1;
        }
        proof {
            assert(self.callbacks@.take(n as int) =~= self.callbacks@);
        }
        r
    }
}

/// Advancing a child under a cancelled parent never lifts the child above
/// the parent's state: a child no further along than the parent beforehand
/// ends no further along afterwards.
pub proof fn lemma_child_not_past_parent(
    parent_state: CancellationState,
    pre: CancellationToken,
    post: CancellationToken,
)
    requires
        state_le(pre.state_of(), parent_state),
        parent_state == CancellationState::Graceful ==> graceful_rel(pre, post),
        parent_state == CancellationState::Immediate ==> immediate_rel(pre, post),
        parent_state != CancellationState::Idle,
    ensures
        state_le(post.state_of(), parent_state),
{
}

} // verus!
