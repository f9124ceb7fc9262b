//! The module coordinator: mount points, capabilities, contribution
//! channels, the cleanup stack, and the hook and cancellation subsystems.
//!
//! The coordinator is generic over the module kinds it hosts: the hook
//! handler `H`, orchestrator `O`, context manager `C`, provider `P`, tool
//! `T`, cleanup task `K` and contributor `B`.

use vstd::prelude::*;

use crate::cancellation::CancellationState;
use crate::cancellation::CancellationToken;
use crate::cancellation::graceful_rel;
use crate::cancellation::immediate_rel;
use crate::data::DataMap;
use crate::data::DataValue;
use crate::data::Dv;
use crate::hooks::HookRegistry;
use crate::slots::NamedSlots;
use crate::slots::lemma_slot_other_names;
use crate::slots::lemma_slot_remove_absent;
use crate::slots::slot_remove;
use crate::traits::CleanupTask;
use crate::traits::ContextManager;
use crate::traits::Contributor;
use crate::traits::HookHandler;
use crate::traits::Orchestrator;
use crate::traits::Provider;
use crate::traits::Tool;

verus! {

/// Central coordination hub for one session.
pub struct Coordinator<H, O, C, P, T, K, B> {
    pub(crate) hooks: HookRegistry<H>,
    pub(crate) cancellation: CancellationToken,
    pub(crate) orchestrator: Option<O>,
    pub(crate) context: Option<C>,
    pub(crate) providers: NamedSlots<P>,
    pub(crate) tools: NamedSlots<T>,
    capabilities: DataMap,
    channels: NamedSlots<Vec<(String, B)>>,
    cleanup_tasks: Vec<K>,
    config: DataMap,
    current_turn_injections: usize,
}

/// One collection pass over a channel: each contributor is called once, in
/// registration order; the values of those that yielded one are collected.
pub open spec fn contributions_run<B: Contributor>(es: Seq<(Seq<char>, B)>) -> (
    Seq<(Seq<char>, B)>,
    Seq<Dv>,
)
    decreases es.len(),
{
    if es.len() == 0 {
        (es, Seq::empty())
    } else {
        let e2 = (es[0].0, es[0].1.next_state());
        let rest = contributions_run(es.skip(1));
        let vals = match es[0].1.response() {
            Option::Some(v) => seq![v] + rest.1,
            Option::None => rest.1,
        };
        (seq![e2] + rest.0, vals)
    }
}

/// The states of the cleanup tasks after one teardown pass, in invocation
/// order: the reverse of registration order, each task run once.
pub open spec fn cleanup_outcome<K: CleanupTask>(stack: Seq<K>) -> Seq<K> {
    Seq::new(stack.len(), |i: int| stack[stack.len() - 1 - i].next_state())
}

/// The channel entry views of a contributor list.
pub open spec fn channel_views<B>(v: Seq<(String, B)>) -> Seq<(Seq<char>, B)> {
    Seq::new(v.len(), |i: int| (v[i].0@, v[i].1))
}

/// The value of an integer field under the `session` section of a
/// configuration document, if present with that shape.
pub open spec fn spec_session_int(cfg: Map<Seq<char>, Dv>, key: Seq<char>) -> Option<i64> {
    if cfg.contains_key("session"@) {
        match cfg["session"@] {
            Dv::Obj(m) => if m.contains_key(key) {
                match m[key] {
                    Dv::Int(i) => Option::Some(i as i64),
                    _ => Option::None,
                }
            } else {
                Option::None
            },
            _ => Option::None,
        }
    } else {
        Option::None
    }
}

impl<
    H: HookHandler,
    O: Orchestrator<C, P, T>,
    C: ContextManager,
    P: Provider,
    T: Tool,
    K: CleanupTask,
    B: Contributor,
> Coordinator<H, O, C, P, T, K, B> {
    /// The hook registry.
    pub closed spec fn hooks_r(self) -> HookRegistry<H> {
        self.hooks
    }

    /// The cancellation token.
    pub closed spec fn cancel_t(self) -> CancellationToken {
        self.cancellation
    }

    /// The mounted orchestrator, if any.
    pub closed spec fn orchestrator_s(self) -> Option<O> {
        self.orchestrator
    }

    /// The mounted context manager, if any.
    pub closed spec fn context_s(self) -> Option<C> {
        self.context
    }

    /// The mounted providers.
    pub closed spec fn providers_s(self) -> NamedSlots<P> {
        self.providers
    }

    /// The mounted tools.
    pub closed spec fn tools_s(self) -> NamedSlots<T> {
        self.tools
    }

    /// The capability registry.
    pub closed spec fn capabilities_v(self) -> Map<Seq<char>, Dv> {
        self.capabilities@
    }

    /// The contributors of channel `ch`, in registration order.
    pub closed spec fn channel_s(self, ch: Seq<char>) -> Seq<(Seq<char>, B)> {
        match self.channels.spec_get(ch) {
            Option::Some(v) => channel_views(v@),
            Option::None => Seq::empty(),
        }
    }

    /// The cleanup stack, in registration order.
    pub closed spec fn cleanup_v(self) -> Seq<K> {
        self.cleanup_tasks@
    }

    /// The session configuration document.
    pub closed spec fn config_v(self) -> Map<Seq<char>, Dv> {
        self.config@
    }

    /// The per-turn injection counter.
    pub closed spec fn injections_n(self) -> usize {
        self.current_turn_injections
    }

    /// Every constituent registry is well-formed.
    pub closed spec fn wf(self) -> bool {
        &&& self.hooks.wf()
        &&& self.cancellation.wf()
        &&& self.providers.wf()
        &&& self.tools.wf()
        &&& self.capabilities.wf()
        &&& self.channels.wf()
        &&& self.config.wf()
    }

    /// A well-formed coordinator has well-formed parts.
    pub proof fn lemma_wf_parts(self)
        requires
            self.wf(),
        ensures
            self.hooks_r().wf(),
            self.cancel_t().wf(),
            self.providers_s().wf(),
            self.tools_s().wf(),
            self.config_spec().wf(),
    {
    }

    /// Everything but the hook registry is unchanged.
    pub open spec fn same_but_hooks(pre: Self, post: Self) -> bool {
        &&& post.cancel_t() == pre.cancel_t()
        &&& post.orchestrator_s() == pre.orchestrator_s()
        &&& post.context_s() == pre.context_s()
        &&& post.providers_s() == pre.providers_s()
        &&& post.tools_s() == pre.tools_s()
        &&& post.capabilities_v() == pre.capabilities_v()
        &&& forall|ch: Seq<char>| post.channel_s(ch) == pre.channel_s(ch)
        &&& post.cleanup_v() == pre.cleanup_v()
        &&& post.config_v() == pre.config_v()
        &&& post.injections_n() == pre.injections_n()
    }

    /// A coordinator for the given configuration, with everything empty and
    /// a fresh cancellation token.
    pub fn new(config: DataMap) -> (r: Self)
        requires
            config.wf(),
        ensures
            r.wf(),
            r.config_v() == config@,
            r.orchestrator_s() is None,
            r.context_s() is None,
            r.providers_s().view_pairs().len() == 0,
            r.tools_s().view_pairs().len() == 0,
            r.capabilities_v() == Map::<Seq<char>, Dv>::empty(),
            r.cleanup_v().len() == 0,
            r.injections_n() == 0,
            r.cancel_t().state_of() == CancellationState::Idle,
            r.cancel_t().child_seq().len() == 0,
            r.cancel_t().running_v().len() == 0,
            r.cancel_t().callbacks_v().len() == 0,
            forall|e: Seq<char>| (#[trigger] r.hooks_r().entries(e)).len() == 0,
            r.hooks_r().defaults_v() is None,
            forall|ch: Seq<char>| (#[trigger] r.channel_s(ch)).len() == 0,
    {
        let r = Coordinator {
            hooks: HookRegistry::new(),
            cancellation: CancellationToken::new(),
            orchestrator: Option::None,
            context: Option::None,
            providers: NamedSlots::new(),
            tools: NamedSlots::new(),
            capabilities: DataMap::new(),
            channels: NamedSlots::new(),
            cleanup_tasks: Vec::new(),
            config,
            current_turn_injections: 0,
        };
        proof {
            assert forall|ch: Seq<char>| (#[trigger] r.channel_s(ch)).len() == 0 by {
                assert(r.channels.view_pairs().len() == 0);
                assert(r.channels.spec_get(ch) is None);
            }
        }
        r
    }

    /// A coordinator with an empty configuration, for tests.
    pub fn new_for_test() -> (r: Self)
        ensures
            r.wf(),
            r.config_v() == Map::<Seq<char>, Dv>::empty(),
            r.orchestrator_s() is None,
            r.context_s() is None,
            r.providers_s().view_pairs().len() == 0,
            r.tools_s().view_pairs().len() == 0,
            r.cleanup_v().len() == 0,
            r.injections_n() == 0,
            r.cancel_t().state_of() == CancellationState::Idle,
            forall|e: Seq<char>| (#[trigger] r.hooks_r().entries(e)).len() == 0,
            forall|ch: Seq<char>| (#[trigger] r.channel_s(ch)).len() == 0,
    {
        Self::new(DataMap::new())
    }

    /// Set the orchestrator, replacing any mounted one.
    pub fn set_orchestrator(&mut self, orchestrator: O)
        ensures
            final(self).orchestrator_s() == Option::Some(orchestrator),
            final(self).context_s() == old(self).context_s(),
            final(self).providers_s() == old(self).providers_s(),
            final(self).tools_s() == old(self).tools_s(),
            final(self).hooks_r() == old(self).hooks_r(),
            final(self).cancel_t() == old(self).cancel_t(),
            final(self).capabilities_v() == old(self).capabilities_v(),
            forall|ch: Seq<char>| final(self).channel_s(ch) == old(self).channel_s(ch),
            final(self).cleanup_v() == old(self).cleanup_v(),
            final(self).config_v() == old(self).config_v(),
            final(self).injections_n() == old(self).injections_n(),
            final(self).wf() == old(self).wf(),
    {
        self.orchestrator = Option::Some(orchestrator);
    }

    /// The mounted orchestrator, if any.
    pub fn orchestrator(&self) -> (r: Option<&O>)
        ensures
            match r {
                Option::Some(o) => self.orchestrator_s() == Option::Some(*o),
                Option::None => self.orchestrator_s() is None,
            },
    {
        match self.orchestrator {
            Option::Some(ref o) => Option::Some(o),
            Option::None => Option::None,
        }
    }

    /// Set the context manager, replacing any mounted one.
    pub fn set_context(&mut self, context: C)
        ensures
            final(self).context_s() == Option::Some(context),
            final(self).orchestrator_s() == old(self).orchestrator_s(),
            final(self).providers_s() == old(self).providers_s(),
            final(self).tools_s() == old(self).tools_s(),
            final(self).hooks_r() == old(self).hooks_r(),
            final(self).cancel_t() == old(self).cancel_t(),
            final(self).capabilities_v() == old(self).capabilities_v(),
            forall|ch: Seq<char>| final(self).channel_s(ch) == old(self).channel_s(ch),
            final(self).cleanup_v() == old(self).cleanup_v(),
            final(self).config_v() == old(self).config_v(),
            final(self).injections_n() == old(self).injections_n(),
            final(self).wf() == old(self).wf(),
    {
        self.context = Option::Some(context);
    }

    /// The mounted context manager, if any.
    pub fn context(&self) -> (r: Option<&C>)
        ensures
            match r {
                Option::Some(c) => self.context_s() == Option::Some(*c),
                Option::None => self.context_s() is None,
            },
    {
        match self.context {
            Option::Some(ref c) => Option::Some(c),
            Option::None => Option::None,
        }
    }

    /// Mount a provider under `name`, replacing any provider already there.
    pub fn mount_provider(&mut self, name: &str, provider: P)
        requires
            old(self).wf(),
        ensures
            final(self).wf(),
            final(self).providers_s().view_pairs() == slot_remove(
                old(self).providers_s().view_pairs(),
                name@,
            ).push((name@, provider)),
            final(self).providers_s().spec_get(name@) == Option::Some(provider),
            final(self).tools_s() == old(self).tools_s(),
            final(self).orchestrator_s() == old(self).orchestrator_s(),
            final(self).context_s() == old(self).context_s(),
            final(self).hooks_r() == old(self).hooks_r(),
            final(self).cancel_t() == old(self).cancel_t(),
    {
        self.providers.mount(name.to_owned(), provider);
    }

    /// The provider mounted under `name`, if any.
    pub fn get_provider(&self, name: &str) -> (r: Option<&P>)
        requires
            self.wf(),
        ensures
            match r {
                Option::Some(p) => self.providers_s().spec_get(name@) == Option::Some(*p),
                Option::None => self.providers_s().spec_get(name@) is None,
            },
    {
        self.providers.get(name)
    }

    /// The mounted providers.
    pub fn providers(&self) -> (r: &NamedSlots<P>)
        ensures
            *r == self.providers_s(),
    {
        &self.providers
    }

    /// Unmount the provider under `name`; absent names are a no-op.
    pub fn unmount_provider(&mut self, name: &str) -> (r: bool)
        requires
            old(self).wf(),
        ensures
            final(self).wf(),
            r == (old(self).providers_s().spec_get(name@) is Some),
            final(self).providers_s().view_pairs() == slot_remove(
                old(self).providers_s().view_pairs(),
                name@,
            ),
            final(self).tools_s() == old(self).tools_s(),
            final(self).orchestrator_s() == old(self).orchestrator_s(),
            final(self).context_s() == old(self).context_s(),
            final(self).hooks_r() == old(self).hooks_r(),
            final(self).cancel_t() == old(self).cancel_t(),
    {
        self.providers.unmount(name)
    }

    /// Mount a tool under `name`, replacing any tool already there.
    pub fn mount_tool(&mut self, name: &str, tool: T)
        requires
            old(self).wf(),
        ensures
            final(self).wf(),
            final(self).tools_s().view_pairs() == slot_remove(
                old(self).tools_s().view_pairs(),
                name@,
            ).push((name@, tool)),
            final(self).tools_s().spec_get(name@) == Option::Some(tool),
            final(self).providers_s() == old(self).providers_s(),
            final(self).orchestrator_s() == old(self).orchestrator_s(),
            final(self).context_s() == old(self).context_s(),
            final(self).hooks_r() == old(self).hooks_r(),
            final(self).cancel_t() == old(self).cancel_t(),
    {
        self.tools.mount(name.to_owned(), tool);
    }

    /// The tool mounted under `name`, if any.
    pub fn get_tool(&self, name: &str) -> (r: Option<&T>)
        requires
            self.wf(),
        ensures
            match r {
                Option::Some(t) => self.tools_s().spec_get(name@) == Option::Some(*t),
                Option::None => self.tools_s().spec_get(name@) is None,
            },
    {
        self.tools.get(name)
    }

    /// The mounted tools.
    pub fn tools(&self) -> (r: &NamedSlots<T>)
        ensures
            *r == self.tools_s(),
    {
        &self.tools
    }

    /// Unmount the tool under `name`; absent names are a no-op.
    pub fn unmount_tool(&mut self, name: &str) -> (r: bool)
        requires
            old(self).wf(),
        ensures
            final(self).wf(),
            r == (old(self).tools_s().spec_get(name@) is Some),
            final(self).tools_s().view_pairs() == slot_remove(
                old(self).tools_s().view_pairs(),
                name@,
            ),
            final(self).providers_s() == old(self).providers_s(),
            final(self).orchestrator_s() == old(self).orchestrator_s(),
            final(self).context_s() == old(self).context_s(),
            final(self).hooks_r() == old(self).hooks_r(),
            final(self).cancel_t() == old(self).cancel_t(),
    {
        self.tools.unmount(name)
    }

    /// Take the orchestrator out for a run, leaving the slot empty.
    pub fn take_orchestrator(&mut self) -> (r: Option<O>)
        ensures
            r == old(self).orchestrator_s(),
            final(self).orchestrator_s() is None,
            final(self).context_s() == old(self).context_s(),
            final(self).providers_s() == old(self).providers_s(),
            final(self).tools_s() == old(self).tools_s(),
            final(self).hooks_r() == old(self).hooks_r(),
            final(self).cancel_t() == old(self).cancel_t(),
            final(self).capabilities_v() == old(self).capabilities_v(),
            forall|ch: Seq<char>| final(self).channel_s(ch) == old(self).channel_s(ch),
            final(self).cleanup_v() == old(self).cleanup_v(),
            final(self).config_v() == old(self).config_v(),
            final(self).injections_n() == old(self).injections_n(),
            final(self).wf() == old(self).wf(),
    {
        let mut taken: Option<O> = Option::None;
        core::mem::swap(&mut self.orchestrator, &mut taken);
        taken
    }

    /// Take the context manager out for a run, leaving the slot empty.
    pub fn take_context(&mut self) -> (r: Option<C>)
        ensures
            r == old(self).context_s(),
            final(self).context_s() is None,
            final(self).orchestrator_s() == old(self).orchestrator_s(),
            final(self).providers_s() == old(self).providers_s(),
            final(self).tools_s() == old(self).tools_s(),
            final(self).hooks_r() == old(self).hooks_r(),
            final(self).cancel_t() == old(self).cancel_t(),
            final(self).capabilities_v() == old(self).capabilities_v(),
            forall|ch: Seq<char>| final(self).channel_s(ch) == old(self).channel_s(ch),
            final(self).cleanup_v() == old(self).cleanup_v(),
            final(self).config_v() == old(self).config_v(),
            final(self).injections_n() == old(self).injections_n(),
            final(self).wf() == old(self).wf(),
    {
        let mut taken: Option<C> = Option::None;
        core::mem::swap(&mut self.context, &mut taken);
        taken
    }

    /// Take the provider table out for a run, leaving it empty.
    pub fn take_providers(&mut self) -> (r: NamedSlots<P>)
        ensures
            r == old(self).providers_s(),
            final(self).providers_s().view_pairs().len() == 0,
            final(self).providers_s().wf(),
            final(self).orchestrator_s() == old(self).orchestrator_s(),
            final(self).context_s() == old(self).context_s(),
            final(self).tools_s() == old(self).tools_s(),
            final(self).hooks_r() == old(self).hooks_r(),
            final(self).cancel_t() == old(self).cancel_t(),
            final(self).capabilities_v() == old(self).capabilities_v(),
            forall|ch: Seq<char>| final(self).channel_s(ch) == old(self).channel_s(ch),
            final(self).cleanup_v() == old(self).cleanup_v(),
            final(self).config_v() == old(self).config_v(),
            final(self).injections_n() == old(self).injections_n(),
            old(self).wf() ==> final(self).wf(),
    {
        let mut taken: NamedSlots<P> = NamedSlots::new();
        core::mem::swap(&mut self.providers, &mut taken);
        taken
    }

    /// Put a provider table back.
    pub fn set_providers(&mut self, providers: NamedSlots<P>)
        ensures
            final(self).providers_s() == providers,
            final(self).orchestrator_s() == old(self).orchestrator_s(),
            final(self).context_s() == old(self).context_s(),
            final(self).tools_s() == old(self).tools_s(),
            final(self).hooks_r() == old(self).hooks_r(),
            final(self).cancel_t() == old(self).cancel_t(),
            final(self).capabilities_v() == old(self).capabilities_v(),
            forall|ch: Seq<char>| final(self).channel_s(ch) == old(self).channel_s(ch),
            final(self).cleanup_v() == old(self).cleanup_v(),
            final(self).config_v() == old(self).config_v(),
            final(self).injections_n() == old(self).injections_n(),
            old(self).wf() && providers.wf() ==> final(self).wf(),
    {
        self.providers = providers;
    }

    /// Take the tool table out for a run, leaving it empty.
    pub fn take_tools(&mut self) -> (r: NamedSlots<T>)
        ensures
            r == old(self).tools_s(),
            final(self).tools_s().view_pairs().len() == 0,
            final(self).tools_s().wf(),
            final(self).orchestrator_s() == old(self).orchestrator_s(),
            final(self).context_s() == old(self).context_s(),
            final(self).providers_s() == old(self).providers_s(),
            final(self).hooks_r() == old(self).hooks_r(),
            final(self).cancel_t() == old(self).cancel_t(),
            final(self).capabilities_v() == old(self).capabilities_v(),
            forall|ch: Seq<char>| final(self).channel_s(ch) == old(self).channel_s(ch),
            final(self).cleanup_v() == old(self).cleanup_v(),
            final(self).config_v() == old(self).config_v(),
            final(self).injections_n() == old(self).injections_n(),
            old(self).wf() ==> final(self).wf(),
    {
        let mut taken: NamedSlots<T> = NamedSlots::new();
        core::mem::swap(&mut self.tools, &mut taken);
        taken
    }

    /// Put a tool table back.
    pub fn set_tools(&mut self, tools: NamedSlots<T>)
        ensures
            final(self).tools_s() == tools,
            final(self).orchestrator_s() == old(self).orchestrator_s(),
            final(self).context_s() == old(self).context_s(),
            final(self).providers_s() == old(self).providers_s(),
            final(self).hooks_r() == old(self).hooks_r(),
            final(self).cancel_t() == old(self).cancel_t(),
            final(self).capabilities_v() == old(self).capabilities_v(),
            forall|ch: Seq<char>| final(self).channel_s(ch) == old(self).channel_s(ch),
            final(self).cleanup_v() == old(self).cleanup_v(),
            final(self).config_v() == old(self).config_v(),
            final(self).injections_n() == old(self).injections_n(),
            old(self).wf() && tools.wf() ==> final(self).wf(),
    {
        self.tools = tools;
    }

    /// The hook registry, for reading.
    pub fn hooks(&self) -> (r: &HookRegistry<H>)
        ensures
            *r == self.hooks_r(),
    {
        &self.hooks
    }

    /// The cancellation token, for reading.
    pub fn cancellation(&self) -> (r: &CancellationToken)
        ensures
            *r == self.cancel_t(),
    {
        &self.cancellation
    }

    /// The hook registry, for registering and emitting.
    pub fn hooks_mut(&mut self) -> (r: &mut HookRegistry<H>)
        ensures
            *r == old(self).hooks_r(),
            final(self).hooks_r() == *final(r),
            Self::same_but_hooks(*old(self), *final(self)),
            old(self).wf() ==> final(self).wf() == final(r).wf(),
    {
        &mut self.hooks
    }

    /// The cancellation token, for requesting and tracking.
    pub fn cancellation_mut(&mut self) -> (r: &mut CancellationToken)
        ensures
            *r == old(self).cancel_t(),
            final(self).cancel_t() == *final(r),
            final(self).hooks_r() == old(self).hooks_r(),
            final(self).orchestrator_s() == old(self).orchestrator_s(),
            final(self).context_s() == old(self).context_s(),
            final(self).providers_s() == old(self).providers_s(),
            final(self).tools_s() == old(self).tools_s(),
            final(self).capabilities_v() == old(self).capabilities_v(),
            forall|ch: Seq<char>| final(self).channel_s(ch) == old(self).channel_s(ch),
            final(self).cleanup_v() == old(self).cleanup_v(),
            final(self).config_v() == old(self).config_v(),
            final(self).injections_n() == old(self).injections_n(),
    {
        &mut self.cancellation
    }

    /// The session configuration document.
    pub fn config(&self) -> (r: &DataMap)
        ensures
            *r == self.config_spec(),
    {
        &self.config
    }

    /// The configuration document as a value.
    pub closed spec fn config_spec(self) -> DataMap {
        self.config
    }

    /// Publish a capability value under `name`.
    pub fn register_capability(&mut self, name: &str, value: DataValue)
        requires
            old(self).wf(),
            value.wf(),
        ensures
            final(self).wf(),
            final(self).capabilities_v() == old(self).capabilities_v().insert(name@, value.dv()),
            final(self).hooks_r() == old(self).hooks_r(),
            final(self).cancel_t() == old(self).cancel_t(),
            final(self).providers_s() == old(self).providers_s(),
            final(self).tools_s() == old(self).tools_s(),
            final(self).orchestrator_s() == old(self).orchestrator_s(),
            final(self).context_s() == old(self).context_s(),
            final(self).cleanup_v() == old(self).cleanup_v(),
    {
        self.capabilities.insert(name.to_owned(), value);
    }

    /// The capability registered under `name`, if any.
    pub fn get_capability(&self, name: &str) -> (r: Option<&DataValue>)
        requires
            self.wf(),
        ensures
            match r {
                Option::Some(v) => self.capabilities_v().contains_key(name@) && v.dv()
                    == self.capabilities_v()[name@],
                Option::None => !self.capabilities_v().contains_key(name@),
            },
    {
        self.capabilities.get(name)
    }

    /// Register a contributor on channel `channel` under `name`, after
    /// every contributor already registered there.
    pub fn register_contributor(&mut self, channel: &str, name: &str, callback: B)
        requires
            old(self).wf(),
        ensures
            final(self).wf(),
            final(self).channel_s(channel@) == old(self).channel_s(channel@).push(
                (name@, callback),
            ),
            forall|ch: Seq<char>|
                ch != channel@ ==> final(self).channel_s(ch) == old(self).channel_s(ch),
            final(self).hooks_r() == old(self).hooks_r(),
            final(self).cancel_t() == old(self).cancel_t(),
            final(self).providers_s() == old(self).providers_s(),
            final(self).tools_s() == old(self).tools_s(),
            final(self).orchestrator_s() == old(self).orchestrator_s(),
            final(self).context_s() == old(self).context_s(),
            final(self).cleanup_v() == old(self).cleanup_v(),
            final(self).capabilities_v() == old(self).capabilities_v(),
    {
        let mut entries: Vec<(String, B)> = match self.channels.take(channel) {
            Option::Some(v) => v,
            Option::None => Vec::new(),
        };
        let ghost pre_views = channel_views(entries@);
        proof {
            assert(pre_views =~= old(self).channel_s(channel@));
        }
        entries.push((name.to_owned(), callback));
        proof {
            assert(channel_views(entries@) =~= pre_views.push((name@, callback)));
        }
        self.channels.mount(channel.to_owned(), entries);
        proof {
            let entry = (channel@, self.channels.spec_get(channel@).unwrap());
            assert forall|ch: Seq<char>|
                ch != channel@ implies self.channel_s(ch) == old(self).channel_s(ch) by {
                lemma_slot_other_names(old(self).channels.view_pairs(), channel@, entry, ch);
                lemma_slot_other_names(
                    slot_remove(old(self).channels.view_pairs(), channel@),
                    channel@,
                    entry,
                    ch,
                );
                lemma_slot_other_names(
                    slot_remove(
                        slot_remove(old(self).channels.view_pairs(), channel@),
                        channel@,
                    ),
                    channel@,
                    entry,
                    ch,
                );
            }
        }
    }

    /// Collect one contribution from every contributor on `channel`, in
    /// registration order; contributors that fail are skipped silently.
    pub fn collect_contributions(&mut self, channel: &str) -> (r: Vec<DataValue>)
        requires
            old(self).wf(),
        ensures
            final(self).wf(),
            ({
                let out = contributions_run(old(self).channel_s(channel@));
                &&& final(self).channel_s(channel@) == out.0
                &&& Seq::new(r@.len(), |i: int| r@[i].dv()) == out.1
            }),
            forall|j: int| 0 <= j < r@.len() ==> (#[trigger] r@[j]).wf(),
            forall|ch: Seq<char>|
                ch != channel@ ==> final(self).channel_s(ch) == old(self).channel_s(ch),
            final(self).hooks_r() == old(self).hooks_r(),
            final(self).cancel_t() == old(self).cancel_t(),
            final(self).providers_s() == old(self).providers_s(),
            final(self).tools_s() == old(self).tools_s(),
            final(self).orchestrator_s() == old(self).orchestrator_s(),
            final(self).context_s() == old(self).context_s(),
            final(self).cleanup_v() == old(self).cleanup_v(),
            final(self).capabilities_v() == old(self).capabilities_v(),
    {
        let taken = self.channels.take(channel);
        if taken.is_none() {
            let r: Vec<DataValue> = Vec::new();
            proof {
                assert(self.channels.view_pairs() == slot_remove(
                    old(self).channels.view_pairs(),
                    channel@,
                ));
                lemma_slot_remove_absent(old(self).channels.view_pairs(), channel@);
                assert(self.channels.view_pairs() =~= old(self).channels.view_pairs());
                assert(self.channel_s(channel@) =~= Seq::<(Seq<char>, B)>::empty());
                assert(old(self).channel_s(channel@) =~= Seq::<(Seq<char>, B)>::empty());
                let out = contributions_run(old(self).channel_s(channel@));
                assert(out.0 =~= Seq::<(Seq<char>, B)>::empty());
                assert(Seq::new(r@.len(), |i: int| r@[i].dv()) =~= Seq::<Dv>::empty());
            }
            return r;
        }
        let mut entries: Vec<(String, B)> = match taken {
            Option::Some(v) => v,
            Option::None => Vec::new(),
        };
        let ghost orig = channel_views(entries@);
        proof {
            assert(orig =~= old(self).channel_s(channel@));
        }
        let ghost full = contributions_run(orig);
        let mut rest = entries;
        let mut done: Vec<(String, B)> = Vec::new();
        let mut collected: Vec<DataValue> = Vec::new();
        while rest.len() > 0
            invariant
                full == contributions_run(orig),
                done@.len() + rest@.len() == orig.len(),
                channel_views(rest@) =~= orig.skip(done@.len() as int),
                forall|j: int| 0 <= j < done@.len() ==> (#[trigger] done@[j]).0@ == orig[j].0,
                forall|j: int| 0 <= j < collected@.len() ==> (#[trigger] collected@[j]).wf(),
                full.0 == channel_views(done@) + contributions_run(channel_views(rest@)).0,
                full.1 == Seq::new(collected@.len(), |i: int| collected@[i].dv())
                    + contributions_run(channel_views(rest@)).1,
            decreases rest.len(),
        {
            let ghost rem_pre = channel_views(rest@);
            let ghost coll_pre = collected@;
            let mut e = rest.remove(0);
            proof {
                assert(channel_views(rest@) =~= rem_pre.skip(1));
            }
            let res = e.1.contribute();
            proof {
                assert(e.0@ == rem_pre[0].0);
                assert(e.1 == rem_pre[0].1.next_state());
            }
            match res {
                Result::Ok(v) => {
                    let ghost dv = v.dv();
                    collected.push(v);
                    proof {
                        assert(Seq::new(collected@.len(), |i: int| collected@[i].dv()) =~= Seq::new(
                            coll_pre.len(),
                            |i: int| coll_pre[i].dv(),
                        ).push(dv));
                    }
                },
                Result::Err(_) => {
                    proof {
                        assert(Seq::new(collected@.len(), |i: int| collected@[i].dv()) =~= Seq::new(
                            coll_pre.len(),
                            |i: int| coll_pre[i].dv(),
                        ));
                    }
                },
            }
            done.push(e);
            proof {
                let sub = contributions_run(channel_views(rest@));
                assert(full.0 =~= channel_views(done@) + sub.0);
                assert(full.1 =~= Seq::new(collected@.len(), |i: int| collected@[i].dv())
                    + sub.1);
                assert(channel_views(rest@) =~= orig.skip(done@.len() as int));
            }
        }
        proof {
            assert(channel_views(rest@) =~= Seq::<(Seq<char>, B)>::empty());
            assert(channel_views(done@) =~= full.0);
            assert(Seq::new(collected@.len(), |i: int| collected@[i].dv()) =~= full.1);
        }
        self.channels.mount(channel.to_owned(), done);
        proof {
            assert(channel_views(self.channels.spec_get(channel@).unwrap()@) =~= full.0);
            let entry = (channel@, self.channels.spec_get(channel@).unwrap());
            assert forall|ch: Seq<char>|
                ch != channel@ implies self.channel_s(ch) == old(self).channel_s(ch) by {
                lemma_slot_other_names(old(self).channels.view_pairs(), channel@, entry, ch);
                lemma_slot_other_names(
                    slot_remove(old(self).channels.view_pairs(), channel@),
                    channel@,
                    entry,
                    ch,
                );
                lemma_slot_other_names(
                    slot_remove(
                        slot_remove(old(self).channels.view_pairs(), channel@),
                        channel@,
                    ),
                    channel@,
                    entry,
                    ch,
                );
            }
        }
        collected
    }

    /// Push a cleanup task onto the teardown stack.
    pub fn register_cleanup(&mut self, task: K)
        ensures
            final(self).cleanup_v() == old(self).cleanup_v().push(task),
            final(self).hooks_r() == old(self).hooks_r(),
            final(self).cancel_t() == old(self).cancel_t(),
            final(self).providers_s() == old(self).providers_s(),
            final(self).tools_s() == old(self).tools_s(),
            final(self).orchestrator_s() == old(self).orchestrator_s(),
            final(self).context_s() == old(self).context_s(),
            final(self).capabilities_v() == old(self).capabilities_v(),
            forall|ch: Seq<char>| final(self).channel_s(ch) == old(self).channel_s(ch),
            final(self).config_v() == old(self).config_v(),
            final(self).injections_n() == old(self).injections_n(),
            final(self).wf() == old(self).wf(),
    {
        self.cleanup_tasks.push(task);
    }

    /// Run every cleanup task once, in the exact reverse of registration
    /// order, isolating failures; the stack is left empty. Returns the spent
    /// tasks in invocation order.
    pub fn cleanup(&mut self) -> (r: Vec<K>)
        ensures
            final(self).cleanup_v().len() == 0,
            r@ == cleanup_outcome(old(self).cleanup_v()),
            final(self).hooks_r() == old(self).hooks_r(),
            final(self).cancel_t() == old(self).cancel_t(),
            final(self).providers_s() == old(self).providers_s(),
            final(self).tools_s() == old(self).tools_s(),
            final(self).orchestrator_s() == old(self).orchestrator_s(),
            final(self).context_s() == old(self).context_s(),
            final(self).capabilities_v() == old(self).capabilities_v(),
            forall|ch: Seq<char>| final(self).channel_s(ch) == old(self).channel_s(ch),
            final(self).config_v() == old(self).config_v(),
            final(self).injections_n() == old(self).injections_n(),
            final(self).wf() == old(self).wf(),
    {
        let ghost stack0 = self.cleanup_tasks@;
        let mut spent: Vec<K> = Vec::new();
        while self.cleanup_tasks.len() > 0
            invariant
                self.hooks == old(self).hooks,
                self.cancellation == old(self).cancellation,
                self.orchestrator == old(self).orchestrator,
                self.context == old(self).context,
                self.providers == old(self).providers,
                self.tools == old(self).tools,
                self.capabilities == old(self).capabilities,
                self.channels == old(self).channels,
                self.config == old(self).config,
                self.current_turn_injections == old(self).current_turn_injections,
                spent@.len() + self.cleanup_tasks@.len() == stack0.len(),
                self.cleanup_tasks@ =~= stack0.take(self.cleanup_tasks@.len() as int),
                forall|i: int|
                    0 <= i < spent@.len() ==> #[trigger] spent@[i] == stack0[stack0.len() - 1
                        - i].next_state(),
            decreases self.cleanup_tasks.len(),
        {
            let popped = self.cleanup_tasks.pop();
            let mut task: K = match popped {
                Option::Some(t) => t,
                Option::None => {
                    proof {
                        assert(false);
                    }
                    return spent;
                },
            };
            let _outcome = task.run();
            spent.push(task);
            proof {
                assert(self.cleanup_tasks@ =~= stack0.take(self.cleanup_tasks@.len() as int));
            }
        }
        proof {
            assert(spent@ =~= cleanup_outcome(stack0));
        }
        spent
    }

    /// Ask the embedded token for cancellation: graceful by default,
    /// immediate when requested.
    pub fn request_cancel(&mut self, immediate: bool) -> (r: bool)
        ensures
            if immediate {
                immediate_rel(old(self).cancel_t(), final(self).cancel_t()) && r == (old(
                    self,
                ).cancel_t().state_of() != CancellationState::Immediate)
            } else {
                graceful_rel(old(self).cancel_t(), final(self).cancel_t()) && r == (old(
                    self,
                ).cancel_t().state_of() == CancellationState::Idle)
            },
            final(self).hooks_r() == old(self).hooks_r(),
            final(self).providers_s() == old(self).providers_s(),
            final(self).tools_s() == old(self).tools_s(),
            final(self).orchestrator_s() == old(self).orchestrator_s(),
            final(self).context_s() == old(self).context_s(),
            final(self).capabilities_v() == old(self).capabilities_v(),
            forall|ch: Seq<char>| final(self).channel_s(ch) == old(self).channel_s(ch),
            final(self).cleanup_v() == old(self).cleanup_v(),
            final(self).config_v() == old(self).config_v(),
            final(self).injections_n() == old(self).injections_n(),
    {
        if immediate {
            self.cancellation.request_immediate()
        } else {
            self.cancellation.request_graceful()
        }
    }

    /// Zero the per-turn injection counter. Cancellation is not touched: it
    /// persists across turns.
    pub fn reset_turn(&mut self)
        ensures
            final(self).injections_n() == 0,
            final(self).cancel_t() == old(self).cancel_t(),
            final(self).hooks_r() == old(self).hooks_r(),
            final(self).providers_s() == old(self).providers_s(),
            final(self).tools_s() == old(self).tools_s(),
            final(self).orchestrator_s() == old(self).orchestrator_s(),
            final(self).context_s() == old(self).context_s(),
            final(self).capabilities_v() == old(self).capabilities_v(),
            forall|ch: Seq<char>| final(self).channel_s(ch) == old(self).channel_s(ch),
            final(self).cleanup_v() == old(self).cleanup_v(),
            final(self).config_v() == old(self).config_v(),
            final(self).wf() == old(self).wf(),
    {
        self.current_turn_injections = 0;
    }

    /// The injections counted this turn.
    pub fn current_turn_injections(&self) -> (r: usize)
        ensures
            r == self.injections_n(),
    {
        self.current_turn_injections
    }

    /// Count `count` more injections this turn.
    pub fn increment_injections(&mut self, count: usize)
        requires
            old(self).injections_n() + count <= usize::MAX,
        ensures
            final(self).injections_n() == old(self).injections_n() + count,
            final(self).cancel_t() == old(self).cancel_t(),
            final(self).hooks_r() == old(self).hooks_r(),
            final(self).wf() == old(self).wf(),
    {
        self.current_turn_injections = self.current_turn_injections + count;
    }

    /// The per-turn injection budget from the configuration, if set.
    pub fn injection_budget_per_turn(&self) -> (r: Option<i64>)
        requires
            self.wf(),
        ensures
            r == spec_session_int(self.config_v(), "injection_budget_per_turn"@),
    {
        self.session_int("injection_budget_per_turn")
    }

    /// The per-injection size limit from the configuration, if set.
    pub fn injection_size_limit(&self) -> (r: Option<i64>)
        requires
            self.wf(),
        ensures
            r == spec_session_int(self.config_v(), "injection_size_limit"@),
    {
        self.session_int("injection_size_limit")
    }

    fn session_int(&self, key: &str) -> (r: Option<i64>)
        requires
            self.wf(),
        ensures
            r == spec_session_int(self.config_v(), key@),
    {
        match self.config.get("session") {
            Option::Some(v) => match v {
                DataValue::Obj(m) => match m.get(key) {
                    Option::Some(f) => match f {
                        DataValue::Int(i) => Option::Some(*i),
                        _ => Option::None,
                    },
                    Option::None => Option::None,
                },
                _ => Option::None,
            },
            Option::None => Option::None,
        }
    }
}

} // verus!
