//! Session lifecycle: create, mount modules, mark initialized, execute,
//! clean up.
//!
//! A session owns a [`Coordinator`] and carries an immutable identity. It
//! emits lifecycle events through the hook registry, delegates the
//! conversation loop to the mounted orchestrator, and tears down by running
//! the cleanup stack in reverse and emitting a terminal event.

use vstd::prelude::*;

use crate::coordinator::Coordinator;
use crate::data::DataMap;
use crate::data::DataValue;
use crate::data::Dv;
use crate::errors::AmplifierError;
use crate::errors::SessionError;
use crate::events;
use crate::hooks::HookRegistry;
use crate::hooks::emitted;
use crate::models::SessionState;
use crate::cancellation::CancellationState;
use crate::traits::CleanupTask;
use crate::traits::ContextManager;
use crate::traits::Contributor;
use crate::traits::HookHandler;
use crate::traits::Orchestrator;
use crate::traits::Provider;
use crate::traits::Tool;

verus! {

/// Relies on uuid's `Uuid::new_v4` and its hyphenated display form: a random
/// version-4 UUID, written as 36 characters. The value is random, so nothing
/// further is promised.
#[verifier::external_body]
fn new_uuid() -> (r: String)
    ensures
        r@.len() == 36,
{
    uuid::Uuid::new_v4().to_string()
}

/// Whether a configuration value counts as present-and-non-empty.
pub open spec fn truthy(d: Dv) -> bool {
    match d {
        Dv::Null => false,
        Dv::Bool(b) => b,
        Dv::Int(i) => i != 0,
        Dv::Str(s) => s.len() > 0,
        Dv::List(l) => l.len() > 0,
        Dv::Obj(m) => m != Map::<Seq<char>, Dv>::empty(),
        Dv::Raw(_) => true,
    }
}

/// Whether `key` under the `session` section is present and non-empty.
pub open spec fn session_field_ok(cfg: Map<Seq<char>, Dv>, key: Seq<char>) -> bool {
    &&& cfg.contains_key("session"@)
    &&& match cfg["session"@] {
        Dv::Obj(m) => m.contains_key(key) && truthy(m[key]),
        _ => false,
    }
}

fn truthy_value(v: &DataValue) -> (r: bool)
    requires
        v.wf(),
    ensures
        r == truthy(v.dv()),
{
    match *v {
        DataValue::Null => false,
        DataValue::Bool(b) => b,
        DataValue::Int(i) => i != 0,
        DataValue::Str(ref s) => s.as_str().unicode_len() > 0,
        DataValue::List(ref l) => l.len() > 0,
        DataValue::Obj(ref m) => {
            let n = m.len();
            proof {
                if n == 0 {
                    assert(m@.dom() =~= Set::<Seq<char>>::empty());
                    assert(m@ =~= Map::<Seq<char>, Dv>::empty());
                } else {
                    assert(m@.dom() != Set::<Seq<char>>::empty()) by {
                        assert(Set::<Seq<char>>::empty().len() == 0);
                    }
                }
            }
            n > 0
        },
        DataValue::Raw(_) => true,
    }
}

/// Configuration for creating a session: the full mount plan, known to name
/// an orchestrator and a context manager.
#[derive(Debug)]
pub struct SessionConfig {
    /// The configuration document.
    pub config: DataMap,
}

impl SessionConfig {
    /// Validate a configuration value: it must be a field map whose
    /// `session` section names a non-empty `orchestrator` and a non-empty
    /// `context`; each missing piece is reported as its own
    /// configuration-missing error.
    pub fn from_value(value: DataValue) -> (r: Result<SessionConfig, SessionError>)
        requires
            value.wf(),
        ensures
            match r {
                Result::Ok(sc) => {
                    &&& value.dv() == Dv::Obj(sc.config@)
                    &&& sc.config.wf()
                    &&& session_field_ok(sc.config@, "orchestrator"@)
                    &&& session_field_ok(sc.config@, "context"@)
                },
                Result::Err(e) => {
                    &&& !(value.dv() is Obj && session_field_ok(value.dv()->Obj_0, "orchestrator"@)
                        && session_field_ok(value.dv()->Obj_0, "context"@))
                    &&& e matches SessionError::ConfigMissing { field } && field@ == (if !(
                    value.dv() is Obj) {
                        "config must be a field map"@
                    } else if !session_field_ok(value.dv()->Obj_0, "orchestrator"@) {
                        "session.orchestrator"@
                    } else {
                        "session.context"@
                    })
                },
            },
    {
        let config: DataMap = match value {
            DataValue::Obj(m) => m,
            _ => {
                return Result::Err(
                    SessionError::ConfigMissing {
                        field: String::from_str("config must be a field map"),
                    },
                );
            },
        };
        let orchestrator_ok: bool = match config.get("session") {
            Option::Some(v) => match v {
                DataValue::Obj(m) => match m.get("orchestrator") {
                    Option::Some(f) => truthy_value(f),
                    Option::None => false,
                },
                _ => false,
            },
            Option::None => false,
        };
        if !orchestrator_ok {
            return Result::Err(
                SessionError::ConfigMissing { field: String::from_str("session.orchestrator") },
            );
        }
        let context_ok: bool = match config.get("session") {
            Option::Some(v) => match v {
                DataValue::Obj(m) => match m.get("context") {
                    Option::Some(f) => truthy_value(f),
                    Option::None => false,
                },
                _ => false,
            },
            Option::None => false,
        };
        if !context_ok {
            return Result::Err(
                SessionError::ConfigMissing { field: String::from_str("session.context") },
            );
        }
        Result::Ok(SessionConfig { config })
    }

    /// The smallest valid configuration: a `session` section naming the
    /// given orchestrator and context manager.
    pub fn minimal(orchestrator: &str, context: &str) -> (r: SessionConfig)
        requires
            orchestrator@.len() > 0,
            context@.len() > 0,
        ensures
            r.config.wf(),
            r.config@ == Map::<Seq<char>, Dv>::empty().insert(
                "session"@,
                Dv::Obj(
                    Map::<Seq<char>, Dv>::empty().insert(
                        "orchestrator"@,
                        Dv::Str(orchestrator@),
                    ).insert("context"@, Dv::Str(context@)),
                ),
            ),
            session_field_ok(r.config@, "orchestrator"@),
            session_field_ok(r.config@, "context"@),
    {
        let mut inner = DataMap::new();
        inner.insert(String::from_str("orchestrator"), DataValue::Str(orchestrator.to_owned()));
        inner.insert(String::from_str("context"), DataValue::Str(context.to_owned()));
        let mut outer = DataMap::new();
        outer.insert(String::from_str("session"), DataValue::Obj(inner));
        SessionConfig { config: outer }
    }
}

/// The payload of a lifecycle event: the session identity.
pub open spec fn session_payload(id: Seq<char>, pid: Option<Seq<char>>) -> Map<Seq<char>, Dv> {
    Map::<Seq<char>, Dv>::empty().insert("session_id"@, Dv::Str(id)).insert(
        "parent_id"@,
        match pid {
            Option::Some(p) => Dv::Str(p),
            Option::None => Dv::Null,
        },
    )
}

/// The payload of the best-effort cancellation-completed event.
pub open spec fn cancel_payload(was_immediate: bool, error: Option<Seq<char>>) -> Map<
    Seq<char>,
    Dv,
> {
    match error {
        Option::Some(e) => Map::<Seq<char>, Dv>::empty().insert(
            "was_immediate"@,
            Dv::Bool(was_immediate),
        ).insert("error"@, Dv::Str(e)),
        Option::None => Map::<Seq<char>, Dv>::empty().insert(
            "was_immediate"@,
            Dv::Bool(was_immediate),
        ),
    }
}

/// The payload of the terminal event: identity and final status.
pub open spec fn end_payload(id: Seq<char>, status: Seq<char>) -> Map<Seq<char>, Dv> {
    Map::<Seq<char>, Dv>::empty().insert("session_id"@, Dv::Str(id)).insert(
        "status"@,
        Dv::Str(status),
    )
}

/// The wire word for a session state.
pub open spec fn status_str(s: SessionState) -> Seq<char> {
    match s {
        SessionState::Running => "running"@,
        SessionState::Completed => "completed"@,
        SessionState::Failed => "failed"@,
        SessionState::Cancelled => "cancelled"@,
    }
}

/// A session: identity, lifecycle flags, and an owned coordinator.
pub struct Session<H, O, C, P, T, K, B> {
    session_id: String,
    parent_id: Option<String>,
    coordinator: Coordinator<H, O, C, P, T, K, B>,
    initialized: bool,
    status: SessionState,
    is_resumed: bool,
}

impl<
    H: HookHandler,
    O: Orchestrator<C, P, T>,
    C: ContextManager,
    P: Provider,
    T: Tool,
    K: CleanupTask,
    B: Contributor,
> Session<H, O, C, P, T, K, B> {
    /// The session identifier.
    pub closed spec fn id_v(self) -> Seq<char> {
        self.session_id@
    }

    /// The parent session identifier, if any.
    pub closed spec fn parent_v(self) -> Option<Seq<char>> {
        match self.parent_id {
            Option::Some(p) => Option::Some(p@),
            Option::None => Option::None,
        }
    }

    /// The owned coordinator.
    pub closed spec fn coord(self) -> Coordinator<H, O, C, P, T, K, B> {
        self.coordinator
    }

    /// Whether the session is ready to execute.
    pub closed spec fn initialized_s(self) -> bool {
        self.initialized
    }

    /// The current status.
    pub closed spec fn status_s(self) -> SessionState {
        self.status
    }

    /// Whether this session resumes an earlier one.
    pub closed spec fn resumed_s(self) -> bool {
        self.is_resumed
    }

    /// The coordinator is well-formed.
    pub open spec fn wf(self) -> bool {
        self.coord().wf()
    }

    /// Create a session. Without a given identifier a fresh UUID is drawn;
    /// the hook registry's default fields are set to the session identity,
    /// so every emission carries it.
    pub fn new(config: SessionConfig, session_id: Option<String>, parent_id: Option<String>) -> (r:
        Self)
        requires
            config.config.wf(),
        ensures
            r.wf(),
            match session_id {
                Option::Some(s) => r.id_v() == s@,
                Option::None => r.id_v().len() == 36,
            },
            r.parent_v() == (match parent_id {
                Option::Some(p) => Option::Some(p@),
                Option::None => Option::<Seq<char>>::None,
            }),
            !r.initialized_s(),
            r.status_s() == SessionState::Running,
            !r.resumed_s(),
            r.coord().config_v() == config.config@,
            r.coord().orchestrator_s() is None,
            r.coord().context_s() is None,
            r.coord().providers_s().view_pairs().len() == 0,
            r.coord().tools_s().view_pairs().len() == 0,
            r.coord().cleanup_v().len() == 0,
            r.coord().cancel_t().state_of() == CancellationState::Idle,
            forall|e: Seq<char>| (#[trigger] r.coord().hooks_r().entries(e)).len() == 0,
            r.coord().hooks_r().defaults_v() == Option::Some(
                session_payload(r.id_v(), r.parent_v()),
            ),
    {
        let id: String = match session_id {
            Option::Some(s) => s,
            Option::None => new_uuid(),
        };
        let mut coordinator = Coordinator::new(config.config);
        let mut defaults = DataMap::new();
        defaults.insert(String::from_str("session_id"), DataValue::Str(id.clone()));
        match parent_id {
            Option::Some(ref p) => {
                defaults.insert(String::from_str("parent_id"), DataValue::Str(p.clone()));
            },
            Option::None => {
                defaults.insert(String::from_str("parent_id"), DataValue::Null);
            },
        }
        proof {
            coordinator.lemma_wf_parts();
        }
        coordinator.hooks_mut().set_default_fields(defaults);
        Session {
            session_id: id,
            parent_id,
            coordinator,
            initialized: false,
            status: SessionState::Running,
            is_resumed: false,
        }
    }

    /// Create a session that resumes an earlier one: on execute it emits
    /// resume events instead of start events.
    pub fn new_resumed(config: SessionConfig, session_id: String, parent_id: Option<String>) -> (r:
        Self)
        requires
            config.config.wf(),
        ensures
            r.wf(),
            r.id_v() == session_id@,
            r.parent_v() == (match parent_id {
                Option::Some(p) => Option::Some(p@),
                Option::None => Option::<Seq<char>>::None,
            }),
            !r.initialized_s(),
            r.status_s() == SessionState::Running,
            r.resumed_s(),
            r.coord().config_v() == config.config@,
            r.coord().hooks_r().defaults_v() == Option::Some(
                session_payload(r.id_v(), r.parent_v()),
            ),
    {
        let mut s = Self::new(config, Option::Some(session_id), parent_id);
        s.is_resumed = true;
        s
    }

    /// The session identifier.
    pub fn session_id(&self) -> (r: &str)
        ensures
            r@ == self.id_v(),
    {
        self.session_id.as_str()
    }

    /// The parent session identifier, if any.
    pub fn parent_id(&self) -> (r: Option<&str>)
        ensures
            match r {
                Option::Some(p) => self.parent_v() == Option::Some(p@),
                Option::None => self.parent_v() is None,
            },
    {
        match self.parent_id {
            Option::Some(ref p) => Option::Some(p.as_str()),
            Option::None => Option::None,
        }
    }

    /// The current status, as its wire word.
    pub fn status(&self) -> (r: &'static str)
        ensures
            r@ == status_str(self.status_s()),
    {
        match self.status {
            SessionState::Running => "running",
            SessionState::Completed => "completed",
            SessionState::Failed => "failed",
            SessionState::Cancelled => "cancelled",
        }
    }

    /// The current status.
    pub fn state(&self) -> (r: SessionState)
        ensures
            r == self.status_s(),
    {
        self.status
    }

    /// Whether the session has been marked initialized.
    pub fn is_initialized(&self) -> (r: bool)
        ensures
            r == self.initialized_s(),
    {
        self.initialized
    }

    /// Whether this session resumes an earlier one.
    pub fn is_resumed(&self) -> (r: bool)
        ensures
            r == self.resumed_s(),
    {
        self.is_resumed
    }

    /// The coordinator, for reading.
    pub fn coordinator(&self) -> (r: &Coordinator<H, O, C, P, T, K, B>)
        ensures
            *r == self.coord(),
    {
        &self.coordinator
    }

    /// The coordinator, for mounting modules and registering hooks.
    pub fn coordinator_mut(&mut self) -> (r: &mut Coordinator<H, O, C, P, T, K, B>)
        ensures
            *r == old(self).coord(),
            final(self).coord() == *final(r),
            final(self).id_v() == old(self).id_v(),
            final(self).parent_v() == old(self).parent_v(),
            final(self).initialized_s() == old(self).initialized_s(),
            final(self).status_s() == old(self).status_s(),
            final(self).resumed_s() == old(self).resumed_s(),
    {
        &mut self.coordinator
    }

    /// Mark the session ready for execution, once module loading is done.
    /// Marking an initialized session again changes nothing.
    pub fn set_initialized(&mut self)
        ensures
            final(self).initialized_s(),
            final(self).coord() == old(self).coord(),
            final(self).id_v() == old(self).id_v(),
            final(self).parent_v() == old(self).parent_v(),
            final(self).status_s() == old(self).status_s(),
            final(self).resumed_s() == old(self).resumed_s(),
    {
        self.initialized = true;
    }

    /// Clear the initialized flag; after this, execution is refused again.
    pub fn clear_initialized(&mut self)
        ensures
            !final(self).initialized_s(),
            final(self).coord() == old(self).coord(),
            final(self).id_v() == old(self).id_v(),
            final(self).parent_v() == old(self).parent_v(),
            final(self).status_s() == old(self).status_s(),
            final(self).resumed_s() == old(self).resumed_s(),
    {
        self.initialized = false;
    }
}

/// The lifecycle event a run announces: start, or resume for a resumed
/// session.
pub open spec fn lifecycle_event(resumed: bool) -> Seq<char> {
    if resumed {
        events::SESSION_RESUME@
    } else {
        events::SESSION_START@
    }
}

/// The debug tier of the lifecycle event.
pub open spec fn lifecycle_event_debug(resumed: bool) -> Seq<char> {
    if resumed {
        events::SESSION_RESUME_DEBUG@
    } else {
        events::SESSION_START_DEBUG@
    }
}

/// The raw tier of the lifecycle event.
pub open spec fn lifecycle_event_raw(resumed: bool) -> Seq<char> {
    if resumed {
        events::SESSION_RESUME_RAW@
    } else {
        events::SESSION_START_RAW@
    }
}

/// The three lifecycle emissions of one run: the event and its debug and
/// raw tiers, each carrying the session identity, taking the registry from
/// `pre_hooks` through `h1` and `h2` to `h3`.
pub open spec fn lifecycle_emitted<H: HookHandler>(
    pre_hooks: HookRegistry<H>,
    h1: HookRegistry<H>,
    h2: HookRegistry<H>,
    h3: HookRegistry<H>,
    resumed: bool,
    id: Seq<char>,
    pid: Option<Seq<char>>,
) -> bool {
    &&& emitted(pre_hooks, h1, lifecycle_event(resumed), session_payload(id, pid))
    &&& emitted(h1, h2, lifecycle_event_debug(resumed), session_payload(id, pid))
    &&& emitted(h2, h3, lifecycle_event_raw(resumed), session_payload(id, pid))
}

impl<
    H: HookHandler,
    O: Orchestrator<C, P, T>,
    C: ContextManager,
    P: Provider,
    T: Tool,
    K: CleanupTask,
    B: Contributor,
> Session<H, O, C, P, T, K, B> {
    /// What a run of `execute` on an initialized session guarantees: the
    /// lifecycle event and its debug and raw tiers are emitted with the
    /// session identity; a missing orchestrator, context manager or provider
    /// is each reported as its own error; otherwise the outcome is the
    /// orchestrator's response, the status records success, failure or
    /// cancellation, and on cancellation a best-effort completion event goes
    /// out.
    pub open spec fn execute_post(
        pre: Self,
        post: Self,
        prompt: Seq<char>,
        r: Result<String, AmplifierError>,
    ) -> bool {
        exists|h1: HookRegistry<H>, h2: HookRegistry<H>, h3: HookRegistry<H>|
            {
                &&& #[trigger] lifecycle_emitted(
                    pre.coord().hooks_r(),
                    h1,
                    h2,
                    h3,
                    pre.resumed_s(),
                    pre.id_v(),
                    pre.parent_v(),
                )
                &&& if pre.coord().orchestrator_s() is None {
                    &&& post.coord().hooks_r() == h3
                    &&& post.status_s() == pre.status_s()
                    &&& r matches Result::Err(AmplifierError::Session(SessionError::Other { message }))
                        && message@ == "No orchestrator mounted"@
                } else if pre.coord().context_s() is None {
                    &&& post.coord().hooks_r() == h3
                    &&& post.status_s() == pre.status_s()
                    &&& r matches Result::Err(AmplifierError::Session(SessionError::Other { message }))
                        && message@ == "No context manager mounted"@
                } else if pre.coord().providers_s().view_pairs().len() == 0 {
                    &&& post.coord().hooks_r() == h3
                    &&& post.status_s() == pre.status_s()
                    &&& r matches Result::Err(AmplifierError::Session(SessionError::Other { message }))
                        && message@ == "No providers mounted"@
                } else {
                    let resp = pre.coord().orchestrator_s().unwrap().response(
                        prompt,
                        pre.coord().context_s().unwrap(),
                        pre.coord().providers_s(),
                        pre.coord().tools_s(),
                    );
                    let cancelled = pre.coord().cancel_t().state_of() != CancellationState::Idle;
                    let was_immediate = pre.coord().cancel_t().state_of()
                        == CancellationState::Immediate;
                    &&& match resp {
                        Result::Ok(s) => r matches Result::Ok(rs) && rs@ == s,
                        Result::Err(e) => r matches Result::Err(e2) && e2 == e,
                    }
                    &&& post.status_s() == (if cancelled {
                        SessionState::Cancelled
                    } else if resp is Ok {
                        SessionState::Completed
                    } else {
                        SessionState::Failed
                    })
                    &&& post.coord().orchestrator_s() is Some
                    &&& post.coord().context_s() is Some
                    &&& if cancelled {
                        emitted(
                            h3,
                            post.coord().hooks_r(),
                            events::CANCEL_COMPLETED@,
                            cancel_payload(
                                was_immediate,
                                match resp {
                                    Result::Ok(_) => Option::None,
                                    Result::Err(e) => Option::Some(
                                        crate::errors::spec_message(e),
                                    ),
                                },
                            ),
                        )
                    } else {
                        post.coord().hooks_r() == h3
                    }
                }
            }
    }

    /// Execute a prompt through the mounted orchestrator.
    ///
    /// Refused outright on an uninitialized session. Otherwise the lifecycle
    /// events are emitted, the orchestrator runs with the mounted modules,
    /// the status is set to completed, failed or cancelled, and the
    /// orchestrator's response or error is returned; see
    /// [`Self::execute_post`].
    pub fn execute(&mut self, prompt: &str) -> (r: Result<String, AmplifierError>)
        requires
            old(self).wf(),
        ensures
            final(self).wf(),
            final(self).id_v() == old(self).id_v(),
            final(self).parent_v() == old(self).parent_v(),
            final(self).resumed_s() == old(self).resumed_s(),
            final(self).initialized_s() == old(self).initialized_s(),
            final(self).coord().cancel_t() == old(self).coord().cancel_t(),
            final(self).coord().cleanup_v() == old(self).coord().cleanup_v(),
            final(self).coord().config_v() == old(self).coord().config_v(),
            !old(self).initialized_s() ==> *final(self) == *old(self) && (r matches Result::Err(
                AmplifierError::Session(SessionError::NotInitialized),
            )),
            old(self).initialized_s() ==> Self::execute_post(*old(self), *final(self), prompt@, r),
    {
        if !self.initialized {
            return Result::Err(AmplifierError::Session(SessionError::NotInitialized));
        }
        let mut payload = DataMap::new();
        payload.insert(
            String::from_str("session_id"),
            DataValue::Str(self.session_id.clone()),
        );
        match self.parent_id {
            Option::Some(ref p) => {
                payload.insert(String::from_str("parent_id"), DataValue::Str(p.clone()));
            },
            Option::None => {
                payload.insert(String::from_str("parent_id"), DataValue::Null);
            },
        }
        proof {
            assert(payload@ =~= session_payload(self.id_v(), self.parent_v()));
            self.coordinator.lemma_wf_parts();
        }
        let ev: &'static str = if self.is_resumed {
            events::SESSION_RESUME
        } else {
            events::SESSION_START
        };
        let evd: &'static str = if self.is_resumed {
            events::SESSION_RESUME_DEBUG
        } else {
            events::SESSION_START_DEBUG
        };
        let evr: &'static str = if self.is_resumed {
            events::SESSION_RESUME_RAW
        } else {
            events::SESSION_START_RAW
        };
        let ghost g0 = self.coordinator.hooks_r();
        let pc1 = payload.clone();
        let r1 = self.coordinator.hooks_mut().emit(ev, pc1);
        let ghost g1 = self.coordinator.hooks_r();
        proof {
            assert(emitted(g0, g1, ev@, payload@));
        }
        let pc2 = payload.clone();
        let r2 = self.coordinator.hooks_mut().emit(evd, pc2);
        let ghost g2 = self.coordinator.hooks_r();
        proof {
            assert(emitted(g1, g2, evd@, payload@));
        }
        let r3 = self.coordinator.hooks_mut().emit(evr, payload);
        let ghost g3 = self.coordinator.hooks_r();
        proof {
            assert(emitted(g2, g3, evr@, payload@));
        }

        let orch_taken = self.coordinator.take_orchestrator();
        let mut orch: O = match orch_taken {
            Option::Some(o) => o,
            Option::None => {
                proof {
                    assert(lifecycle_emitted(
                        old(self).coord().hooks_r(),
                        g1,
                        g2,
                        g3,
                        old(self).resumed_s(),
                        old(self).id_v(),
                        old(self).parent_v(),
                    ));
                }
                return Result::Err(
                    AmplifierError::Session(
                        SessionError::Other {
                            message: String::from_str("No orchestrator mounted"),
                        },
                    ),
                );
            },
        };
        let ctx_taken = self.coordinator.take_context();
        let mut ctx: C = match ctx_taken {
            Option::Some(c) => c,
            Option::None => {
                self.coordinator.set_orchestrator(orch);
                proof {
                    assert(lifecycle_emitted(
                        old(self).coord().hooks_r(),
                        g1,
                        g2,
                        g3,
                        old(self).resumed_s(),
                        old(self).id_v(),
                        old(self).parent_v(),
                    ));
                }
                return Result::Err(
                    AmplifierError::Session(
                        SessionError::Other {
                            message: String::from_str("No context manager mounted"),
                        },
                    ),
                );
            },
        };
        if self.coordinator.providers().is_empty() {
            self.coordinator.set_orchestrator(orch);
            self.coordinator.set_context(ctx);
            proof {
                assert(lifecycle_emitted(
                    old(self).coord().hooks_r(),
                    g1,
                    g2,
                    g3,
                    old(self).resumed_s(),
                    old(self).id_v(),
                    old(self).parent_v(),
                ));
            }
            return Result::Err(
                AmplifierError::Session(
                    SessionError::Other { message: String::from_str("No providers mounted") },
                ),
            );
        }
        let mut provs = self.coordinator.take_providers();
        let mut tool_slots = self.coordinator.take_tools();
        proof {
            assert(provs.wf());
            assert(tool_slots.wf());
        }
        self.status = SessionState::Running;
        let result = orch.execute(prompt, &mut ctx, &mut provs, &mut tool_slots);
        self.coordinator.set_orchestrator(orch);
        self.coordinator.set_context(ctx);
        self.coordinator.set_providers(provs);
        self.coordinator.set_tools(tool_slots);

        if self.coordinator.cancellation().is_cancelled() {
            let was_immediate = self.coordinator.cancellation().is_immediate();
            let mut cp = DataMap::new();
            cp.insert(String::from_str("was_immediate"), DataValue::Bool(was_immediate));
            match result {
                Result::Err(ref e) => {
                    cp.insert(String::from_str("error"), DataValue::Str(e.message()));
                    proof {
                        assert(cp@ =~= cancel_payload(
                            was_immediate,
                            Option::Some(crate::errors::spec_message(*e)),
                        ));
                    }
                },
                Result::Ok(_) => {
                    proof {
                        assert(cp@ =~= cancel_payload(was_immediate, Option::None));
                    }
                },
            }
            let ghost gc0 = self.coordinator.hooks_r();
            let ghost cpv = cp@;
            let _ = self.coordinator.hooks_mut().emit(events::CANCEL_COMPLETED, cp);
            let ghost gc1 = self.coordinator.hooks_r();
            proof {
                assert(emitted(gc0, gc1, events::CANCEL_COMPLETED@, cpv));
            }
            self.status = SessionState::Cancelled;
        } else {
            match result {
                Result::Ok(_) => {
                    self.status = SessionState::Completed;
                },
                Result::Err(_) => {
                    self.status = SessionState::Failed;
                },
            }
        }
        proof {
            assert(lifecycle_emitted(
                old(self).coord().hooks_r(),
                g1,
                g2,
                g3,
                old(self).resumed_s(),
                old(self).id_v(),
                old(self).parent_v(),
            ));
        }
        result
    }

    /// Tear the session down: run every cleanup task in reverse registration
    /// order with failures isolated, emit the terminal event with the final
    /// status, and clear the initialized flag. Always safe to call.
    pub fn cleanup(&mut self)
        requires
            old(self).wf(),
        ensures
            final(self).wf(),
            !final(self).initialized_s(),
            final(self).coord().cleanup_v().len() == 0,
            final(self).id_v() == old(self).id_v(),
            final(self).parent_v() == old(self).parent_v(),
            final(self).resumed_s() == old(self).resumed_s(),
            final(self).status_s() == old(self).status_s(),
            final(self).coord().cancel_t() == old(self).coord().cancel_t(),
            final(self).coord().orchestrator_s() == old(self).coord().orchestrator_s(),
            final(self).coord().context_s() == old(self).coord().context_s(),
            final(self).coord().providers_s() == old(self).coord().providers_s(),
            final(self).coord().tools_s() == old(self).coord().tools_s(),
            final(self).coord().config_v() == old(self).coord().config_v(),
            emitted(
                old(self).coord().hooks_r(),
                final(self).coord().hooks_r(),
                events::SESSION_END@,
                end_payload(old(self).id_v(), status_str(old(self).status_s())),
            ),
    {
        let _spent = self.coordinator.cleanup();
        let mut payload = DataMap::new();
        payload.insert(
            String::from_str("session_id"),
            DataValue::Str(self.session_id.clone()),
        );
        payload.insert(String::from_str("status"), DataValue::Str(self.status().to_owned()));
        proof {
            assert(payload@ =~= end_payload(self.id_v(), status_str(self.status_s())));
            self.coordinator.lemma_wf_parts();
        }
        let ghost g0 = self.coordinator.hooks_r();
        let ghost pv = payload@;
        let _ = self.coordinator.hooks_mut().emit(events::SESSION_END, payload);
        let ghost g1 = self.coordinator.hooks_r();
        proof {
            assert(emitted(g0, g1, events::SESSION_END@, pv));
        }
        self.initialized = false;
    }
}

} // verus!
