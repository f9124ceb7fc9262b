//! Coordination kernel for a modular agent runtime.
//!
//! The crate provides four composable primitives:
//!
//! - a priority-ordered hook-dispatch pipeline ([`hooks`]),
//! - a cooperative cancellation token with parent-to-child propagation
//!   ([`cancellation`]),
//! - a module coordinator owning mount points, capabilities, contribution
//!   channels and a cleanup stack ([`coordinator`]),
//! - a session lifecycle manager composing the above ([`session`]).
//!
//! Event names are opaque strings from the closed catalogue in [`events`];
//! payloads are field maps from [`data`]; module contracts live in
//! [`traits`], with predictable fakes in [`testing`].

pub mod cancellation;
pub mod coordinator;
pub mod data;
pub mod errors;
pub mod events;
pub mod hooks;
pub mod messages;
pub mod models;
pub mod session;
pub mod slots;
pub mod testing;
pub mod traits;

pub use cancellation::CancellationState;
pub use cancellation::CancellationToken;
pub use coordinator::Coordinator;
pub use data::DataMap;
pub use data::DataValue;
pub use errors::AmplifierError;
pub use errors::ContextError;
pub use errors::HookError;
pub use errors::ProviderError;
pub use errors::SessionError;
pub use errors::ToolError;
pub use events::all_events;
pub use hooks::HookRegistry;
pub use messages::ChatRequest;
pub use messages::ChatResponse;
pub use messages::ContentBlock;
pub use messages::ContentBlockType;
pub use messages::Degradation;
pub use messages::Message;
pub use messages::MessageContent;
pub use messages::ResponseFormat;
pub use messages::Role;
pub use messages::ToolCall;
pub use messages::ToolChoice;
pub use messages::ToolSpec;
pub use messages::Usage;
pub use messages::Visibility;
pub use models::ApprovalDefault;
pub use models::ApprovalRequest;
pub use models::ApprovalResponse;
pub use models::ConfigField;
pub use models::ConfigFieldType;
pub use models::ContextInjectionRole;
pub use models::HookAction;
pub use models::HookResult;
pub use models::ModelInfo;
pub use models::ModuleInfo;
pub use models::ModuleType;
pub use models::ProviderInfo;
pub use models::SessionState;
pub use models::SessionStatus;
pub use models::ToolResult;
pub use models::UserMessageLevel;
pub use session::Session;
pub use session::SessionConfig;
pub use slots::NamedSlots;
pub use testing::FakeApprovalProvider;
pub use testing::FakeCleanupTask;
pub use testing::FakeContextManager;
pub use testing::FakeContributor;
pub use testing::FakeHookHandler;
pub use testing::FakeOrchestrator;
pub use testing::FakeProvider;
pub use testing::FakeTool;
pub use traits::ApprovalProvider;
pub use traits::CleanupTask;
pub use traits::ContextManager;
pub use traits::Contributor;
pub use traits::HookHandler;
pub use traits::Orchestrator;
pub use traits::Provider;
pub use traits::Tool;
