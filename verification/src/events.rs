//! Canonical event names.
//!
//! Every lifecycle point the kernel can announce is named by one of these
//! constants. Names follow the `domain:action` pattern, with optional
//! `:debug` / `:raw` suffixes for verbosity tiers. The catalogue is closed:
//! [`all_events`] returns every canonical name exactly once.

use vstd::prelude::*;

verus! {

pub const SESSION_START: &'static str = "session:start";

pub const SESSION_START_DEBUG: &'static str = "session:start:debug";

pub const SESSION_START_RAW: &'static str = "session:start:raw";

pub const SESSION_END: &'static str = "session:end";

pub const SESSION_FORK: &'static str = "session:fork";

pub const SESSION_FORK_DEBUG: &'static str = "session:fork:debug";

pub const SESSION_FORK_RAW: &'static str = "session:fork:raw";

pub const SESSION_RESUME: &'static str = "session:resume";

pub const SESSION_RESUME_DEBUG: &'static str = "session:resume:debug";

pub const SESSION_RESUME_RAW: &'static str = "session:resume:raw";

pub const PROMPT_SUBMIT: &'static str = "prompt:submit";

pub const PROMPT_COMPLETE: &'static str = "prompt:complete";

pub const PLAN_START: &'static str = "plan:start";

pub const PLAN_END: &'static str = "plan:end";

pub const PROVIDER_REQUEST: &'static str = "provider:request";

pub const PROVIDER_RESPONSE: &'static str = "provider:response";

pub const PROVIDER_RETRY: &'static str = "provider:retry";

pub const PROVIDER_ERROR: &'static str = "provider:error";

pub const LLM_REQUEST: &'static str = "llm:request";

pub const LLM_REQUEST_DEBUG: &'static str = "llm:request:debug";

pub const LLM_REQUEST_RAW: &'static str = "llm:request:raw";

pub const LLM_RESPONSE: &'static str = "llm:response";

pub const LLM_RESPONSE_DEBUG: &'static str = "llm:response:debug";

pub const LLM_RESPONSE_RAW: &'static str = "llm:response:raw";

pub const CONTENT_BLOCK_START: &'static str = "content_block:start";

pub const CONTENT_BLOCK_DELTA: &'static str = "content_block:delta";

pub const CONTENT_BLOCK_END: &'static str = "content_block:end";

pub const THINKING_DELTA: &'static str = "thinking:delta";

pub const THINKING_FINAL: &'static str = "thinking:final";

pub const TOOL_PRE: &'static str = "tool:pre";

pub const TOOL_POST: &'static str = "tool:post";

pub const TOOL_ERROR: &'static str = "tool:error";

pub const CONTEXT_PRE_COMPACT: &'static str = "context:pre_compact";

pub const CONTEXT_POST_COMPACT: &'static str = "context:post_compact";

pub const CONTEXT_COMPACTION: &'static str = "context:compaction";

pub const CONTEXT_INCLUDE: &'static str = "context:include";

pub const ORCHESTRATOR_COMPLETE: &'static str = "orchestrator:complete";

pub const EXECUTION_START: &'static str = "execution:start";

pub const EXECUTION_END: &'static str = "execution:end";

pub const USER_NOTIFICATION: &'static str = "user:notification";

pub const ARTIFACT_WRITE: &'static str = "artifact:write";

pub const ARTIFACT_READ: &'static str = "artifact:read";

pub const POLICY_VIOLATION: &'static str = "policy:violation";

pub const APPROVAL_REQUIRED: &'static str = "approval:required";

pub const APPROVAL_GRANTED: &'static str = "approval:granted";

pub const APPROVAL_DENIED: &'static str = "approval:denied";

pub const CANCEL_REQUESTED: &'static str = "cancel:requested";

pub const CANCEL_COMPLETED: &'static str = "cancel:completed";

/// Every canonical event name, exactly once, in catalogue order: each of
/// the 48 positions is pinned to its constant.
pub fn all_events() -> (r: Vec<&'static str>)
    ensures
        r@.len() == 48,
        r@[0]@ == SESSION_START@,
        r@[1]@ == SESSION_START_DEBUG@,
        r@[2]@ == SESSION_START_RAW@,
        r@[3]@ == SESSION_END@,
        r@[4]@ == SESSION_FORK@,
        r@[5]@ == SESSION_FORK_DEBUG@,
        r@[6]@ == SESSION_FORK_RAW@,
        r@[7]@ == SESSION_RESUME@,
        r@[8]@ == SESSION_RESUME_DEBUG@,
        r@[9]@ == SESSION_RESUME_RAW@,
        r@[10]@ == PROMPT_SUBMIT@,
        r@[11]@ == PROMPT_COMPLETE@,
        r@[12]@ == PLAN_START@,
        r@[13]@ == PLAN_END@,
        r@[14]@ == PROVIDER_REQUEST@,
        r@[15]@ == PROVIDER_RESPONSE@,
        r@[16]@ == PROVIDER_RETRY@,
        r@[17]@ == PROVIDER_ERROR@,
        r@[18]@ == LLM_REQUEST@,
        r@[19]@ == LLM_REQUEST_DEBUG@,
        r@[20]@ == LLM_REQUEST_RAW@,
        r@[21]@ == LLM_RESPONSE@,
        r@[22]@ == LLM_RESPONSE_DEBUG@,
        r@[23]@ == LLM_RESPONSE_RAW@,
        r@[24]@ == CONTENT_BLOCK_START@,
        r@[25]@ == CONTENT_BLOCK_DELTA@,
        r@[26]@ == CONTENT_BLOCK_END@,
        r@[27]@ == THINKING_DELTA@,
        r@[28]@ == THINKING_FINAL@,
        r@[29]@ == TOOL_PRE@,
        r@[30]@ == TOOL_POST@,
        r@[31]@ == TOOL_ERROR@,
        r@[32]@ == CONTEXT_PRE_COMPACT@,
        r@[33]@ == CONTEXT_POST_COMPACT@,
        r@[34]@ == CONTEXT_COMPACTION@,
        r@[35]@ == CONTEXT_INCLUDE@,
        r@[36]@ == ORCHESTRATOR_COMPLETE@,
        r@[37]@ == EXECUTION_START@,
        r@[38]@ == EXECUTION_END@,
        r@[39]@ == USER_NOTIFICATION@,
        r@[40]@ == ARTIFACT_WRITE@,
        r@[41]@ == ARTIFACT_READ@,
        r@[42]@ == POLICY_VIOLATION@,
        r@[43]@ == APPROVAL_REQUIRED@,
        r@[44]@ == APPROVAL_GRANTED@,
        r@[45]@ == APPROVAL_DENIED@,
        r@[46]@ == CANCEL_REQUESTED@,
        r@[47]@ == CANCEL_COMPLETED@,
{
    let mut r: Vec<&'static str> = Vec::new();
    r.push(SESSION_START);
    r.push(SESSION_START_DEBUG);
    r.push(SESSION_START_RAW);
    r.push(SESSION_END);
    r.push(SESSION_FORK);
    r.push(SESSION_FORK_DEBUG);
    r.push(SESSION_FORK_RAW);
    r.push(SESSION_RESUME);
    r.push(SESSION_RESUME_DEBUG);
    r.push(SESSION_RESUME_RAW);
    r.push(PROMPT_SUBMIT);
    r.push(PROMPT_COMPLETE);
    r.push(PLAN_START);
    r.push(PLAN_END);
    r.push(PROVIDER_REQUEST);
    r.push(PROVIDER_RESPONSE);
    r.push(PROVIDER_RETRY);
    r.push(PROVIDER_ERROR);
    r.push(LLM_REQUEST);
    r.push(LLM_REQUEST_DEBUG);
    r.push(LLM_REQUEST_RAW);
    r.push(LLM_RESPONSE);
    r.push(LLM_RESPONSE_DEBUG);
    r.push(LLM_RESPONSE_RAW);
    r.push(CONTENT_BLOCK_START);
    r.push(CONTENT_BLOCK_DELTA);
    r.push(CONTENT_BLOCK_END);
    r.push(THINKING_DELTA);
    r.push(THINKING_FINAL);
    r.push(TOOL_PRE);
    r.push(TOOL_POST);
    r.push(TOOL_ERROR);
    r.push(CONTEXT_PRE_COMPACT);
    r.push(CONTEXT_POST_COMPACT);
    r.push(CONTEXT_COMPACTION);
    r.push(CONTEXT_INCLUDE);
    r.push(ORCHESTRATOR_COMPLETE);
    r.push(EXECUTION_START);
    r.push(EXECUTION_END);
    r.push(USER_NOTIFICATION);
    r.push(ARTIFACT_WRITE);
    r.push(ARTIFACT_READ);
    r.push(POLICY_VIOLATION);
    r.push(APPROVAL_REQUIRED);
    r.push(APPROVAL_GRANTED);
    r.push(APPROVAL_DENIED);
    r.push(CANCEL_REQUESTED);
    r.push(CANCEL_COMPLETED);
    r
}

} // verus!
