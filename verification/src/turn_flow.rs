//! Decisions around running one turn of a session: whether lifecycle hooks
//! fire, the names of their hook points, the recalled-memory block added to
//! the system prompt, how a resumed session's record is brought up to date,
//! and how prompts sent by hooks are chained and capped.

use vstd::prelude::*;
use crate::memory_render::{render_memory_context, render_memory_context_spec, RecallMemory};
use crate::strmap::str_equal;
use crate::text::push_str;

verus! {

/// Lifecycle hooks fire for every turn except those of the chatbot MCP entry.
pub fn hooks_enabled(entry_is_mcp: bool, instance_id: Option<&str>) -> (r: bool)
    ensures
        r == !(entry_is_mcp && (match instance_id { Some(i) => i@ == "chatbot"@, None => false })),
{
    match instance_id {
        Some(i) => !(entry_is_mcp && str_equal(i, "chatbot")),
        None => true,
    }
}

/// The hook point of a session lifecycle stage: `<agent>.Session.lifecycle.<stage>`.
pub fn session_lifecycle_hook_point(agent_id: &str, stage: &str) -> (s: String)
    ensures
        s@ == agent_id@ + ".Session.lifecycle."@ + stage@,
{
    let mut s = String::from_str(agent_id);
    push_str(&mut s, ".Session.lifecycle.");
    push_str(&mut s, stage);
    s
}

/// The system prompt after recall: when memories were recalled and their
/// rendered block is not empty, the block follows a blank line.
pub open spec fn prompt_with_memories(prompt: Seq<char>, memories: Seq<RecallMemory>, budget: nat) -> Seq<char> {
    if memories.len() > 0 && render_memory_context_spec(memories, budget).len() > 0 {
        prompt + "\n\n"@ + render_memory_context_spec(memories, budget)
    } else {
        prompt
    }
}

pub fn append_memory_block(system_prompt: &mut String, memories: &[RecallMemory], token_budget: usize)
    ensures
        final(system_prompt)@ == prompt_with_memories(old(system_prompt)@, memories@, token_budget as nat),
{
    if memories.len() == 0 {
        return;
    }
    let block = render_memory_context(memories, token_budget);
    if block.as_str().is_empty() {
        return;
    }
    push_str(system_prompt, "\n\n");
    push_str(system_prompt, block.as_str());
}

/// How a session's record is brought up to date before its turn runs.
#[derive(Debug, Clone, Copy)]
pub struct SessionRecordUpdate {
    /// A paused session resumes: idle again, its checkpoint and last error cleared.
    pub resume_paused: bool,
    /// Stamp the record with the current time.
    pub touch: bool,
    /// Write the record to the store.
    pub save: bool,
}

pub fn plan_session_record_update(is_new_session: bool, was_paused: bool, backend_updated: bool, has_bootstrap_binding: bool) -> (u: SessionRecordUpdate)
    ensures
        u.resume_paused == was_paused,
        u.touch == (backend_updated || was_paused),
        u.save == (is_new_session || backend_updated || was_paused || has_bootstrap_binding),
{
    SessionRecordUpdate {
        resume_paused: was_paused,
        touch: backend_updated || was_paused,
        save: is_new_session || backend_updated || was_paused || has_bootstrap_binding,
    }
}

/// A hook action: a prompt to send to a session, or another action the
/// caller keeps under a ticket.
#[derive(Debug)]
pub enum PromptAction {
    SendPrompt { session_id: String, text: String, chain_depth: usize },
    Other(u64),
}

pub open spec fn action_view(a: PromptAction) -> (bool, Seq<char>, Seq<char>, int, u64) {
    match a {
        PromptAction::SendPrompt { session_id, text, chain_depth } => (true, session_id@, text@, chain_depth as int, 0),
        PromptAction::Other(t) => (false, Seq::empty(), Seq::empty(), 0, t),
    }
}

/// The actions kept after stamping: prompts carry the next depth (one more
/// than the emitting turn's, saturating) and are dropped once it reaches
/// `max_depth`; other actions pass unchanged.
pub open spec fn stamp_and_cap_spec(s: Seq<(bool, Seq<char>, Seq<char>, int, u64)>, depth: usize, max_depth: usize) -> Seq<(bool, Seq<char>, Seq<char>, int, u64)>
    decreases s.len(),
{
    if s.len() == 0 {
        s
    } else {
        let rest = stamp_and_cap_spec(s.drop_last(), depth, max_depth);
        let a = s.last();
        let next = if depth == usize::MAX { depth as int } else { depth + 1 };
        if a.0 {
            if next >= max_depth { rest } else { rest.push((true, a.1, a.2, next, 0)) }
        } else {
            rest.push(a)
        }
    }
}

pub fn stamp_and_cap_send_prompt_actions(actions: Vec<PromptAction>, emitting_turn_depth: usize, max_depth: usize) -> (out: Vec<PromptAction>)
    ensures
        out@.map_values(|a: PromptAction| action_view(a))
            == stamp_and_cap_spec(actions@.map_values(|a: PromptAction| action_view(a)), emitting_turn_depth, max_depth),
{
    let ghost all = actions@.map_values(|a: PromptAction| action_view(a));
    let next_depth = emitting_turn_depth.saturating_add(1);
    let mut rest = actions;
    let mut out: Vec<PromptAction> = Vec::new();
    let n = rest.len();
    let mut i: usize = 0;
    assert(all.take(0) =~= Seq::<(bool, Seq<char>, Seq<char>, int, u64)>::empty());
    assert(rest@.map_values(|a: PromptAction| action_view(a)) =~= all.skip(0));
    while i < n
        invariant
            n == all.len(),
            i <= n,
            rest@.map_values(|a: PromptAction| action_view(a)) == all.skip(i as int),
            rest@.len() == n - i,
            next_depth == (if emitting_turn_depth == usize::MAX { emitting_turn_depth as int } else { emitting_turn_depth + 1 }),
            out@.map_values(|a: PromptAction| action_view(a)) == stamp_and_cap_spec(all.take(i as int), emitting_turn_depth, max_depth),
        decreases n - i,
    {
        let ghost before_rest = rest@;
        let ghost before_out = out@;
        let action = rest.remove(0);
        proof {
            assert(rest@.map_values(|a: PromptAction| action_view(a)).len() == rest@.len());
            assert(before_rest.map_values(|a: PromptAction| action_view(a))[0] == action_view(before_rest[0]));
            assert(all.skip(i as int)[0] == all[i as int]);
            assert(action_view(action) == all[i as int]);
            assert(rest@ =~= before_rest.drop_first());
            assert(rest@.map_values(|a: PromptAction| action_view(a))
                =~= before_rest.map_values(|a: PromptAction| action_view(a)).drop_first());
            assert(all.skip(i as int).drop_first() =~= all.skip(i + 1));
            assert(rest@.map_values(|a: PromptAction| action_view(a)) =~= all.skip(i + 1));
            assert(all.take(i + 1).drop_last() =~= all.take(i as int));
            assert(all.take(i + 1).last() == all[i as int]);
        }
        match action {
            PromptAction::SendPrompt { session_id, text, chain_depth: _ } => {
                if next_depth < max_depth {
                    let a = PromptAction::SendPrompt { session_id, text, chain_depth: next_depth };
                    let ghost av = action_view(a);
                    out.push(a);
                    assert(out@.map_values(|a: PromptAction| action_view(a))
                        =~= before_out.map_values(|a: PromptAction| action_view(a)).push(av));
                }
            },
            PromptAction::Other(t) => {
                let a = PromptAction::Other(t);
                let ghost av = action_view(a);
                out.push(a);
                assert(out@.map_values(|a: PromptAction| action_view(a))
                    =~= before_out.map_values(|a: PromptAction| action_view(a)).push(av));
            },
        }
        i = i + 1;
    }
    assert(all.take(n as int) =~= all);
    out
}

/// No prompt kept by the cap reaches the maximum depth, and every kept
/// prompt is one level deeper than the turn that emitted it.
pub proof fn law_kept_prompts_stay_under_the_cap(s: Seq<(bool, Seq<char>, Seq<char>, int, u64)>, depth: usize, max_depth: usize)
    requires
        depth < usize::MAX,
    ensures
        forall|k: int| 0 <= k < stamp_and_cap_spec(s, depth, max_depth).len() && (#[trigger] stamp_and_cap_spec(s, depth, max_depth)[k]).0
            ==> stamp_and_cap_spec(s, depth, max_depth)[k].3 == depth + 1 && depth + 1 < max_depth,
    decreases s.len(),
{
    if s.len() > 0 {
        law_kept_prompts_stay_under_the_cap(s.drop_last(), depth, max_depth);
        let rest = stamp_and_cap_spec(s.drop_last(), depth, max_depth);
        let out = stamp_and_cap_spec(s, depth, max_depth);
        assert forall|k: int| 0 <= k < out.len() && (#[trigger] out[k]).0 implies out[k].3 == depth + 1 && depth + 1 < max_depth by {
            if k < rest.len() {
                assert(out[k] == rest[k]);
            }
        }
    }
}

} // verus!
