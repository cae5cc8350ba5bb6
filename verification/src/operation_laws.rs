//! What five operations are for, stated over all inputs: the process a
//! command runs as, which recalled memories the prompt block keeps, what a
//! heartbeat does to a lease, which messages ingest a turn, and when a
//! backend's sessions hold it back from eviction.

use vstd::prelude::*;
use crate::backend_registry::{all_idle, evictable, eviction_safe, owner_stale, RegistryEntryView};
use crate::e2b_exec::{exec_process_spec, timeout_arg_spec};
use crate::memory_automation::{ingest_messages_spec_with, CompletedTurnIngest};
use crate::memory_laws::{lemma_single_word, sum_front};
use crate::memory_render::{
    lines_that_fit, memory_block_close, memory_block_notice, memory_block_open, memory_line, memory_line_words,
    memory_lines, newline, render_memory_context_spec, RecallMemory,
};
use crate::session_lease::{acquire_spec, heartbeat_spec, LeaseMap, LeaseOutcome, STALE_LEASE_THRESHOLD_MS};
use crate::text::{decimal, join, words};

verus! {

// ----------------------------------------------------------------------------
// The process of a command

/// A command run through a shell is handed to it as a command string: the
/// process is the shell with exactly the arguments `-c` and the command.
/// Without a shell the command runs itself with its arguments. A timeout
/// wraps that same process, unchanged, after `timeout --signal=TERM <t>`.
pub proof fn law_shell_runs_the_command_string(command: Seq<char>, args: Seq<Seq<char>>, shell: Option<Seq<char>>, t: u64)
    ensures
        ({
            let (program, arguments) = exec_process_spec(command, args, shell, None);
            let (wrapper, wrapped) = exec_process_spec(command, args, shell, Some(t));
            &&& shell matches Some(sh) ==> program == sh && arguments.len() == 2 && arguments[0] == "-c"@
                && arguments[1] == command
            &&& shell is None ==> program == command && arguments == args
            &&& wrapper == "timeout"@
            &&& wrapped == seq!["--signal=TERM"@, timeout_arg_spec(t)] + seq![program] + arguments
        }),
{
    let (program, arguments) = exec_process_spec(command, args, shell, None);
    let (wrapper, wrapped) = exec_process_spec(command, args, shell, Some(t));
    assert(wrapped =~= seq!["--signal=TERM"@, timeout_arg_spec(t)] + seq![program] + arguments);
}

// ----------------------------------------------------------------------------
// The recalled-memory block

/// The words of the lines of `ms`, in order.
pub open spec fn line_words_of(ms: Seq<RecallMemory>) -> Seq<nat> {
    ms.map_values(|m: RecallMemory| words(memory_line(m)))
}

/// How many of the lines with word counts `ws` fit, taken in order after
/// `used` words with one word kept back: every line counted fits, and the
/// first line left out would not.
proof fn lemma_fit_is_maximal(ws: Seq<nat>, used: nat, budget: nat)
    requires
        used + 1 <= budget,
    ensures
        lines_that_fit(ws, used, budget) <= ws.len(),
        used + sum_front(ws.take(lines_that_fit(ws, used, budget) as int)) + 1 <= budget,
        lines_that_fit(ws, used, budget) < ws.len() ==> used + sum_front(ws.take(lines_that_fit(ws, used, budget) as int))
            + ws[lines_that_fit(ws, used, budget) as int] + 1 > budget,
    decreases ws.len(),
{
    let k = lines_that_fit(ws, used, budget);
    if ws.len() > 0 && used + ws[0] + 1 <= budget {
        let rest = ws.drop_first();
        lemma_fit_is_maximal(rest, used + ws[0], budget);
        let k1 = lines_that_fit(rest, used + ws[0], budget);
        assert(k == k1 + 1);
        assert(ws.take(k as int).drop_first() =~= rest.take(k1 as int));
        assert(ws.take(k as int)[0] == ws[0]);
        assert(sum_front(ws.take(k as int)) == ws[0] + sum_front(rest.take(k1 as int)));
        if k < ws.len() {
            assert(ws[k as int] == rest[k1 as int]);
        }
    } else {
        assert(k == 0);
        assert(ws.take(0).len() == 0);
        assert(sum_front(ws.take(0)) == 0);
    }
}

/// The block keeps the recalled memories in order, as many as fit: its lines
/// are those of the first `k` memories, which fit the budget with the word
/// kept back for the closing marker, and either every memory is kept or the
/// next one's line would not fit. A budget too small for the markers and
/// notice gives no block.
pub proof fn law_render_keeps_every_memory_that_fits(memories: Seq<RecallMemory>, budget: nat)
    ensures
        ({
            let fixed = words(memory_block_open()) + words(memory_block_notice());
            let out = render_memory_context_spec(memories, budget);
            &&& fixed + words(memory_block_close()) > budget ==> out.len() == 0
            &&& fixed + words(memory_block_close()) <= budget ==> exists|k: int| #![trigger memories.take(k)]
                0 <= k <= memories.len()
                && out == join(seq![memory_block_open(), memory_block_notice()]
                    + memories.take(k).map_values(|m: RecallMemory| memory_line(m)) + seq![memory_block_close()], newline())
                && fixed + sum_front(line_words_of(memories.take(k))) + 1 <= budget
                && (k < memories.len() ==> fixed + sum_front(line_words_of(memories.take(k)))
                    + words(memory_line(memories[k])) + 1 > budget)
        }),
{
    let fixed = words(memory_block_open()) + words(memory_block_notice());
    if fixed + words(memory_block_close()) <= budget {
        reveal_strlit("</untrusted_long_term_memory>");
        lemma_single_word(memory_block_close());
        let ws = memory_line_words(memories);
        lemma_fit_is_maximal(ws, fixed, budget);
        let k = lines_that_fit(ws, fixed, budget) as int;
        assert(memory_lines(memories).take(k) =~= memories.take(k).map_values(|m: RecallMemory| memory_line(m)));
        assert(ws.take(k) =~= line_words_of(memories.take(k)));
        if k < memories.len() {
            assert(ws[k] == words(memory_line(memories[k])));
        }
        assert(0 <= k <= memories.len()
            && render_memory_context_spec(memories, budget) == join(seq![memory_block_open(), memory_block_notice()]
                + memories.take(k).map_values(|m: RecallMemory| memory_line(m)) + seq![memory_block_close()], newline())
            && fixed + sum_front(line_words_of(memories.take(k))) + 1 <= budget
            && (k < memories.len() ==> fixed + sum_front(line_words_of(memories.take(k)))
                + words(memory_line(memories[k])) + 1 > budget));
    }
}

// ----------------------------------------------------------------------------
// Heartbeats

/// A heartbeat that is granted renews the caller's lease at `now`: the
/// session is held by the caller with its heartbeat stamped `now`, other
/// sessions' leases are untouched, and so any other client that tries to
/// acquire the session within the staleness threshold after `now` is refused,
/// with the caller named as the live holder.
pub proof fn law_heartbeat_renews_the_lease(
    t: LeaseMap,
    session_id: Seq<char>,
    a: Seq<char>,
    a_pid: Option<u32>,
    a_host: Option<Seq<char>>,
    now: u64,
    b: Seq<char>,
    b_pid: Option<u32>,
    b_host: Option<Seq<char>>,
    later: u64,
)
    requires
        heartbeat_spec(t, session_id, a, a_pid, a_host, now).1 is Granted,
        a != b,
        now > 0,
        later <= now + STALE_LEASE_THRESHOLD_MS,
    ensures
        ({
            let held = heartbeat_spec(t, session_id, a, a_pid, a_host, now).0;
            let (after, outcome) = acquire_spec(held, session_id, b, b_pid, b_host, later);
            &&& held.contains_key(session_id)
            &&& held[session_id].client_id == a
            &&& held[session_id].last_heartbeat_ms == now
            &&& forall|s: Seq<char>| s != session_id ==> (#[trigger] held.contains_key(s) <==> t.contains_key(s))
                && (t.contains_key(s) ==> held[s] == t[s])
            &&& after == held
            &&& outcome matches LeaseOutcome::Busy { holder, stale } && holder.client_id == a
                && holder.last_heartbeat_ms == now && !stale
        }),
{
}

// ----------------------------------------------------------------------------
// Ingest messages

/// The messages that ingest a turn are its recent messages, one each and in
/// order, as context (message `i` under `<id>:context:<i>`, not a candidate,
/// unstamped), then the user's message under the turn's id and the
/// assistant's reply under `<id>:assistant`, both candidates stamped `ts`.
pub proof fn law_ingest_sends_each_recent_message(e: CompletedTurnIngest, ts: Option<Seq<char>>)
    ensures
        ({
            let ms = ingest_messages_spec_with(e, ts);
            let n = e.recent_messages@.len() as int;
            &&& ms.len() == n + 2
            &&& ms.take(n).map_values(|m: (Seq<char>, Seq<char>, Seq<char>, Seq<char>, Option<Seq<char>>, bool)| m.3)
                == e.recent_messages@.map_values(|s: String| s@)
            &&& forall|i: int| 0 <= i < n ==> (#[trigger] ms[i]).0 == e.message_id@ + ":context:"@ + decimal(i as nat)
                && ms[i].1 == "system"@ && ms[i].4 is None && !ms[i].5
            &&& ms[n].0 == e.message_id@ && ms[n].1 == "user"@ && ms[n].2 == e.sender_id@
                && ms[n].3 == e.user_text@ && ms[n].4 == ts && ms[n].5
            &&& ms[n + 1int].0 == e.message_id@ + ":assistant"@ && ms[n + 1int].1 == "assistant"@
                && ms[n + 1int].2 == e.agent_role@ && ms[n + 1int].3 == e.assistant_text@ && ms[n + 1int].4 == ts && ms[n + 1int].5
        }),
{
    let ms = ingest_messages_spec_with(e, ts);
    let n = e.recent_messages@.len() as int;
    assert(ms.take(n).map_values(|m: (Seq<char>, Seq<char>, Seq<char>, Seq<char>, Option<Seq<char>>, bool)| m.3)
        =~= e.recent_messages@.map_values(|s: String| s@));
}

// ----------------------------------------------------------------------------
// Eviction

/// A session with turns queued keeps its backend from being evicted while
/// the backend's owner is alive: the sessions are not all idle, eviction is
/// not safe, and the backend is not evictable. A session whose status is not
/// `idle` does the same. With every session idle and nothing queued, the
/// backend is evictable unless already marked.
pub proof fn law_busy_session_blocks_eviction(e: RegistryEntryView, session_id: Seq<char>, threshold_ms: u64, now: u64)
    ensures
        e.session_statuses.contains_key(session_id) && (e.session_statuses[session_id].1 > 0
            || e.session_statuses[session_id].0 != "idle"@) && !owner_stale(e.owner_heartbeat_ms, threshold_ms, now)
            ==> !all_idle(e.session_statuses) && !eviction_safe(e, threshold_ms, now) && !evictable(e, threshold_ms, now),
        (forall|s: Seq<char>| #[trigger] e.session_statuses.contains_key(s) ==> e.session_statuses[s].0 == "idle"@
            && e.session_statuses[s].1 == 0) ==> all_idle(e.session_statuses)
            && (evictable(e, threshold_ms, now) <==> !e.pending_eviction),
{
}

} // verus!
