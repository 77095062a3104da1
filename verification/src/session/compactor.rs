//! Folding the older part of a long conversation into a summary message.
use vstd::prelude::*;
use crate::clock::now_millis;
use crate::session::{
    lemma_mviews_push, lemma_next_user, mviews, next_user, sys_v, user_v, MessageView, Session,
    SessionMessage,
};
use crate::text::{cat, cat3, chars_of, owned, string_of, trim, trimmed};

verus! {

/// Compacts over-long sessions.
pub struct SessionCompactor;

/// The non-system messages, in order.
pub open spec fn without_system(ms: Seq<MessageView>) -> Seq<MessageView>
    decreases ms.len(),
{
    if ms.len() == 0 {
        seq![]
    } else if sys_v(ms.last()) {
        without_system(ms.drop_last())
    } else {
        without_system(ms.drop_last()).push(ms.last())
    }
}

/// The first system message, if any.
pub open spec fn first_system(ms: Seq<MessageView>) -> Option<MessageView>
    decreases ms.len(),
{
    if ms.len() == 0 {
        None
    } else if sys_v(ms[0]) {
        Some(ms[0])
    } else {
        first_system(ms.drop_first())
    }
}

/// Where the kept tail of the non-system messages `ns` starts: `keep_tail` from the end,
/// advanced to a user message.
pub open spec fn split_index(ns: Seq<MessageView>, keep_tail: nat) -> int {
    next_user(ns, ns.len() - keep_tail)
}

/// Whether a session with messages `ms` is compacted.
pub open spec fn compacts(ms: Seq<MessageView>, max_messages: nat, keep_tail: nat) -> bool {
    let ns = without_system(ms);
    &&& ms.len() > max_messages
    &&& ns.len() > keep_tail
    &&& split_index(ns, keep_tail) < ns.len()
    &&& split_index(ns, keep_tail) != 0
}

/// A text shortened to its first 60 characters followed by `...` when it is longer.
pub open spec fn snippet(text: Seq<char>) -> Seq<char> {
    if text.len() > 60 {
        text.take(60) + "..."@
    } else {
        text
    }
}

/// The summary line of one older message: `- role: snippet`, for messages with content.
pub open spec fn summary_line(m: MessageView) -> Seq<char> {
    match m.content {
        Some(c) => "- "@ + m.role + ": "@ + trimmed(snippet(c)) + "\n"@,
        None => seq![],
    }
}

/// The summary lines of the older messages, in order.
pub open spec fn summary_lines(older: Seq<MessageView>) -> Seq<char>
    decreases older.len(),
{
    if older.len() == 0 {
        seq![]
    } else {
        summary_lines(older.drop_last()) + summary_line(older.last())
    }
}

/// The full summary text.
pub open spec fn summary_text(older: Seq<MessageView>) -> Seq<char> {
    "【前序会话历史提炼摘要】:\n"@ + summary_lines(older)
}

/// The summary message for the older messages, stamped `now`.
pub open spec fn summary_message(older: Seq<MessageView>, now: i64) -> MessageView {
    MessageView {
        role: "system"@,
        content: Some(summary_text(older)),
        name: Some("compact_summary"@),
        tool_calls: None,
        tool_call_id: None,
        timestamp: now,
    }
}

/// Compaction sorts the session's messages by role: the non-system messages are all the
/// messages that are not system messages, in their order; and the system message kept in front
/// is the first system message of the session, when it has one.
pub proof fn law_messages_sorted_by_role(ms: Seq<MessageView>)
    ensures
        without_system(ms) == ms.filter(|m: MessageView| !sys_v(m)),
        first_system(ms) matches Some(s) ==> exists|i: int|
            0 <= i < ms.len() && #[trigger] ms[i] == s && sys_v(s) && forall|j: int|
                0 <= j < i ==> !sys_v(#[trigger] ms[j]),
        first_system(ms) is None ==> forall|i: int| 0 <= i < ms.len() ==> !sys_v(#[trigger] ms[i]),
    decreases ms.len(),
{
    reveal(Seq::filter);
    if ms.len() > 0 {
        law_messages_sorted_by_role(ms.drop_last());
        let t = ms.drop_first();
        law_messages_sorted_by_role(t);
        if !sys_v(ms[0]) {
            match first_system(t) {
                Some(s) => {
                    let i = choose|i: int|
                        0 <= i < t.len() && #[trigger] t[i] == s && sys_v(s) && forall|j: int|
                            0 <= j < i ==> !sys_v(#[trigger] t[j]);
                    assert(ms[i + 1] == s);
                    assert forall|j: int| 0 <= j < i + 1 implies !sys_v(#[trigger] ms[j]) by {
                        if j > 0 {
                            assert(ms[j] == t[j - 1]);
                        }
                    }
                },
                None => {
                    assert forall|i: int| 0 <= i < ms.len() implies !sys_v(#[trigger] ms[i]) by {
                        if i > 0 {
                            assert(ms[i] == t[i - 1]);
                        }
                    }
                },
            }
        }
    }
}

/// The line that a summary gives an older message, written out: `- ` and its role, `: `, and
/// its content cut to 60 characters (then `...`) and trimmed, and a newline; nothing for a
/// message without content.
pub open spec fn older_line(m: MessageView) -> Seq<char> {
    match m.content {
        Some(c) => "- "@ + m.role + ": "@ + trimmed(
            if c.len() > 60 {
                c.take(60) + "..."@
            } else {
                c
            },
        ) + "\n"@,
        None => Seq::<char>::empty(),
    }
}

proof fn lemma_summary_lines_alt(older: Seq<MessageView>)
    ensures
        summary_lines(older) == older.map_values(|m: MessageView| older_line(m)).flatten_alt(),
    decreases older.len(),
{
    if older.len() > 0 {
        lemma_summary_lines_alt(older.drop_last());
        assert(older.map_values(|m: MessageView| older_line(m)).drop_last() =~= older.drop_last().map_values(
            |m: MessageView| older_line(m),
        ));
    }
}

/// The summary of the older messages lists every one of them, in order, and nothing else: it
/// is the header followed by one line per older message with content, that message's role and
/// (cut and trimmed) content. It is a system message named `compact_summary`, stamped `now`.
pub proof fn law_summary_lists_every_older_message(older: Seq<MessageView>, now: i64)
    ensures
        summary_message(older, now).content == Some(
            "【前序会话历史提炼摘要】:\n"@ + older.map_values(|m: MessageView| older_line(m)).flatten(),
        ),
        summary_message(older, now).role == "system"@,
        summary_message(older, now).name == Some("compact_summary"@),
        summary_message(older, now).timestamp == now,
        summary_message(older, now).tool_calls is None,
        summary_message(older, now).tool_call_id is None,
{
    lemma_summary_lines_alt(older);
    older.map_values(|m: MessageView| older_line(m)).lemma_flatten_and_flatten_alt_are_equivalent();
}

/// The messages after compaction: the first system message, the summary, then the kept tail.
pub open spec fn compacted_messages(ms: Seq<MessageView>, keep_tail: nat, now: i64) -> Seq<
    MessageView,
> {
    let ns = without_system(ms);
    let split = split_index(ns, keep_tail);
    let head: Seq<MessageView> = match first_system(ms) {
        Some(s) => seq![s],
        None => seq![],
    };
    head + seq![summary_message(ns.take(split), now)] + ns.skip(split)
}

proof fn lemma_first_system_step(ms: Seq<MessageView>, i: int)
    requires
        0 <= i < ms.len(),
        forall|j: int| 0 <= j < i ==> !sys_v(ms[j]),
    ensures
        first_system(ms) == first_system(ms.skip(i)),
    decreases i,
{
    if i > 0 {
        assert(ms.drop_first().skip(i - 1) =~= ms.skip(i));
        lemma_first_system_step(ms.drop_first(), i - 1);
    } else {
        assert(ms.skip(0) =~= ms);
    }
}

proof fn lemma_no_system(ms: Seq<MessageView>)
    requires
        forall|j: int| 0 <= j < ms.len() ==> !sys_v(ms[j]),
    ensures
        first_system(ms) is None,
    decreases ms.len(),
{
    if ms.len() > 0 {
        lemma_no_system(ms.drop_first());
    }
}

/// The text of one summary line for a message with content.
fn snippet_line(role: &str, text: &str) -> (line: String)
    ensures
        line@ == "- "@ + role@ + ": "@ + trimmed(snippet(text@)) + "\n"@,
{
    let cs = chars_of(text);
    let snip: String = if cs.len() > 60 {
        let mut head: Vec<char> = Vec::new();
        let mut i: usize = 0;
        while i < 60
            invariant
                cs@ == text@,
                cs.len() > 60,
                i <= 60,
                head@ == text@.take(i as int),
            decreases 60 - i,
        {
            head.push(cs[i]);
            i = i + 1;
            assert(head@ =~= text@.take(i as int));
        }
        let h = string_of(head.as_slice());
        cat(h.as_str(), "...")
    } else {
        owned(text)
    };
    let t = trim(snip.as_str());
    let a = cat3("- ", role, ": ");
    cat3(a.as_str(), t.as_str(), "\n")
}

impl SessionCompactor {
    /// Compacts `session` when it has more than `max_messages` messages, stamping the summary
    /// and the session with `now`. The non-system messages are split `keep_tail` from the end,
    /// the split moved forward to the next user message (so that a tool reply is never cut off
    /// from the call that asked for it); the messages before the split are replaced by one
    /// system message that summarises them. Returns whether the session changed; when it
    /// does not, it is left as it was.
    pub fn maybe_compact_at(
        session: &mut Session,
        max_messages: usize,
        keep_tail: usize,
        now: i64,
    ) -> (changed: bool)
        ensures
            changed == compacts(mviews(old(session).messages@), max_messages as nat, keep_tail as nat),
            changed ==> mviews(final(session).messages@) == compacted_messages(
                mviews(old(session).messages@),
                keep_tail as nat,
                now,
            ),
            changed ==> final(session).updated_at == now,
            changed ==> final(session).session_key == old(session).session_key,
            changed ==> final(session).created_at == old(session).created_at,
            !changed ==> *final(session) == *old(session),
    {
        let ghost ms = mviews(session.messages@);
        let n = session.messages.len();
        if n <= max_messages {
            return false;
        }

        // the first system message
        let mut system_msg: Option<SessionMessage> = None;
        let mut i: usize = 0;
        while i < n
            invariant_except_break
                system_msg is None,
            invariant
                n == session.messages@.len(),
                ms == mviews(session.messages@),
                i <= n,
                forall|j: int| 0 <= j < i ==> !sys_v(ms[j]),
            ensures
                system_msg is None ==> forall|j: int| 0 <= j < n ==> !sys_v(ms[j]),
                system_msg is Some ==> first_system(ms) == Some(system_msg->0@),
            decreases n - i,
        {
            if session.messages[i].is_system_role() {
                proof {
                    lemma_first_system_step(ms, i as int);
                }
                system_msg = Some(session.messages[i].duplicate());
                break;
            }
            i = i + 1;
        }
        proof {
            if system_msg is None {
                lemma_no_system(ms);
            }
        }
        let ghost head: Seq<MessageView> = if system_msg is Some {
            seq![system_msg->0@]
        } else {
            seq![]
        };
        assert(head == match first_system(ms) {
            Some(s) => seq![s],
            None => Seq::<MessageView>::empty(),
        });

        // the non-system messages
        let mut non_system: Vec<SessionMessage> = Vec::new();
        let mut k: usize = 0;
        while k < n
            invariant
                n == session.messages@.len(),
                ms == mviews(session.messages@),
                k <= n,
                mviews(non_system@) == without_system(ms.take(k as int)),
            decreases n - k,
        {
            proof {
                assert(ms.take(k + 1).drop_last() =~= ms.take(k as int));
                assert(ms.take(k + 1).last() == ms[k as int]);
            }
            if !session.messages[k].is_system_role() {
                let m = session.messages[k].duplicate();
                proof {
                    lemma_mviews_push(non_system@, m);
                }
                non_system.push(m);
            }
            k = k + 1;
        }
        proof {
            assert(ms.take(n as int) =~= ms);
        }
        let ghost ns = mviews(non_system@);

        let len = non_system.len();
        if len <= keep_tail {
            return false;
        }
        let mut split_idx = len - keep_tail;
        while split_idx < len && !non_system[split_idx].is_user_role()
            invariant
                len == non_system@.len(),
                ns == mviews(non_system@),
                split_idx <= len,
                next_user(ns, split_idx as int) == split_index(ns, keep_tail as nat),
            decreases len - split_idx,
        {
            split_idx = split_idx + 1;
        }
        if split_idx >= len || split_idx == 0 {
            return false;
        }

        // the summary of the older messages
        let mut summary = owned("【前序会话历史提炼摘要】:\n");
        let mut q: usize = 0;
        while q < split_idx
            invariant
                split_idx < len == non_system@.len(),
                ns == mviews(non_system@),
                q <= split_idx,
                summary@ == "【前序会话历史提炼摘要】:\n"@ + summary_lines(ns.take(q as int)),
            decreases split_idx - q,
        {
            proof {
                assert(ns.take(q + 1).drop_last() =~= ns.take(q as int));
                assert(ns.take(q + 1).last() == ns[q as int]);
            }
            match &non_system[q].content {
                Some(text) => {
                    let line = snippet_line(non_system[q].role.as_str(), text.as_str());
                    summary.append(line.as_str());
                },
                None => {},
            }
            q = q + 1;
        }

        let mut compacted: Vec<SessionMessage> = Vec::new();
        match system_msg {
            Some(s) => compacted.push(s),
            None => {},
        }
        proof {
            assert(mviews(compacted@) =~= head);
        }
        let summary_msg = SessionMessage {
            role: owned("system"),
            content: Some(summary),
            name: Some(owned("compact_summary")),
            tool_calls: None,
            tool_call_id: None,
            timestamp: now,
        };
        proof {
            lemma_mviews_push(compacted@, summary_msg);
        }
        compacted.push(summary_msg);
        crate::session::extend_with_copies(&mut compacted, non_system.as_slice(), split_idx);
        session.messages = compacted;
        session.updated_at = now;
        true
    }

    /// Compacts `session` as `maybe_compact_at` does, stamped with the current time.
    pub fn maybe_compact(session: &mut Session, max_messages: usize, keep_tail: usize) -> (changed:
        bool)
        ensures
            changed == compacts(mviews(old(session).messages@), max_messages as nat, keep_tail as nat),
            changed ==> exists|now: i64|
                mviews(final(session).messages@) == compacted_messages(
                    mviews(old(session).messages@),
                    keep_tail as nat,
                    now,
                ) && final(session).updated_at == now,
            changed ==> final(session).session_key == old(session).session_key,
            changed ==> final(session).created_at == old(session).created_at,
            !changed ==> *final(session) == *old(session),
    {
        let now = now_millis();
        Self::maybe_compact_at(session, max_messages, keep_tail, now)
    }
}

proof fn lemma_without_system(ms: Seq<MessageView>)
    ensures
        without_system(ms).len() <= ms.len(),
        (exists|i: int| 0 <= i < ms.len() && sys_v(#[trigger] ms[i])) ==> without_system(ms).len()
            < ms.len(),
        forall|i: int| 0 <= i < without_system(ms).len() ==> !sys_v(#[trigger] without_system(ms)[i]),
    decreases ms.len(),
{
    if ms.len() > 0 {
        let pre = ms.drop_last();
        lemma_without_system(pre);
        if exists|i: int| 0 <= i < ms.len() && sys_v(#[trigger] ms[i]) {
            let i = choose|i: int| 0 <= i < ms.len() && sys_v(#[trigger] ms[i]);
            if i < ms.len() - 1 {
                assert(sys_v(pre[i]));
            }
        }
    }
}

proof fn lemma_first_system_found(ms: Seq<MessageView>)
    ensures
        first_system(ms) matches Some(s) ==> exists|i: int| 0 <= i < ms.len() && ms[i] == s && sys_v(
            #[trigger] ms[i],
        ),
    decreases ms.len(),
{
    if ms.len() > 0 && !sys_v(ms[0]) {
        lemma_first_system_found(ms.drop_first());
        if first_system(ms) is Some {
            let s = first_system(ms)->0;
            let i = choose|i: int|
                0 <= i < ms.drop_first().len() && ms.drop_first()[i] == s && sys_v(
                    #[trigger] ms.drop_first()[i],
                );
            assert(ms[i + 1] == s && sys_v(ms[i + 1]));
        }
    }
}

/// Compaction keeps the end of the conversation whole: when a session is compacted, the
/// messages kept are the last non-system messages from a user message on, at most
/// `keep_tail` of them, with at least one older message folded into the summary; the first
/// system message stays first, the summary follows it, and the session does not grow.
pub proof fn law_compaction_keeps_aligned_tail(
    ms: Seq<MessageView>,
    max_messages: nat,
    keep_tail: nat,
    now: i64,
)
    requires
        compacts(ms, max_messages, keep_tail),
    ensures
        ({
            let ns = without_system(ms);
            let k = split_index(ns, keep_tail);
            let out = compacted_messages(ms, keep_tail, now);
            let h: int = if first_system(ms) is Some {
                1
            } else {
                0
            };
            &&& 0 < k < ns.len()
            &&& user_v(ns[k])
            &&& ns.len() - k <= keep_tail
            &&& out.len() == h + 1 + ns.len() - k
            &&& out.len() <= ms.len()
            &&& out.skip(h + 1) == ns.skip(k)
            &&& out[h] == summary_message(ns.take(k), now)
            &&& (first_system(ms) matches Some(s) ==> out[0] == s)
            &&& forall|i: int| h + 1 <= i < out.len() ==> !sys_v(#[trigger] out[i])
        }),
{
    let ns = without_system(ms);
    let k = split_index(ns, keep_tail);
    let out = compacted_messages(ms, keep_tail, now);
    let h: int = if first_system(ms) is Some {
        1
    } else {
        0
    };
    lemma_next_user(ns, ns.len() - keep_tail);
    lemma_without_system(ms);
    lemma_first_system_found(ms);
    let head: Seq<MessageView> = match first_system(ms) {
        Some(s) => seq![s],
        None => seq![],
    };
    assert(out == head + seq![summary_message(ns.take(k), now)] + ns.skip(k));
    assert(out.skip(h + 1) =~= ns.skip(k));
    assert forall|i: int| h + 1 <= i < out.len() implies !sys_v(#[trigger] out[i]) by {
        assert(out[i] == ns[k + i - h - 1]);
    }
}

} // verus!
