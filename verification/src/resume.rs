//! What an ACP `session/list` answer to `/resume` leads to: the sessions
//! offered (the viewed one left out, then capped), the one a prefix picks,
//! or why the prefix picks none.
use vstd::prelude::*;
use crate::staging::{resume_match, unique_session_list_match, SessionListItem};
use crate::text::{concat_str, str_eq};
use crate::numfmt::{decimal, format_decimal};
use crate::pickers::SessionMatch;

verus! {

/// `s` without the sessions whose id is `skip`, in order.
pub open spec fn without_id(s: Seq<SessionListItem>, skip: Seq<char>) -> Seq<SessionListItem>
    decreases s.len(),
{
    if s.len() == 0 {
        Seq::empty()
    } else {
        (if s[0].id@ == skip { Seq::empty() } else { seq![s[0]] }) + without_id(s.drop_first(), skip)
    }
}

/// At most the first `n` of `s` (`Vec::truncate`).
pub open spec fn cap<T>(s: Seq<T>, n: nat) -> Seq<T> {
    if s.len() <= n { s } else { s.take(n as int) }
}

/// The sessions `/resume` offers: all but the viewed one, at most `limit`.
pub open spec fn offered(s: Seq<SessionListItem>, viewed: Seq<char>, limit: nat) -> Seq<SessionListItem> {
    cap(without_id(s, viewed), limit)
}

/// The warning for a prefix that picks no session.
pub open spec fn miss_message(e: (Seq<char>, nat)) -> Seq<char> {
    if e.1 == 0 {
        "no session matches “"@ + e.0 + "” — /resume lists them"@
    } else {
        "“"@ + e.0 + "” is ambiguous ("@ + crate::numfmt::decimal(e.1) + " matches) — /resume lists them"@
    }
}

/// Every session left after dropping `skip` has another id.
proof fn lemma_without_id(s: Seq<SessionListItem>, skip: Seq<char>)
    ensures
        forall|k: int| 0 <= k < without_id(s, skip).len() ==> (#[trigger] without_id(s, skip)[k]).id@ != skip,
        without_id(s, skip).len() <= s.len(),
    decreases s.len(),
{
    if s.len() > 0 {
        lemma_without_id(s.drop_first(), skip);
        let h = if s[0].id@ == skip { Seq::<SessionListItem>::empty() } else { seq![s[0]] };
        let w = without_id(s.drop_first(), skip);
        assert forall|k: int| 0 <= k < (h + w).len() implies (#[trigger] (h + w)[k]).id@ != skip by {
            if k >= h.len() {
                assert((h + w)[k] == w[k - h.len()]);
            }
        }
    }
}

/// `/resume` never offers the session being viewed, and never more than
/// the limit.
pub proof fn law_viewed_session_never_offered(s: Seq<SessionListItem>, viewed: Seq<char>, limit: nat)
    ensures
        offered(s, viewed, limit).len() <= limit,
        forall|k: int| 0 <= k < offered(s, viewed, limit).len() ==> (#[trigger] offered(s, viewed, limit)[k]).id@ != viewed,
{
    lemma_without_id(s, viewed);
}

/// What a `session/list` answer leads to.
pub enum ListPlan {
    /// The answer is for a request of another session.
    Ignore,
    /// The prefix picked this session: resume it.
    Resume(String),
    /// Offer these sessions (none: say so), after the warning about the
    /// prefix when it picked none.
    Offer { warning: Option<String>, sessions: Vec<SessionListItem> },
}

/// `sessions` without the one whose id is `skip`, capped at `limit`.
fn keep_offered(sessions: Vec<SessionListItem>, skip: &str, limit: usize) -> (r: Vec<SessionListItem>)
    ensures
        r@ == offered(sessions@, skip@, limit as nat),
{
    let ghost all = sessions@;
    let mut rest = sessions;
    let mut kept: Vec<SessionListItem> = Vec::new();
    while rest.len() > 0
        invariant
            kept.len() <= limit,
            cap(without_id(all, skip@), limit as nat) == cap(kept@ + without_id(rest@, skip@), limit as nat),
        decreases rest.len(),
    {
        let ghost before = rest@;
        let s = rest.remove(0);
        assert(before.drop_first() =~= rest@);
        let ghost w = without_id(rest@, skip@);
        if kept.len() < limit {
            if str_eq(s.id.as_str(), skip) {
                assert(without_id(before, skip@) =~= w);
            } else {
                assert(without_id(before, skip@) =~= seq![s] + w);
                let ghost k0 = kept@;
                kept.push(s);
                assert(k0 + without_id(before, skip@) =~= kept@ + w);
            }
        } else {
            let ghost h = if s.id@ == skip@ { Seq::<SessionListItem>::empty() } else { seq![s] };
            assert(without_id(before, skip@) =~= h + w);
            assert((kept@ + without_id(before, skip@)).take(limit as int) =~= kept@);
            assert((kept@ + w).take(limit as int) =~= kept@);
        }
    }
    assert(kept@ + without_id(rest@, skip@) =~= kept@);
    kept
}

/// What the answer to `/resume` from session `requester` leads to, the
/// viewed session being `viewed`: another session's answer is ignored; the
/// viewed session is never offered and at most `limit` are; a non-empty
/// prefix picks the session it names, or warns and offers the list.
pub fn session_list_plan(
    requester: &str,
    viewed: &str,
    sessions: Vec<SessionListItem>,
    prefix: Option<&str>,
    limit: usize,
) -> (r: ListPlan)
    ensures
        requester@ != viewed@ ==> r is Ignore,
        requester@ == viewed@ ==> {
            let kept = offered(sessions@, viewed@, limit as nat);
            let named = match prefix {
                Some(p) => if p@.len() > 0 { Some(p@) } else { None },
                None => None,
            };
            match named {
                Some(p) => match resume_match(kept, p) {
                    Ok(id) => r matches ListPlan::Resume(x) && x@ == id,
                    Err(e) => r matches ListPlan::Offer { warning, sessions: s } && s@ == kept
                        && (warning matches Some(w) && w@ == miss_message(e)),
                },
                None => r matches ListPlan::Offer { warning, sessions: s } && s@ == kept && warning is None,
            }
        },
{
    if !str_eq(requester, viewed) {
        return ListPlan::Ignore;
    }
    let kept = keep_offered(sessions, viewed, limit);
    match prefix {
        Some(p) => {
            if crate::text::char_len(p) > 0 {
                match unique_session_list_match(&kept, p) {
                    Ok(id) => ListPlan::Resume(id),
                    Err(e) => {
                        let warning = e.message();
                        ListPlan::Offer { warning: Some(warning), sessions: kept }
                    },
                }
            } else {
                ListPlan::Offer { warning: None, sessions: kept }
            }
        },
        None => ListPlan::Offer { warning: None, sessions: kept },
    }
}

/// The title of the picker over `n` sessions.
pub fn session_list_title(n: usize, zh: bool) -> (r: String)
    ensures
        r@ == (if zh { " 恢复会话 · "@ } else { " resume session · "@ }) + crate::numfmt::decimal(n as nat)
            + (if zh { " 个会话 · enter 选择 · esc 关闭 "@ } else { " sessions · enter select · esc close "@ }),
{
    let count = crate::numfmt::format_decimal(n as u64);
    let a = crate::text::concat_str(if zh { " 恢复会话 · " } else { " resume session · " }, count.as_str());
    crate::text::concat_str(a.as_str(), if zh { " 个会话 · enter 选择 · esc 关闭 " } else { " sessions · enter select · esc close " })
}

/// The warning when a `/resume` argument names no local session, or several.
pub open spec fn local_miss_text(arg: Seq<char>, m: SessionMatch, zh: bool) -> Option<Seq<char>> {
    match m {
        SessionMatch::Found(_) => None,
        SessionMatch::NoMatch => Some(if zh {
            "没有会话匹配「"@ + arg + "」—— /resume 可列出全部"@
        } else {
            "no session matches “"@ + arg + "” — /resume lists them"@
        }),
        SessionMatch::Ambiguous(n) => Some(if zh {
            "「"@ + arg + "」有 "@ + decimal(n as nat) + " 个匹配，存在歧义 —— /resume 可列出全部"@
        } else {
            "“"@ + arg + "” is ambiguous ("@ + decimal(n as nat) + " matches) — /resume lists them"@
        }),
    }
}

/// The warning when a `/resume` argument names no local session, or several.
pub fn local_miss_message(arg: &str, m: &SessionMatch, zh: bool) -> (r: Option<String>)
    ensures
        match r {
            Some(t) => local_miss_text(arg@, *m, zh) == Some(t@),
            None => local_miss_text(arg@, *m, zh) is None,
        },
{
    match m {
        SessionMatch::Found(_) => None,
        SessionMatch::NoMatch => {
            let a = concat_str(if zh { "没有会话匹配「" } else { "no session matches “" }, arg);
            Some(concat_str(a.as_str(), if zh { "」—— /resume 可列出全部" } else { "” — /resume lists them" }))
        },
        SessionMatch::Ambiguous(n) => {
            let count = format_decimal(*n as u64);
            let a = concat_str(if zh { "「" } else { "“" }, arg);
            let b = concat_str(a.as_str(), if zh { "」有 " } else { "” is ambiguous (" });
            let c = concat_str(b.as_str(), count.as_str());
            Some(concat_str(c.as_str(), if zh { " 个匹配，存在歧义 —— /resume 可列出全部" } else { " matches) — /resume lists them" }))
        },
    }
}

/// The notice after replaying a local session.
pub open spec fn resumed_text(id: Seq<char>, turns: u64, replayed: usize, zh: bool) -> Seq<char> {
    if zh {
        "⟲ 已恢复 "@ + id + " · "@ + decimal(turns as nat) + " 轮对话 · 回放 "@ + decimal(replayed as nat)
            + " 个事件 —— 下一条消息继续它"@
    } else {
        "⟲ resumed "@ + id + " · "@ + decimal(turns as nat) + " turn"@ + (if turns == 1 { ""@ } else { "s"@ })
            + " · "@ + decimal(replayed as nat) + " events replayed — the next prompt continues it"@
    }
}

/// The notice after replaying a local session: its id, its turns and how
/// many events were replayed.
pub fn resumed_notice(id: &str, turns: u64, replayed: usize, zh: bool) -> (r: String)
    ensures
        r@ == resumed_text(id@, turns, replayed, zh),
{
    let t = format_decimal(turns);
    let n = format_decimal(replayed as u64);
    if zh {
        let a = concat_str("⟲ 已恢复 ", id);
        let b = concat_str(a.as_str(), " · ");
        let c = concat_str(b.as_str(), t.as_str());
        let d = concat_str(c.as_str(), " 轮对话 · 回放 ");
        let e = concat_str(d.as_str(), n.as_str());
        concat_str(e.as_str(), " 个事件 —— 下一条消息继续它")
    } else {
        let a = concat_str("⟲ resumed ", id);
        let b = concat_str(a.as_str(), " · ");
        let c = concat_str(b.as_str(), t.as_str());
        let d = concat_str(c.as_str(), " turn");
        let e = concat_str(d.as_str(), if turns == 1 { "" } else { "s" });
        let f = concat_str(e.as_str(), " · ");
        let g = concat_str(f.as_str(), n.as_str());
        concat_str(g.as_str(), " events replayed — the next prompt continues it")
    }
}

} // verus!
