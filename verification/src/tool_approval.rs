//! Per-tool approval tokens for broker checkpoint gating.
//!
//! Pending approvals live five minutes. Times are milliseconds on a monotonic
//! clock read at the edge of the program.
use vstd::prelude::*;

use crate::text::{chars_of, concat_vec, decimal, starts_with, starts_with_vec, string_of};

verus! {

/// Lifetime of a pending approval, in milliseconds.
pub const APPROVAL_TTL_MS: u64 = 300_000;

#[derive(Debug)]
pub struct PendingToolApproval {
    pub token: String,
    pub capability: String,
    pub path: String,
    pub tool_call_id: String,
    pub created_ms: u64,
    pub approved: Option<bool>,
}

impl PendingToolApproval {
    pub fn duplicate(&self) -> (r: PendingToolApproval)
        ensures
            r == *self,
    {
        PendingToolApproval {
            token: self.token.clone(),
            capability: self.capability.clone(),
            path: self.path.clone(),
            tool_call_id: self.tool_call_id.clone(),
            created_ms: self.created_ms,
            approved: self.approved,
        }
    }
}

/// The pending approvals, each token at most once.
pub struct ToolApprovalStore {
    pub entries: Vec<PendingToolApproval>,
}

/// A pending approval is still live at `now` (younger than the TTL).
pub open spec fn is_live(e: PendingToolApproval, now: u64) -> bool {
    now < e.created_ms + APPROVAL_TTL_MS
}

/// Entries still live at `now`, in order.
pub open spec fn live_entries(s: Seq<PendingToolApproval>, now: u64) -> Seq<PendingToolApproval>
    decreases s.len(),
{
    if s.len() == 0 {
        s
    } else {
        let init = live_entries(s.drop_last(), now);
        if is_live(s.last(), now) {
            init.push(s.last())
        } else {
            init
        }
    }
}

/// Entries whose token is not `t`, in order.
pub open spec fn without_token(s: Seq<PendingToolApproval>, t: Seq<char>) -> Seq<PendingToolApproval>
    decreases s.len(),
{
    if s.len() == 0 {
        s
    } else {
        let init = without_token(s.drop_last(), t);
        if s.last().token@ != t {
            init.push(s.last())
        } else {
            init
        }
    }
}

/// The entry for token `t`, if any.
pub open spec fn lookup(s: Seq<PendingToolApproval>, t: Seq<char>) -> Option<PendingToolApproval>
    decreases s.len(),
{
    if s.len() == 0 {
        None
    } else if s.last().token@ == t {
        Some(s.last())
    } else {
        lookup(s.drop_last(), t)
    }
}

/// No token occurs twice.
pub open spec fn tokens_unique(s: Seq<PendingToolApproval>) -> bool {
    forall|i: int, j: int|
        0 <= i < s.len() && 0 <= j < s.len() && i != j ==> (#[trigger] s[i]).token@ != (
        #[trigger] s[j]).token@
}

/// Whether token `t` has been approved.
pub open spec fn approved_in(s: Seq<PendingToolApproval>, t: Seq<char>) -> bool {
    match lookup(s, t) {
        Some(e) => e.approved == Some(true),
        None => false,
    }
}

/// The store after registering `e` at `now`.
pub open spec fn after_register(s: Seq<PendingToolApproval>, e: PendingToolApproval, now: u64) -> Seq<
    PendingToolApproval,
> {
    without_token(live_entries(s, now), e.token@).push(e)
}

/// Entry `t` with its decision set.
pub open spec fn with_decision(s: Seq<PendingToolApproval>, t: Seq<char>, approved: bool) -> Seq<
    PendingToolApproval,
> {
    s.map_values(
        |e: PendingToolApproval|
            if e.token@ == t {
                PendingToolApproval { approved: Some(approved), ..e }
            } else {
                e
            },
    )
}

/// The store and the answer after responding `approved` for `t` at `now`.
pub open spec fn after_respond(s: Seq<PendingToolApproval>, t: Seq<char>, approved: bool, now: u64) -> (
    Seq<PendingToolApproval>,
    Option<bool>,
) {
    let live = live_entries(s, now);
    if lookup(live, t) is Some {
        (with_decision(live, t, approved), Some(approved))
    } else {
        (live, None)
    }
}

proof fn lemma_live_subseq(s: Seq<PendingToolApproval>, now: u64)
    ensures
        forall|i: int|
            0 <= i < live_entries(s, now).len() ==> exists|j: int|
                0 <= j < s.len() && s[j] == #[trigger] live_entries(s, now)[i],
        live_entries(s, now).len() <= s.len(),
        tokens_unique(s) ==> tokens_unique(live_entries(s, now)),
        forall|t: Seq<char>|
            lookup(live_entries(s, now), t) is Some ==> lookup(s, t) is Some,
    decreases s.len(),
{
    if s.len() > 0 {
        lemma_live_subseq(s.drop_last(), now);
        let init = live_entries(s.drop_last(), now);
        assert forall|i: int| 0 <= i < live_entries(s, now).len() implies exists|j: int|
            0 <= j < s.len() && s[j] == #[trigger] live_entries(s, now)[i] by {
            if i < init.len() {
                let j = choose|j: int| 0 <= j < s.drop_last().len() && s.drop_last()[j] == init[i];
                assert(s[j] == init[i]);
            } else {
                assert(s[s.len() - 1] == live_entries(s, now)[i]);
            }
        }
        if tokens_unique(s) {
            assert(tokens_unique(s.drop_last()));
            let l = live_entries(s, now);
            assert forall|i: int, j: int|
                0 <= i < l.len() && 0 <= j < l.len() && i != j implies (#[trigger] l[i]).token@
                != (#[trigger] l[j]).token@ by {
                if i < init.len() && j < init.len() {
                } else if i >= init.len() {
                    let k = choose|k: int| 0 <= k < s.drop_last().len() && s.drop_last()[k] == init[j];
                    assert(s[k] == l[j]);
                } else {
                    let k = choose|k: int| 0 <= k < s.drop_last().len() && s.drop_last()[k] == init[i];
                    assert(s[k] == l[i]);
                }
            }
        }
        assert forall|t: Seq<char>| lookup(live_entries(s, now), t) is Some implies lookup(
            s,
            t,
        ) is Some by {
            if s.last().token@ != t {
                if is_live(s.last(), now) {
                    assert(live_entries(s, now).drop_last() =~= init);
                    assert(lookup(live_entries(s, now), t) == lookup(init, t));
                }
                assert(lookup(init, t) is Some);
                assert(lookup(s.drop_last(), t) is Some);
            }
        }
    }
}

proof fn lemma_without_token(s: Seq<PendingToolApproval>, t: Seq<char>)
    ensures
        lookup(without_token(s, t), t) is None,
        forall|u: Seq<char>| u != t ==> lookup(#[trigger] without_token(s, t), u) == lookup(s, u),
        tokens_unique(s) ==> tokens_unique(without_token(s, t)),
        forall|i: int|
            0 <= i < without_token(s, t).len() ==> exists|j: int|
                0 <= j < s.len() && s[j] == #[trigger] without_token(s, t)[i],
    decreases s.len(),
{
    if s.len() > 0 {
        lemma_without_token(s.drop_last(), t);
        let init = without_token(s.drop_last(), t);
        let w = without_token(s, t);
        if s.last().token@ != t {
            assert(w.drop_last() =~= init);
        }
        assert forall|u: Seq<char>| u != t implies lookup(#[trigger] without_token(s, t), u) == lookup(s, u) by {
            if s.last().token@ != t {
                assert(w.drop_last() =~= init);
                assert(w.last() == s.last());
                if s.last().token@ != u {
                    assert(lookup(w, u) == lookup(init, u));
                    assert(lookup(init, u) == lookup(s.drop_last(), u));
                }
            } else {
                assert(w == init);
            }
        }
        assert forall|i: int| 0 <= i < w.len() implies exists|j: int|
            0 <= j < s.len() && s[j] == #[trigger] w[i] by {
            if i < init.len() {
                let j = choose|j: int| 0 <= j < s.drop_last().len() && s.drop_last()[j] == init[i];
                assert(s[j] == init[i]);
            } else {
                assert(s[s.len() - 1] == w[i]);
            }
        }
        if tokens_unique(s) {
            assert(tokens_unique(s.drop_last()));
            assert forall|i: int, j: int|
                0 <= i < w.len() && 0 <= j < w.len() && i != j implies (#[trigger] w[i]).token@
                != (#[trigger] w[j]).token@ by {
                if i < init.len() && j < init.len() {
                } else if i >= init.len() {
                    let k = choose|k: int| 0 <= k < s.drop_last().len() && s.drop_last()[k] == init[j];
                    assert(s[k] == w[j]);
                } else {
                    let k = choose|k: int| 0 <= k < s.drop_last().len() && s.drop_last()[k] == init[i];
                    assert(s[k] == w[i]);
                }
            }
        }
    }
}

proof fn lemma_with_decision_lookup(s: Seq<PendingToolApproval>, t: Seq<char>, approved: bool)
    requires
        lookup(s, t) is Some,
    ensures
        lookup(with_decision(s, t, approved), t) is Some,
        lookup(with_decision(s, t, approved), t)->0.approved == Some(approved),
    decreases s.len(),
{
    let w = with_decision(s, t, approved);
    if s.last().token@ != t {
        assert(w.drop_last() =~= with_decision(s.drop_last(), t, approved));
        lemma_with_decision_lookup(s.drop_last(), t, approved);
    }
}

/// Registering a token and then approving (or rejecting) it while it is live
/// makes it read as approved exactly when the answer was yes.
pub proof fn law_respond_then_read(
    s: Seq<PendingToolApproval>,
    e: PendingToolApproval,
    registered_at: u64,
    now: u64,
    approved: bool,
)
    requires
        e.created_ms == registered_at,
        registered_at <= now,
        is_live(e, now),
    ensures
        after_respond(after_register(s, e, registered_at), e.token@, approved, now).1 == Some(
            approved,
        ),
        approved_in(
            after_respond(after_register(s, e, registered_at), e.token@, approved, now).0,
            e.token@,
        ) == approved,
{
    let r = after_register(s, e, registered_at);
    let live = live_entries(r, now);
    assert(r.last() == e);
    assert(r.drop_last() =~= without_token(live_entries(s, registered_at), e.token@));
    assert(live.last() == e);
    assert(lookup(live, e.token@) is Some);
    lemma_with_decision_lookup(live, e.token@, approved);
}

/// A token registered at `registered_at` can be answered until the approval
/// lifetime has passed: the answer is given back, and the token then reads as
/// approved exactly when the answer was yes.
pub proof fn law_registered_token_answerable(
    s: Seq<PendingToolApproval>,
    e: PendingToolApproval,
    registered_at: u64,
    now: u64,
    approved: bool,
)
    requires
        e.created_ms == registered_at,
        registered_at <= now,
        now < registered_at + APPROVAL_TTL_MS,
    ensures
        after_respond(after_register(s, e, registered_at), e.token@, approved, now).1 == Some(approved),
        approved_in(after_respond(after_register(s, e, registered_at), e.token@, approved, now).0, e.token@)
            == approved,
{
    law_respond_then_read(s, e, registered_at, now, approved);
}

/// A freshly registered token is not approved.
pub proof fn law_fresh_token_not_approved(s: Seq<PendingToolApproval>, e: PendingToolApproval, now: u64)
    requires
        e.approved is None,
    ensures
        !approved_in(after_register(s, e, now), e.token@),
{
}

pub fn new_store() -> (s: ToolApprovalStore)
    ensures
        s.entries@.len() == 0,
{
    ToolApprovalStore { entries: Vec::new() }
}

impl ToolApprovalStore {
    pub open spec fn wf(&self) -> bool {
        tokens_unique(self.entries@)
    }

    /// Drop approvals older than the TTL.
    pub fn prune_expired(&mut self, now_ms: u64)
        requires
            old(self).wf(),
        ensures
            final(self).entries@ == live_entries(old(self).entries@, now_ms),
            final(self).wf(),
    {
        let mut kept: Vec<PendingToolApproval> = Vec::new();
        let mut i: usize = 0;
        while i < self.entries.len()
            invariant
                i <= self.entries.len(),
                kept@ == live_entries(self.entries@.take(i as int), now_ms),
            decreases self.entries.len() - i,
        {
            assert(self.entries@.take(i + 1).drop_last() =~= self.entries@.take(i as int));
            let e = &self.entries[i];
            if (now_ms as u128) < (e.created_ms as u128) + (APPROVAL_TTL_MS as u128) {
                kept.push(e.duplicate());
            }
            i = i + 1;
        }
        assert(self.entries@.take(self.entries.len() as int) =~= self.entries@);
        proof {
            lemma_live_subseq(self.entries@, now_ms);
        }
        self.entries = kept;
    }

    fn remove_token(&mut self, token: &str)
        requires
            old(self).wf(),
        ensures
            final(self).entries@ == without_token(old(self).entries@, token@),
            final(self).wf(),
    {
        let mut kept: Vec<PendingToolApproval> = Vec::new();
        let mut i: usize = 0;
        let t = chars_of(token);
        while i < self.entries.len()
            invariant
                i <= self.entries.len(),
                t@ == token@,
                kept@ == without_token(self.entries@.take(i as int), token@),
            decreases self.entries.len() - i,
        {
            assert(self.entries@.take(i + 1).drop_last() =~= self.entries@.take(i as int));
            let e = &self.entries[i];
            if !crate::text::eq_vec(&chars_of(e.token.as_str()), &t) {
                kept.push(e.duplicate());
            }
            i = i + 1;
        }
        assert(self.entries@.take(self.entries.len() as int) =~= self.entries@);
        proof {
            lemma_without_token(self.entries@, token@);
        }
        self.entries = kept;
    }

    /// Register a pending approval under `token` (replacing an earlier one).
    pub fn register(&mut self, entry: PendingToolApproval, now_ms: u64)
        requires
            old(self).wf(),
        ensures
            final(self).entries@ == after_register(old(self).entries@, entry, now_ms),
            final(self).wf(),
    {
        self.prune_expired(now_ms);
        let ghost prev = self.entries@;
        self.remove_token(entry.token.as_str());
        proof {
            lemma_without_token(prev, entry.token@);
            assert forall|i: int| 0 <= i < self.entries@.len() implies (#[trigger] self.entries@[i]).token@ != entry.token@ by {
                if self.entries@[i].token@ == entry.token@ {
                    lemma_lookup_finds(self.entries@, i);
                }
            }
        }
        self.entries.push(entry);
    }

    fn position(&self, token: &str) -> (r: Option<usize>)
        ensures
            r is None ==> lookup(self.entries@, token@) is None,
            r is Some ==> r->0 < self.entries@.len() && self.entries@[r->0 as int].token@ == token@,
    {
        let t = chars_of(token);
        let mut i: usize = 0;
        while i < self.entries.len()
            invariant
                i <= self.entries.len(),
                t@ == token@,
                forall|j: int| 0 <= j < i ==> (#[trigger] self.entries@[j]).token@ != token@,
            decreases self.entries.len() - i,
        {
            if crate::text::eq_vec(&chars_of(self.entries[i].token.as_str()), &t) {
                return Some(i);
            }
            i = i + 1;
        }
        proof {
            lemma_lookup_none(self.entries@, token@);
        }
        None
    }

    /// Record the operator's answer. `Some(answer)` when the token is live,
    /// `None` for an unknown or expired token.
    pub fn respond(&mut self, token: &str, approved: bool, now_ms: u64) -> (r: Option<bool>)
        requires
            old(self).wf(),
        ensures
            (final(self).entries@, r) == after_respond(old(self).entries@, token@, approved, now_ms),
            final(self).wf(),
    {
        self.prune_expired(now_ms);
        match self.position(token) {
            None => None,
            Some(i) => {
                proof {
                    lemma_lookup_finds(self.entries@, i as int);
                }
                let ghost before = self.entries@;
                let mut e = self.entries[i].duplicate();
                e.approved = Some(approved);
                self.entries.set(i, e);
                proof {
                    assert forall|k: int| 0 <= k < before.len() && k != i implies (
                    #[trigger] before[k]).token@ != token@ by {}
                    assert(self.entries@ =~= with_decision(before, token@, approved));
                }
                Some(approved)
            },
        }
    }

    /// Whether `token` was approved by the operator.
    pub fn is_approved(&self, token: &str) -> (b: bool)
        requires
            self.wf(),
        ensures
            b == approved_in(self.entries@, token@),
    {
        match self.position(token) {
            None => false,
            Some(i) => {
                proof {
                    lemma_lookup_finds(self.entries@, i as int);
                }
                match self.entries[i].approved {
                    Some(v) => v,
                    None => false,
                }
            },
        }
    }
}

proof fn lemma_lookup_none(s: Seq<PendingToolApproval>, t: Seq<char>)
    requires
        forall|j: int| 0 <= j < s.len() ==> (#[trigger] s[j]).token@ != t,
    ensures
        lookup(s, t) is None,
    decreases s.len(),
{
    if s.len() > 0 {
        assert(s.last() == s[s.len() - 1]);
        assert forall|j: int| 0 <= j < s.drop_last().len() implies (#[trigger] s.drop_last()[j]).token@ != t by {
            assert(s.drop_last()[j] == s[j]);
        }
        lemma_lookup_none(s.drop_last(), t);
    }
}

proof fn lemma_lookup_finds(s: Seq<PendingToolApproval>, i: int)
    requires
        tokens_unique(s),
        0 <= i < s.len(),
    ensures
        lookup(s, s[i].token@) == Some(s[i]),
    decreases s.len(),
{
    if i < s.len() - 1 {
        assert(s.last() == s[s.len() - 1]);
        assert(s[s.len() - 1].token@ != s[i].token@);
        assert(tokens_unique(s.drop_last()));
        assert(s.drop_last()[i] == s[i]);
        lemma_lookup_finds(s.drop_last(), i);
    }
}

/// Register a pending tool approval; returns the token for the client response
/// (`tap-<process id>-<stamp>`).
pub fn register_pending(
    store: &mut ToolApprovalStore,
    capability: &str,
    path: &str,
    tool_call_id: &str,
    process_id: u32,
    stamp: u64,
    now_ms: u64,
) -> (token: String)
    requires
        old(store).wf(),
    ensures
        token@ == "tap-"@ + decimal(process_id as nat) + "-"@ + decimal(stamp as nat),
        final(store).wf(),
        final(store).entries@ == after_register(old(store).entries@, final(store).entries@.last(), now_ms),
        final(store).entries@.last().token@ == token@,
        final(store).entries@.last().capability@ == capability@,
        final(store).entries@.last().path@ == path@,
        final(store).entries@.last().tool_call_id@ == tool_call_id@,
        final(store).entries@.last().created_ms == now_ms,
        final(store).entries@.last().approved is None,
        lookup(final(store).entries@, token@) is Some,
        lookup(final(store).entries@, token@)->0.approved is None,
{
    let mut t = chars_of("tap-");
    crate::text::append_vec(&mut t, &crate::text::decimal_vec(process_id as u64));
    crate::text::append_vec(&mut t, &chars_of("-"));
    crate::text::append_vec(&mut t, &crate::text::decimal_vec(stamp));
    let token = string_of(&t);
    let entry = PendingToolApproval {
        token: token.clone(),
        capability: String::from_str(capability),
        path: String::from_str(path),
        tool_call_id: String::from_str(tool_call_id),
        created_ms: now_ms,
        approved: None,
    };
    store.register(entry, now_ms);
    token
}

/// Record the operator's answer for `token` (see [`ToolApprovalStore::respond`]).
pub fn respond(store: &mut ToolApprovalStore, token: &str, approved: bool, now_ms: u64) -> (r: Option<bool>)
    requires
        old(store).wf(),
    ensures
        (final(store).entries@, r) == after_respond(old(store).entries@, token@, approved, now_ms),
        final(store).wf(),
{
    store.respond(token, approved, now_ms)
}

/// Whether `token` was approved by the operator.
pub fn is_approved(store: &ToolApprovalStore, token: &str) -> (b: bool)
    requires
        store.wf(),
    ensures
        b == approved_in(store.entries@, token@),
{
    store.is_approved(token)
}

/// `approval_required:<token>`.
pub fn approval_required_error(token: &str) -> (s: String)
    ensures
        s@ == "approval_required:"@ + token@,
{
    String::from_str("approval_required:").concat(token)
}

pub fn is_approval_required_error(error: &str) -> (b: bool)
    ensures
        b == starts_with(error@, "approval_required:"@),
{
    starts_with_vec(&chars_of(error), &chars_of("approval_required:"))
}

/// The token of an `approval_required:` error.
pub fn token_from_error(error: &str) -> (r: Option<String>)
    ensures
        r is Some <==> starts_with(error@, "approval_required:"@),
        r is Some ==> "approval_required:"@ + r->0@ == error@,
{
    let e = chars_of(error);
    let p = chars_of("approval_required:");
    if !starts_with_vec(&e, &p) {
        return None;
    }
    let rest = crate::text::slice_vec(&e, p.len(), e.len());
    assert(p@ + rest@ =~= e@);
    Some(string_of(&rest))
}


/// No live entry carries token `t` when every entry with it has expired.
proof fn lemma_expired_not_live(s: Seq<PendingToolApproval>, t: Seq<char>, now: u64)
    requires
        forall|i: int| 0 <= i < s.len() && (#[trigger] s[i]).token@ == t ==> !is_live(s[i], now),
    ensures
        lookup(live_entries(s, now), t) is None,
    decreases s.len(),
{
    if s.len() > 0 {
        let p = s.drop_last();
        assert forall|i: int| 0 <= i < p.len() && (#[trigger] p[i]).token@ == t implies !is_live(p[i], now) by {
            assert(p[i] == s[i]);
        }
        lemma_expired_not_live(p, t, now);
        assert(s.last() == s[s.len() - 1]);
        let init = live_entries(p, now);
        if is_live(s.last(), now) {
            assert(s.last().token@ != t);
            let l = init.push(s.last());
            assert(l.drop_last() =~= init);
            assert(l.last() == s.last());
        }
    }
}

/// An answer for a token that has expired is refused: nothing is answered and
/// the token does not become approved.
pub proof fn law_expired_approval_refused(s: Seq<PendingToolApproval>, t: Seq<char>, approved: bool, now: u64)
    requires
        forall|i: int| 0 <= i < s.len() && (#[trigger] s[i]).token@ == t ==> !is_live(s[i], now),
    ensures
        after_respond(s, t, approved, now).1 is None,
        !approved_in(after_respond(s, t, approved, now).0, t),
{
    lemma_expired_not_live(s, t, now);
}

} // verus!
