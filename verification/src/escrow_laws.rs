//! What holds of the escrow vault across every request.
use vstd::prelude::*;
use crate::escrow_vault::{
    ArbitrationView, EscrowError, EscrowOutcome, EscrowVaultView, MilestoneView, TransferView, add_milestone_outcome,
    approve_milestone_outcome, complete_milestone_outcome, initialize_outcome, raise_dispute_outcome,
    release_deadline_locked_outcome, resolve_dispute_outcome,
};

verus! {

/// A request to the escrow vault, as its operations take it.
pub enum EscrowRequest {
    Initialize {
        client: Seq<char>,
        freelancer: Seq<char>,
        arbitrator: Seq<char>,
        token: Seq<char>,
        total_amount: i128,
        now: u64,
    },
    AddMilestone { caller: Seq<char>, description: Seq<char>, amount: i128, deadline: u64 },
    CompleteMilestone { caller: Seq<char>, index: u32 },
    ApproveMilestone { caller: Seq<char>, index: u32 },
    RaiseDispute { caller: Seq<char>, reason: Seq<char>, proposed_split: i128 },
    ResolveDispute { caller: Seq<char>, client_amount: i128, freelancer_amount: i128 },
    ReleaseDeadlineLocked { caller: Seq<char>, index: u32, now: u64 },
}

/// What request `r` does to storage `s`.
pub open spec fn escrow_outcome(s: EscrowVaultView, r: EscrowRequest) -> EscrowOutcome {
    match r {
        EscrowRequest::Initialize { client, freelancer, arbitrator, token, total_amount, now } =>
            initialize_outcome(s, client, freelancer, arbitrator, token, total_amount, now),
        EscrowRequest::AddMilestone { caller, description, amount, deadline } =>
            add_milestone_outcome(s, caller, description, amount, deadline),
        EscrowRequest::CompleteMilestone { caller, index } => complete_milestone_outcome(s, caller, index),
        EscrowRequest::ApproveMilestone { caller, index } => approve_milestone_outcome(s, caller, index),
        EscrowRequest::RaiseDispute { caller, reason, proposed_split } =>
            raise_dispute_outcome(s, caller, reason, proposed_split),
        EscrowRequest::ResolveDispute { caller, client_amount, freelancer_amount } =>
            resolve_dispute_outcome(s, caller, client_amount, freelancer_amount),
        EscrowRequest::ReleaseDeadlineLocked { caller, index, now } =>
            release_deadline_locked_outcome(s, caller, index, now),
    }
}

/// The milestones of `s`, none where the list was never written.
pub open spec fn milestone_list(s: EscrowVaultView) -> Seq<MilestoneView> {
    match s.milestones {
        Some(ms) => ms,
        None => Seq::empty(),
    }
}

/// What milestone `m` adds to the approved total.
pub open spec fn approved_amount(m: MilestoneView) -> int {
    if m.approved {
        m.amount as int
    } else {
        0
    }
}

/// The sum of the amounts of the approved milestones.
pub open spec fn approved_total(ms: Seq<MilestoneView>) -> int
    decreases ms.len(),
{
    if ms.len() == 0 {
        0
    } else {
        approved_total(ms.drop_last()) + approved_amount(ms.last())
    }
}

/// The sum of the amounts that `ts` moves.
pub open spec fn transferred_total(ts: Seq<TransferView>) -> int
    decreases ts.len(),
{
    if ts.len() == 0 {
        0
    } else {
        transferred_total(ts.drop_last()) + ts.last().amount
    }
}

/// Every approved milestone of `s` is also completed.
pub open spec fn approved_are_completed(s: EscrowVaultView) -> bool {
    forall|i: int| 0 <= i < milestone_list(s).len() && #[trigger] milestone_list(s)[i].approved
        ==> milestone_list(s)[i].completed
}

/// The caller named in a request (the parties' addresses for `Initialize`).
pub open spec fn request_caller(r: EscrowRequest) -> Seq<char> {
    match r {
        EscrowRequest::Initialize { client, .. } => client,
        EscrowRequest::AddMilestone { caller, .. } => caller,
        EscrowRequest::CompleteMilestone { caller, .. } => caller,
        EscrowRequest::ApproveMilestone { caller, .. } => caller,
        EscrowRequest::RaiseDispute { caller, .. } => caller,
        EscrowRequest::ResolveDispute { caller, .. } => caller,
        EscrowRequest::ReleaseDeadlineLocked { caller, .. } => caller,
    }
}

proof fn lemma_approved_total_push(ms: Seq<MilestoneView>, m: MilestoneView)
    ensures
        approved_total(ms.push(m)) == approved_total(ms) + approved_amount(m),
{
    assert(ms.push(m).drop_last() =~= ms);
}

proof fn lemma_approved_total_update(ms: Seq<MilestoneView>, i: int, m: MilestoneView)
    requires
        0 <= i < ms.len(),
    ensures
        approved_total(ms.update(i, m)) == approved_total(ms) - approved_amount(ms[i]) + approved_amount(m),
    decreases ms.len(),
{
    if i == ms.len() - 1 {
        assert(ms.update(i, m).drop_last() =~= ms.drop_last());
    } else {
        lemma_approved_total_update(ms.drop_last(), i, m);
        assert(ms.update(i, m).drop_last() =~= ms.drop_last().update(i, m));
    }
}

proof fn lemma_transferred_total_two(a: TransferView, b: TransferView)
    ensures
        transferred_total(seq![a]) == a.amount,
        transferred_total(seq![a, b]) == a.amount + b.amount,
        transferred_total(Seq::<TransferView>::empty()) == 0,
{
    assert(seq![a].drop_last() =~= Seq::<TransferView>::empty());
    assert(seq![a, b].drop_last() =~= seq![a]);
    assert(transferred_total(Seq::<TransferView>::empty()) == 0);
    assert(transferred_total(seq![a]) == transferred_total(Seq::<TransferView>::empty()) + a.amount);
    assert(transferred_total(seq![a, b]) == transferred_total(seq![a]) + b.amount);
}

/// Once the escrow is set up, no request changes its parties, its token, its
/// total or its creation time, and `initialize` is refused.
pub proof fn law_escrow_parties_are_fixed(s: EscrowVaultView, r: EscrowRequest)
    requires
        s.escrow is Some,
    ensures
        r is Initialize ==> escrow_outcome(s, r) == Err::<(EscrowVaultView, Seq<TransferView>), EscrowError>(
            EscrowError::AlreadyInitialized,
        ),
        escrow_outcome(s, r) matches Ok((s2, _)) ==> {
            let e = s.escrow->0;
            &&& s2.escrow is Some
            &&& s2.escrow->0.client == e.client
            &&& s2.escrow->0.freelancer == e.freelancer
            &&& s2.escrow->0.arbitrator == e.arbitrator
            &&& s2.escrow->0.token == e.token
            &&& s2.escrow->0.total_amount == e.total_amount
            &&& s2.escrow->0.created_at == e.created_at
        },
{
}

/// Milestones are only ever appended: no request shortens the list or changes
/// a milestone's description, amount or deadline, completion and approval are
/// never withdrawn, and only `add_milestone` lengthens the list, by one.
pub proof fn law_milestones_append_only(s: EscrowVaultView, r: EscrowRequest)
    ensures
        escrow_outcome(s, r) matches Ok((s2, _)) ==> {
            let before = milestone_list(s);
            let after = milestone_list(s2);
            &&& after.len() == before.len() + (if r is AddMilestone { 1int } else { 0int })
            &&& forall|i: int|
                0 <= i < before.len() ==> {
                    &&& #[trigger] after[i].description == before[i].description
                    &&& after[i].amount == before[i].amount
                    &&& after[i].deadline == before[i].deadline
                    &&& before[i].completed ==> after[i].completed
                    &&& before[i].approved ==> after[i].approved
                }
        },
{
}

/// A milestone is only ever approved after it was completed: every request
/// keeps "approved implies completed" true of all milestones.
pub proof fn law_approval_requires_completion(s: EscrowVaultView, r: EscrowRequest)
    requires
        approved_are_completed(s),
    ensures
        escrow_outcome(s, r) matches Ok((s2, _)) ==> approved_are_completed(s2),
{
    if let Ok((s2, _)) = escrow_outcome(s, r) {
        assert forall|i: int| 0 <= i < milestone_list(s2).len() && #[trigger] milestone_list(s2)[i].approved implies milestone_list(
            s2,
        )[i].completed by {
            if i < milestone_list(s).len() {
                assert(milestone_list(s)[i].approved ==> milestone_list(s)[i].completed);
            }
        }
    }
}

/// Funds move only out of the client's account, in the escrow's token, to the
/// freelancer or back to the client, and only on a request by the client
/// (an approval) or by the arbitrator (a settlement or a deadline release).
pub proof fn law_funds_leave_only_the_client(s: EscrowVaultView, r: EscrowRequest)
    ensures
        escrow_outcome(s, r) matches Ok((_, ts)) ==> ts.len() > 0 ==> {
            let e = s.escrow->0;
            &&& s.escrow is Some
            &&& (r is ApproveMilestone && request_caller(r) == e.client) || ((r is ResolveDispute
                || r is ReleaseDeadlineLocked) && request_caller(r) == e.arbitrator)
            &&& forall|k: int|
                0 <= k < ts.len() ==> {
                    &&& #[trigger] ts[k].from == e.client
                    &&& ts[k].token == e.token
                    &&& ts[k].to == e.freelancer || ts[k].to == e.client
                }
        },
{
}

/// Apart from the settlement of a dispute, `released` moves in step with the
/// approved milestones: each request changes `released` by exactly what it
/// changes the sum of the approved milestones' amounts, so every approved
/// milestone is paid once and only once.
pub proof fn law_released_tracks_approved_milestones(s: EscrowVaultView, r: EscrowRequest)
    requires
        s.escrow is Some,
        !(r is ResolveDispute),
    ensures
        escrow_outcome(s, r) matches Ok((s2, _)) ==> s2.escrow->0.released - approved_total(milestone_list(s2))
            == s.escrow->0.released - approved_total(milestone_list(s)),
{
    let ms = milestone_list(s);
    match r {
        EscrowRequest::AddMilestone { caller, description, amount, deadline } => {
            let m = MilestoneView { description, amount, deadline, completed: false, approved: false };
            lemma_approved_total_push(ms, m);
        },
        EscrowRequest::CompleteMilestone { caller, index } => {
            if index < ms.len() {
                lemma_approved_total_update(ms, index as int, MilestoneView { completed: true, ..ms[index as int] });
            }
        },
        EscrowRequest::ApproveMilestone { caller, index } => {
            if index < ms.len() {
                lemma_approved_total_update(ms, index as int, MilestoneView { approved: true, ..ms[index as int] });
            }
        },
        EscrowRequest::ReleaseDeadlineLocked { caller, index, now } => {
            if index < ms.len() {
                lemma_approved_total_update(ms, index as int, MilestoneView { approved: true, ..ms[index as int] });
            }
        },
        _ => {},
    }
}

/// Every request raises `released` by exactly the sum of the transfers it
/// asks for, provided a settlement names no negative share (a negative share
/// is counted in `released` but moves nothing).
pub proof fn law_released_equals_transferred(s: EscrowVaultView, r: EscrowRequest)
    requires
        s.escrow is Some,
        r matches EscrowRequest::ResolveDispute { client_amount, freelancer_amount, .. } ==> client_amount >= 0
            && freelancer_amount >= 0,
    ensures
        escrow_outcome(s, r) matches Ok((s2, ts)) ==> s2.escrow->0.released == s.escrow->0.released
            + transferred_total(ts),
{
    let e = s.escrow->0;
    match r {
        EscrowRequest::ResolveDispute { caller, client_amount, freelancer_amount } => {
            let a = TransferView { token: e.token, from: e.client, to: e.client, amount: client_amount };
            let b = TransferView { token: e.token, from: e.client, to: e.freelancer, amount: freelancer_amount };
            lemma_transferred_total_two(a, b);
            lemma_transferred_total_two(b, a);
            assert(seq![a] + seq![b] =~= seq![a, b]);
            assert(seq![a] + Seq::<TransferView>::empty() =~= seq![a]);
            assert(Seq::<TransferView>::empty() + seq![b] =~= seq![b]);
            assert(Seq::<TransferView>::empty() + Seq::<TransferView>::empty() =~= Seq::<TransferView>::empty());
        },
        _ => {
            let t = TransferView { token: e.token, from: e.client, to: e.freelancer, amount: 0 };
            lemma_transferred_total_two(t, t);
            assert forall|x: TransferView| transferred_total(seq![x]) == x.amount by {
                lemma_transferred_total_two(x, x);
            }
        },
    }
}

/// A dispute is settled at most once: once the current dispute is resolved,
/// `resolve_dispute` is refused until a new one is raised.
pub proof fn law_dispute_settled_once(s: EscrowVaultView, caller: Seq<char>, client_amount: i128, freelancer_amount: i128)
    requires
        s.escrow is Some,
        caller == s.escrow->0.arbitrator,
        s.arbitration matches Some(a) && a.resolved,
    ensures
        resolve_dispute_outcome(s, caller, client_amount, freelancer_amount) == Err::<
            (EscrowVaultView, Seq<TransferView>),
            EscrowError,
        >(EscrowError::DisputeAlreadyResolved),
{
}

/// The storage after the requests `rs`, in turn, starting from `s`; a refused
/// request changes nothing.
pub open spec fn escrow_run(s: EscrowVaultView, rs: Seq<EscrowRequest>) -> EscrowVaultView
    decreases rs.len(),
{
    if rs.len() == 0 {
        s
    } else {
        let s1 = escrow_run(s, rs.drop_last());
        match escrow_outcome(s1, rs.last()) {
            Ok((s2, _)) => s2,
            Err(_) => s1,
        }
    }
}

/// The storage of a freshly deployed contract.
pub open spec fn fresh_escrow() -> EscrowVaultView {
    EscrowVaultView { escrow: None, milestones: None, arbitration: None }
}

/// The shares that the settlements among `rs` granted, run from `s`.
pub open spec fn settled_total(s: EscrowVaultView, rs: Seq<EscrowRequest>) -> int
    decreases rs.len(),
{
    if rs.len() == 0 {
        0
    } else {
        let s1 = escrow_run(s, rs.drop_last());
        settled_total(s, rs.drop_last()) + match rs.last() {
            EscrowRequest::ResolveDispute { client_amount, freelancer_amount, .. } => if escrow_outcome(
                s1,
                rs.last(),
            ) is Ok {
                client_amount + freelancer_amount
            } else {
                0int
            },
            _ => 0int,
        }
    }
}

/// 1 where milestone `i` of `s` exists and is approved, else 0.
pub open spec fn paid_flag(s: EscrowVaultView, i: int) -> int {
    if 0 <= i < milestone_list(s).len() && milestone_list(s)[i].approved {
        1
    } else {
        0
    }
}

/// Request `r` on `s` pays out milestone `i`: it is an approval or a deadline
/// release of that milestone that moves funds.
pub open spec fn pays_milestone(s: EscrowVaultView, r: EscrowRequest, i: int) -> bool {
    match r {
        EscrowRequest::ApproveMilestone { index, .. } => index == i && (escrow_outcome(s, r) matches Ok((_, ts))
            && ts.len() > 0),
        EscrowRequest::ReleaseDeadlineLocked { index, .. } => index == i && (escrow_outcome(s, r) matches Ok(
            (_, ts),
        ) && ts.len() > 0),
        _ => false,
    }
}

/// How many of the requests `rs`, run from `s`, pay out milestone `i`.
pub open spec fn payouts(s: EscrowVaultView, rs: Seq<EscrowRequest>, i: int) -> int
    decreases rs.len(),
{
    if rs.len() == 0 {
        0
    } else {
        payouts(s, rs.drop_last(), i) + if pays_milestone(escrow_run(s, rs.drop_last()), rs.last(), i) {
            1int
        } else {
            0int
        }
    }
}

/// The milestones of `after` extend those of `before`: none is lost, none
/// changes its description, amount or deadline, and completion and approval
/// are kept.
pub open spec fn milestones_extend(before: Seq<MilestoneView>, after: Seq<MilestoneView>) -> bool {
    &&& after.len() >= before.len()
    &&& forall|i: int|
        0 <= i < before.len() ==> {
            &&& #[trigger] after[i].description == before[i].description
            &&& after[i].amount == before[i].amount
            &&& after[i].deadline == before[i].deadline
            &&& before[i].completed ==> after[i].completed
            &&& before[i].approved ==> after[i].approved
        }
}

/// After a successful `initialize`, every later storage, whatever requests
/// follow, holds the escrow with the parties, token, total and creation time
/// that `initialize` recorded.
pub proof fn law_initialized_parties_persist(
    s: EscrowVaultView,
    client: Seq<char>,
    freelancer: Seq<char>,
    arbitrator: Seq<char>,
    token: Seq<char>,
    total_amount: i128,
    now: u64,
    rs: Seq<EscrowRequest>,
)
    requires
        initialize_outcome(s, client, freelancer, arbitrator, token, total_amount, now) is Ok,
    ensures
        ({
            let s0 = initialize_outcome(s, client, freelancer, arbitrator, token, total_amount, now)->Ok_0.0;
            let e = escrow_run(s0, rs).escrow;
            &&& e is Some
            &&& e->0.client == client
            &&& e->0.freelancer == freelancer
            &&& e->0.arbitrator == arbitrator
            &&& e->0.token == token
            &&& e->0.total_amount == total_amount
            &&& e->0.created_at == now
        }),
    decreases rs.len(),
{
    if rs.len() > 0 {
        law_initialized_parties_persist(s, client, freelancer, arbitrator, token, total_amount, now, rs.drop_last());
        let s0 = initialize_outcome(s, client, freelancer, arbitrator, token, total_amount, now)->Ok_0.0;
        law_escrow_parties_are_fixed(escrow_run(s0, rs.drop_last()), rs.last());
    }
}

/// Over any sequence of requests, milestones are only appended: the list at
/// the end extends the list at the start.
pub proof fn law_milestones_append_only_over_runs(s: EscrowVaultView, rs: Seq<EscrowRequest>)
    ensures
        milestones_extend(milestone_list(s), milestone_list(escrow_run(s, rs))),
    decreases rs.len(),
{
    if rs.len() > 0 {
        law_milestones_append_only_over_runs(s, rs.drop_last());
        law_milestones_append_only(escrow_run(s, rs.drop_last()), rs.last());
        let a = milestone_list(s);
        let b = milestone_list(escrow_run(s, rs.drop_last()));
        let c = milestone_list(escrow_run(s, rs));
        assert forall|i: int| 0 <= i < a.len() implies {
            &&& #[trigger] c[i].description == a[i].description
            &&& c[i].amount == a[i].amount
            &&& c[i].deadline == a[i].deadline
            &&& a[i].completed ==> c[i].completed
            &&& a[i].approved ==> c[i].approved
        } by {
            assert(b[i].description == a[i].description);
            assert(c[i].description == b[i].description);
        }
    }
}

/// In every storage reachable from a fresh contract, each approved milestone
/// is completed.
pub proof fn law_reachable_approvals_are_completed(rs: Seq<EscrowRequest>)
    ensures
        approved_are_completed(escrow_run(fresh_escrow(), rs)),
    decreases rs.len(),
{
    if rs.len() > 0 {
        law_reachable_approvals_are_completed(rs.drop_last());
        law_approval_requires_completion(escrow_run(fresh_escrow(), rs.drop_last()), rs.last());
    }
}

/// In every storage reachable from a fresh contract, `released` is the sum of
/// the approved milestones' amounts plus the shares of every settlement so
/// far; before `initialize` there are neither milestones nor settlements.
pub proof fn law_released_accounts_for_everything(rs: Seq<EscrowRequest>)
    ensures
        ({
            let s = escrow_run(fresh_escrow(), rs);
            &&& s.escrow is None ==> s.milestones is None && settled_total(fresh_escrow(), rs) == 0
            &&& s.escrow is Some ==> s.escrow->0.released == approved_total(milestone_list(s)) + settled_total(
                fresh_escrow(),
                rs,
            )
        }),
    decreases rs.len(),
{
    if rs.len() > 0 {
        let prefix = rs.drop_last();
        law_released_accounts_for_everything(prefix);
        let s1 = escrow_run(fresh_escrow(), prefix);
        let r = rs.last();
        if s1.escrow is Some && !(r is ResolveDispute) {
            law_released_tracks_approved_milestones(s1, r);
        }
        if s1.escrow is None {
            assert(milestone_list(s1) =~= Seq::<MilestoneView>::empty());
        }
    }
}

proof fn lemma_paid_flag_step(s: EscrowVaultView, r: EscrowRequest, i: int)
    requires
        0 <= i,
    ensures
        escrow_outcome(s, r) matches Ok((s2, _)) ==> paid_flag(s2, i) == paid_flag(s, i) + if pays_milestone(
            s,
            r,
            i,
        ) {
            1int
        } else {
            0int
        },
        escrow_outcome(s, r) is Err ==> !pays_milestone(s, r, i),
{
    let ms = milestone_list(s);
    if let Ok((s2, ts)) = escrow_outcome(s, r) {
        let ms2 = milestone_list(s2);
        match r {
            EscrowRequest::AddMilestone { .. } => {
                assert(i < ms.len() ==> ms2[i] == ms[i]);
            },
            _ => {},
        }
    }
}

/// Each milestone is paid out at most once over any sequence of requests: the
/// number of approvals and deadline releases that pay milestone `i` is exactly
/// how much its approval flag rose, so it is 0 or 1, and 0 for a milestone
/// that was already approved.
pub proof fn law_each_milestone_paid_once(s: EscrowVaultView, rs: Seq<EscrowRequest>, i: int)
    requires
        0 <= i,
    ensures
        payouts(s, rs, i) == paid_flag(escrow_run(s, rs), i) - paid_flag(s, i),
        payouts(s, rs, i) <= 1,
        paid_flag(s, i) == 1 ==> payouts(s, rs, i) == 0,
    decreases rs.len(),
{
    if rs.len() > 0 {
        law_each_milestone_paid_once(s, rs.drop_last(), i);
        lemma_paid_flag_step(escrow_run(s, rs.drop_last()), rs.last(), i);
    }
}

/// A payout of milestone `i` moves exactly its amount, once, from the client
/// to the freelancer in the escrow's token, and only for a completed milestone
/// not yet approved, which it leaves approved.
pub proof fn law_payout_is_the_milestone_amount(s: EscrowVaultView, r: EscrowRequest, i: int)
    requires
        pays_milestone(s, r, i),
    ensures
        ({
            let e = s.escrow->0;
            let m = milestone_list(s)[i];
            let (s2, ts) = escrow_outcome(s, r)->Ok_0;
            &&& s.escrow is Some
            &&& 0 <= i < milestone_list(s).len()
            &&& m.completed && !m.approved
            &&& milestone_list(s2)[i].approved
            &&& ts == seq![TransferView { token: e.token, from: e.client, to: e.freelancer, amount: m.amount }]
        }),
{
}

/// A dispute records who raised it, the reason and the proposed split, open;
/// it marks the escrow disputed and moves nothing.  Exactly the client and the
/// freelancer of a set-up escrow may raise one.
pub proof fn law_raise_dispute_records_the_caller(
    s: EscrowVaultView,
    caller: Seq<char>,
    reason: Seq<char>,
    proposed_split: i128,
)
    ensures
        raise_dispute_outcome(s, caller, reason, proposed_split) is Ok <==> (s.escrow is Some && (caller
            == s.escrow->0.client || caller == s.escrow->0.freelancer)),
        raise_dispute_outcome(s, caller, reason, proposed_split) matches Ok((s2, ts)) ==> {
            &&& s2.arbitration == Some(ArbitrationView { raised_by: caller, reason, proposed_split, resolved: false })
            &&& s2.escrow is Some
            &&& s2.escrow->0.disputed
            &&& s2.escrow->0.released == s.escrow->0.released
            &&& s2.milestones == s.milestones
            &&& ts.len() == 0
        },
{
}

/// A deadline release moves funds or changes storage only for an existing,
/// completed, unapproved milestone whose deadline lies strictly before `now`,
/// at the arbitrator's request, and then pays exactly its amount to the
/// freelancer; at or before the deadline it changes nothing and moves
/// nothing, whoever asks.
pub proof fn law_deadline_release_waits_for_the_deadline(s: EscrowVaultView, caller: Seq<char>, index: u32, now: u64)
    ensures
        release_deadline_locked_outcome(s, caller, index, now) matches Ok((s2, ts)) ==> (s2 != s || ts.len() > 0)
            ==> {
            let m = milestone_list(s)[index as int];
            let e = s.escrow->0;
            &&& index < milestone_list(s).len()
            &&& now > m.deadline
            &&& m.completed && !m.approved
            &&& caller == e.arbitrator
            &&& ts == seq![TransferView { token: e.token, from: e.client, to: e.freelancer, amount: m.amount }]
            &&& milestone_list(s2)[index as int].approved
        },
        (s.escrow is Some && s.milestones is Some && index < milestone_list(s).len() && now
            <= milestone_list(s)[index as int].deadline) ==> release_deadline_locked_outcome(s, caller, index, now)
            == Ok::<(EscrowVaultView, Seq<TransferView>), EscrowError>((s, Seq::<TransferView>::empty())),
{
}

/// Completing a milestone marks exactly that milestone completed and nothing
/// else; for the freelancer of a set-up escrow, an existing milestone not yet
/// completed is always accepted.
pub proof fn law_complete_marks_the_milestone(s: EscrowVaultView, caller: Seq<char>, index: u32)
    ensures
        complete_milestone_outcome(s, caller, index) matches Ok((s2, ts)) ==> {
            &&& ts.len() == 0
            &&& s2.escrow == s.escrow
            &&& s2.arbitration == s.arbitration
            &&& milestone_list(s2).len() == milestone_list(s).len()
            &&& index < milestone_list(s).len() ==> milestone_list(s2)[index as int].completed
            &&& forall|k: int|
                0 <= k < milestone_list(s).len() && k != index ==> #[trigger] milestone_list(s2)[k]
                    == milestone_list(s)[k]
        },
        (s.escrow is Some && caller == s.escrow->0.freelancer && s.milestones is Some && index < milestone_list(
            s,
        ).len() && !milestone_list(s)[index as int].completed) ==> complete_milestone_outcome(s, caller, index) is Ok,
{
}

} // verus!
