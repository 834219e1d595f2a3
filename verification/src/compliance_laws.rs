//! What holds of the compliance guard across every request.
use vstd::prelude::*;
use crate::address::{distinct_count, law_distinct_count_is_set_size};
use crate::compliance_guard::{
    AccountView, ComplianceError, account_of, approve_recovery_outcome, clawback_outcome,
    freeze_account_outcome, frozen_flag, register_account_entries, request_key_recovery_outcome,
    set_auth_required_outcome, supporters, unfreeze_account_outcome,
};

verus! {

/// A request to the compliance guard, as its operations take it.
pub enum ComplianceRequest {
    RegisterAccount {
        business: Seq<char>,
        token: Seq<char>,
        authorized_signers: Seq<Seq<char>>,
        min_approvals: u32,
    },
    FreezeAccount { caller: Seq<char>, business: Seq<char> },
    UnfreezeAccount { caller: Seq<char>, business: Seq<char> },
    Clawback { caller: Seq<char>, business: Seq<char>, from: Seq<char>, amount: i128 },
    RequestKeyRecovery { caller: Seq<char>, business: Seq<char>, new_key: Seq<char>, now: u64 },
    ApproveRecovery { caller: Seq<char>, business: Seq<char> },
    SetAuthRequired { caller: Seq<char>, business: Seq<char>, required: bool },
}

/// The business a request is about.
pub open spec fn request_business(r: ComplianceRequest) -> Seq<char> {
    match r {
        ComplianceRequest::RegisterAccount { business, .. } => business,
        ComplianceRequest::FreezeAccount { business, .. } => business,
        ComplianceRequest::UnfreezeAccount { business, .. } => business,
        ComplianceRequest::Clawback { business, .. } => business,
        ComplianceRequest::RequestKeyRecovery { business, .. } => business,
        ComplianceRequest::ApproveRecovery { business, .. } => business,
        ComplianceRequest::SetAuthRequired { business, .. } => business,
    }
}

/// The storage after request `r` on storage `m`, or the reason `r` is refused.
pub open spec fn compliance_outcome(m: Map<Seq<char>, AccountView>, r: ComplianceRequest) -> Result<
    Map<Seq<char>, AccountView>,
    ComplianceError,
> {
    let b = request_business(r);
    let a = account_of(m, b);
    let entries = match r {
        ComplianceRequest::RegisterAccount { business, token, authorized_signers, min_approvals } => Ok(
            register_account_entries(a, business, token, authorized_signers, min_approvals),
        ),
        ComplianceRequest::FreezeAccount { caller, .. } => freeze_account_outcome(a, caller),
        ComplianceRequest::UnfreezeAccount { caller, .. } => unfreeze_account_outcome(a, caller),
        ComplianceRequest::Clawback { caller, from, amount, .. } => match clawback_outcome(a, caller, from, amount) {
            Ok(_) => Ok(a),
            Err(e) => Err(e),
        },
        ComplianceRequest::RequestKeyRecovery { caller, new_key, now, .. } => request_key_recovery_outcome(
            a,
            caller,
            new_key,
            now,
        ),
        ComplianceRequest::ApproveRecovery { caller, .. } => approve_recovery_outcome(a, caller),
        ComplianceRequest::SetAuthRequired { caller, required, .. } => set_auth_required_outcome(a, caller, required),
    };
    match entries {
        Ok(e) => if r is Clawback {
            Ok(m)
        } else {
            Ok(m.insert(b, e))
        },
        Err(err) => Err(err),
    }
}

/// The signers registered for a business, none where it has no guard.
pub open spec fn signers_of(a: AccountView) -> Seq<Seq<char>> {
    match a.guard {
        Some(g) => g.authorized_signers,
        None => Seq::empty(),
    }
}

/// No signer appears twice among the approvals of the pending recovery.
pub open spec fn approvals_distinct(a: AccountView) -> bool {
    a.recovery matches Some(r) ==> r.approved_by.no_duplicates()
}

/// A request changes the entries of its own business only.
pub proof fn law_requests_touch_only_their_business(m: Map<Seq<char>, AccountView>, r: ComplianceRequest, other: Seq<char>)
    requires
        other != request_business(r),
    ensures
        compliance_outcome(m, r) matches Ok(m2) ==> m2.contains_key(other) == m.contains_key(other)
            && account_of(m2, other) == account_of(m, other),
{
}

/// Funds are clawed back only from a frozen account with clawback enabled, and
/// only at the request of one of its authorized signers.
pub proof fn law_clawback_needs_frozen_account(a: AccountView, caller: Seq<char>, from: Seq<char>, amount: i128)
    ensures
        clawback_outcome(a, caller, from, amount) is Ok ==> {
            &&& frozen_flag(a)
            &&& a.guard is Some
            &&& a.guard->0.clawback_enabled
            &&& a.guard->0.authorized_signers.contains(caller)
            &&& clawback_outcome(a, caller, from, amount)->Ok_0.token == a.guard->0.token
        },
{
}

/// Freezing leaves the account frozen, unfreezing and registering leave it
/// not frozen, and registering switches both controls on.
pub proof fn law_freeze_state(m: Map<Seq<char>, AccountView>, r: ComplianceRequest)
    ensures
        compliance_outcome(m, r) matches Ok(m2) ==> {
            let a2 = account_of(m2, request_business(r));
            &&& r is FreezeAccount ==> frozen_flag(a2)
            &&& r is UnfreezeAccount ==> !frozen_flag(a2)
            &&& r is RegisterAccount ==> !frozen_flag(a2) && (a2.guard matches Some(g) && g.clawback_enabled
                && g.auth_required)
        },
{
}

/// Who may do what: freezing needs a signer or the business, unfreezing and
/// switching the auth control need the business, and clawbacks and key
/// recovery need a signer.
pub proof fn law_request_authority(m: Map<Seq<char>, AccountView>, r: ComplianceRequest)
    ensures
        compliance_outcome(m, r) is Ok ==> {
            let a = account_of(m, request_business(r));
            match r {
                ComplianceRequest::FreezeAccount { caller, .. } => a.guard matches Some(g) && (
                g.authorized_signers.contains(caller) || caller == g.business),
                ComplianceRequest::UnfreezeAccount { caller, .. } => a.guard matches Some(g) && caller == g.business,
                ComplianceRequest::SetAuthRequired { caller, .. } => a.guard matches Some(g) && caller == g.business,
                ComplianceRequest::Clawback { caller, .. } => signers_of(a).contains(caller),
                ComplianceRequest::RequestKeyRecovery { caller, .. } => signers_of(a).contains(caller),
                ComplianceRequest::ApproveRecovery { caller, .. } => signers_of(a).contains(caller),
                ComplianceRequest::RegisterAccount { .. } => true,
            }
        },
{
}

/// The signer set of a business changes only when it is registered again or
/// when an approval carries out its key recovery, which leaves the new key as
/// the only signer.
pub proof fn law_signers_change_only_by_recovery(m: Map<Seq<char>, AccountView>, r: ComplianceRequest)
    ensures
        compliance_outcome(m, r) matches Ok(m2) ==> {
            let b = request_business(r);
            let a = account_of(m, b);
            let a2 = account_of(m2, b);
            signers_of(a2) != signers_of(a) ==> r is RegisterAccount || (r is ApproveRecovery
                && (a2.recovery matches Some(q) && q.executed && signers_of(a2) == seq![q.new_key]))
        },
{
}

/// A recovery request starts with no approvals, is not carried out, and
/// leaves the signers and every other entry of the business as they were.
pub proof fn law_request_stores_fresh_request(a: AccountView, caller: Seq<char>, new_key: Seq<char>, now: u64)
    ensures
        request_key_recovery_outcome(a, caller, new_key, now) matches Ok(a2) ==> {
            let q2 = a2.recovery->0;
            &&& a2.recovery is Some
            &&& q2.requested_by == caller
            &&& q2.new_key == new_key
            &&& q2.approved_by == Seq::<Seq<char>>::empty()
            &&& !q2.executed
            &&& q2.created_at == now
            &&& a2.guard == a.guard
            &&& a2.frozen == a.frozen
        },
{
}

/// An approval adds its signer to the approvals; the recovery is carried out
/// exactly when the different signers backing it (requester and approvals)
/// reach the required number, and then the new key is the only signer.
pub proof fn law_recovery_threshold(a: AccountView, caller: Seq<char>)
    ensures
        approve_recovery_outcome(a, caller) matches Ok(a2) ==> {
            let g = a.guard->0;
            let q = a.recovery->0;
            let q2 = a2.recovery->0;
            &&& a2.recovery is Some
            &&& q2.approved_by == q.approved_by.push(caller)
            &&& q2.requested_by == q.requested_by
            &&& q2.new_key == q.new_key
            &&& q2.executed == (distinct_count(supporters(q2)) >= g.min_approvals)
            &&& q2.executed ==> signers_of(a2) == seq![q.new_key]
            &&& !q2.executed ==> signers_of(a2) == signers_of(a)
        },
{
}

/// A recovery that has been carried out cannot be approved again.
pub proof fn law_executed_recovery_is_final(a: AccountView, caller: Seq<char>)
    requires
        a.recovery matches Some(q) && q.executed,
    ensures
        approve_recovery_outcome(a, caller) is Err,
{
}

/// No signer approves a recovery twice: every request keeps the approvals of
/// every business free of repeats.
pub proof fn law_approvals_stay_distinct(m: Map<Seq<char>, AccountView>, r: ComplianceRequest, b: Seq<char>)
    requires
        approvals_distinct(account_of(m, b)),
    ensures
        compliance_outcome(m, r) matches Ok(m2) ==> approvals_distinct(account_of(m2, b)),
{
    if let Ok(m2) = compliance_outcome(m, r) {
        if b == request_business(r) {
            let a = account_of(m, b);
            match r {
                ComplianceRequest::RequestKeyRecovery { .. } => {
                    assert(Seq::<Seq<char>>::empty().no_duplicates());
                },
                ComplianceRequest::ApproveRecovery { caller, .. } => {
                    let q = a.recovery->0;
                    let s = q.approved_by.push(caller);
                    assert forall|i: int, j: int| 0 <= i < s.len() && 0 <= j < s.len() && i != j implies s[i] != s[j] by {
                        if i < q.approved_by.len() && j < q.approved_by.len() {
                        } else if i == q.approved_by.len() {
                            assert(s[j] == q.approved_by[j]);
                        } else {
                            assert(s[i] == q.approved_by[i]);
                        }
                    }
                },
                _ => {},
            }
        }
    }
}

/// The storage after the requests `rs`, in turn, starting from `m`; a refused
/// request changes nothing.
pub open spec fn compliance_run(m: Map<Seq<char>, AccountView>, rs: Seq<ComplianceRequest>) -> Map<
    Seq<char>,
    AccountView,
>
    decreases rs.len(),
{
    if rs.len() == 0 {
        m
    } else {
        let m1 = compliance_run(m, rs.drop_last());
        match compliance_outcome(m1, rs.last()) {
            Ok(m2) => m2,
            Err(_) => m1,
        }
    }
}

/// `r` asks on behalf of `business` for its signers to become `new_key`.
pub open spec fn requests_key(r: ComplianceRequest, business: Seq<char>, new_key: Seq<char>) -> bool {
    r matches ComplianceRequest::RequestKeyRecovery { business: b, new_key: k, .. } && b == business && k
        == new_key
}

/// `r` registers `business`.
pub open spec fn registers(r: ComplianceRequest, business: Seq<char>) -> bool {
    r is RegisterAccount && request_business(r) == business
}

/// `r` is a recovery request or an approval for `business` made by `who`.
pub open spec fn recovery_call_by(r: ComplianceRequest, business: Seq<char>, who: Seq<char>) -> bool {
    match r {
        ComplianceRequest::RequestKeyRecovery { caller, business: b, .. } => caller == who && b == business,
        ComplianceRequest::ApproveRecovery { caller, business: b } => caller == who && b == business,
        _ => false,
    }
}

/// `k` is the new key of the recovery pending for `business` in `m`, or of a
/// recovery request for `business` among `rs`.
pub open spec fn key_origin(
    m: Map<Seq<char>, AccountView>,
    rs: Seq<ComplianceRequest>,
    business: Seq<char>,
    k: Seq<char>,
) -> bool {
    ||| (account_of(m, business).recovery matches Some(q) && q.new_key == k)
    ||| exists|j: int| 0 <= j < rs.len() && #[trigger] requests_key(rs[j], business, k)
}

/// Request `j` of `rs`, run from `m`, is a successful recovery request or
/// approval for `business` by `who`, made while `who` was one of its signers.
pub open spec fn signed_at(
    m: Map<Seq<char>, AccountView>,
    rs: Seq<ComplianceRequest>,
    j: int,
    business: Seq<char>,
    who: Seq<char>,
) -> bool {
    let before = compliance_run(m, rs.take(j));
    &&& 0 <= j < rs.len()
    &&& recovery_call_by(rs[j], business, who)
    &&& compliance_outcome(before, rs[j]) is Ok
    &&& signers_of(account_of(before, business)).contains(who)
}

proof fn lemma_key_origin_extends(
    m: Map<Seq<char>, AccountView>,
    rs: Seq<ComplianceRequest>,
    business: Seq<char>,
    k: Seq<char>,
)
    requires
        rs.len() > 0,
        key_origin(m, rs.drop_last(), business, k),
    ensures
        key_origin(m, rs, business, k),
{
    if !(account_of(m, business).recovery matches Some(q) && q.new_key == k) {
        let j = choose|j: int| 0 <= j < rs.drop_last().len() && #[trigger] requests_key(rs.drop_last()[j], business, k);
        assert(rs[j] == rs.drop_last()[j]);
        assert(requests_key(rs[j], business, k));
    }
}

/// Once a business is registered, as long as it is not registered again, its
/// guard keeps its business, token, approval threshold and clawback control
/// whatever requests follow, and its signers are either those it started
/// with or exactly one new key: one asked for by a recovery request among
/// the requests, or by the recovery pending at the start.  Every pending
/// recovery's key has the same origin.
pub proof fn law_registration_persists(
    m: Map<Seq<char>, AccountView>,
    rs: Seq<ComplianceRequest>,
    business: Seq<char>,
)
    requires
        account_of(m, business).guard is Some,
        forall|j: int| 0 <= j < rs.len() ==> !registers(#[trigger] rs[j], business),
    ensures
        ({
            let g0 = account_of(m, business).guard->0;
            let a = account_of(compliance_run(m, rs), business);
            &&& a.guard is Some
            &&& a.guard->0.business == g0.business
            &&& a.guard->0.token == g0.token
            &&& a.guard->0.min_approvals == g0.min_approvals
            &&& a.guard->0.clawback_enabled == g0.clawback_enabled
            &&& a.guard->0.authorized_signers == g0.authorized_signers || (a.guard->0.authorized_signers.len() == 1
                && key_origin(m, rs, business, a.guard->0.authorized_signers[0]))
            &&& a.recovery matches Some(q) ==> key_origin(m, rs, business, q.new_key)
        }),
    decreases rs.len(),
{
    if rs.len() > 0 {
        let prefix = rs.drop_last();
        assert forall|j: int| 0 <= j < prefix.len() implies !registers(#[trigger] prefix[j], business) by {
            assert(prefix[j] == rs[j]);
        }
        law_registration_persists(m, prefix, business);
        let m1 = compliance_run(m, prefix);
        let r = rs.last();
        assert(!registers(rs[rs.len() - 1], business));
        let a1 = account_of(m1, business);
        if a1.guard->0.authorized_signers != account_of(m, business).guard->0.authorized_signers {
            lemma_key_origin_extends(m, rs, business, a1.guard->0.authorized_signers[0]);
        }
        if let Some(q) = a1.recovery {
            lemma_key_origin_extends(m, rs, business, q.new_key);
        }
        if request_business(r) == business && r is RequestKeyRecovery {
            if let ComplianceRequest::RequestKeyRecovery { new_key, .. } = r {
                assert(requests_key(rs[rs.len() - 1], business, new_key));
            }
        }
    }
}

/// Every signer backing a pending recovery (its requester or an approval)
/// was already backing the recovery pending at the start, or made a
/// successful recovery request or approval for that business while it was one
/// of the business's signers.
pub proof fn law_supporters_come_from_signers(
    m: Map<Seq<char>, AccountView>,
    rs: Seq<ComplianceRequest>,
    business: Seq<char>,
    who: Seq<char>,
)
    requires
        supporters_of(account_of(compliance_run(m, rs), business)).contains(who),
    ensures
        supporters_of(account_of(m, business)).contains(who) || exists|j: int| #[trigger]
            signed_at(m, rs, j, business, who),
    decreases rs.len(),
{
    if rs.len() > 0 {
        let prefix = rs.drop_last();
        let m1 = compliance_run(m, prefix);
        let r = rs.last();
        let last = rs.len() - 1;
        assert(prefix =~= rs.take(last));
        if supporters_of(account_of(m1, business)).contains(who) {
            law_supporters_come_from_signers(m, prefix, business, who);
            if !supporters_of(account_of(m, business)).contains(who) {
                let j = choose|j: int| #[trigger] signed_at(m, prefix, j, business, who);
                lemma_signed_at_in_prefix(m, rs, last, j, business, who);
            }
        } else {
            // Only a recovery call by `who` for the business adds it.
            let a1 = account_of(m1, business);
            law_request_authority(m1, r);
            match r {
                ComplianceRequest::RequestKeyRecovery { caller, business: b, new_key, now } => {
                    if b == business {
                        let q = request_key_recovery_outcome(a1, caller, new_key, now)->Ok_0.recovery->0;
                        assert(supporters(q) =~= seq![caller]);
                    }
                },
                ComplianceRequest::ApproveRecovery { caller, business: b } => {
                    if b == business {
                        let q = a1.recovery->0;
                        let q2 = approve_recovery_outcome(a1, caller)->Ok_0.recovery->0;
                        assert(supporters(q2) =~= supporters(q).push(caller));
                    }
                },
                _ => {},
            }
            assert(signed_at(m, rs, last, business, who));
        }
    }
}

/// The signers backing the recovery pending in `a`.
pub open spec fn supporters_of(a: AccountView) -> Seq<Seq<char>> {
    match a.recovery {
        Some(q) => supporters(q),
        None => Seq::empty(),
    }
}

proof fn lemma_signed_at_in_prefix(
    m: Map<Seq<char>, AccountView>,
    rs: Seq<ComplianceRequest>,
    n: int,
    j: int,
    business: Seq<char>,
    who: Seq<char>,
)
    requires
        0 <= n <= rs.len(),
        signed_at(m, rs.take(n), j, business, who),
    ensures
        signed_at(m, rs, j, business, who),
{
    assert(rs.take(n).take(j) =~= rs.take(j));
    assert(rs.take(n)[j] == rs[j]);
}

/// A key recovery is multi-signature: when an approval replaces the signers of
/// a business, it carries out the recovery pending before it, leaving its new
/// key as the only signer, and the different signers backing that recovery
/// (its requester and its approvals) number at least the required approvals;
/// each of them backed the recovery pending at the start, or made its request
/// or approval, successfully, while it was one of the business's signers.
pub proof fn law_executed_recovery_is_multisig(
    m: Map<Seq<char>, AccountView>,
    rs: Seq<ComplianceRequest>,
    j: int,
    business: Seq<char>,
)
    requires
        0 <= j < rs.len(),
        rs[j] is ApproveRecovery,
        request_business(rs[j]) == business,
        signers_of(account_of(compliance_run(m, rs.take(j + 1)), business)) != signers_of(
            account_of(compliance_run(m, rs.take(j)), business),
        ),
    ensures
        ({
            let before = account_of(compliance_run(m, rs.take(j)), business);
            let after = account_of(compliance_run(m, rs.take(j + 1)), business);
            let q = before.recovery->0;
            let q2 = after.recovery->0;
            &&& compliance_outcome(compliance_run(m, rs.take(j)), rs[j]) is Ok
            &&& before.recovery is Some && !q.executed
            &&& after.recovery is Some && q2.executed
            &&& q2.new_key == q.new_key
            &&& q2.requested_by == q.requested_by
            &&& signers_of(after) == seq![q.new_key]
            &&& distinct_count(supporters(q2)) >= before.guard->0.min_approvals
            &&& forall|x: Seq<char>|
                #[trigger] supporters(q2).contains(x) ==> supporters_of(account_of(m, business)).contains(x)
                    || exists|k: int| 0 <= k <= j && #[trigger] signed_at(m, rs, k, business, x)
        }),
{
    let upto = rs.take(j + 1);
    assert(upto.drop_last() =~= rs.take(j));
    assert(upto.last() == rs[j]);
    let m0 = compliance_run(m, rs.take(j));
    let r = rs[j];
    law_signers_change_only_by_recovery(m0, r);
    let after = account_of(compliance_run(m, upto), business);
    assert forall|x: Seq<char>| #[trigger] supporters(after.recovery->0).contains(x) implies supporters_of(
        account_of(m, business),
    ).contains(x) || exists|k: int| 0 <= k <= j && #[trigger] signed_at(m, rs, k, business, x) by {
        law_supporters_come_from_signers(m, upto, business, x);
        if !supporters_of(account_of(m, business)).contains(x) {
            let k = choose|k: int| #[trigger] signed_at(m, upto, k, business, x);
            lemma_signed_at_in_prefix(m, rs, j + 1, k, business, x);
        }
    }
}

/// No signer approves a recovery twice over any sequence of requests.
pub proof fn law_approvals_stay_distinct_over_runs(
    m: Map<Seq<char>, AccountView>,
    rs: Seq<ComplianceRequest>,
    business: Seq<char>,
)
    requires
        approvals_distinct(account_of(m, business)),
    ensures
        approvals_distinct(account_of(compliance_run(m, rs), business)),
    decreases rs.len(),
{
    if rs.len() > 0 {
        law_approvals_stay_distinct_over_runs(m, rs.drop_last(), business);
        law_approvals_stay_distinct(compliance_run(m, rs.drop_last()), rs.last(), business);
    }
}

/// An approval carries a recovery out exactly when the set of different
/// signers backing it (its requester, the earlier approvals and the approving
/// signer) has at least `min_approvals` members: then the new key is the only
/// signer; below that the signers stay as they were.
pub proof fn law_recovery_needs_enough_different_signers(a: AccountView, caller: Seq<char>)
    ensures
        approve_recovery_outcome(a, caller) matches Ok(a2) ==> {
            let q = a.recovery->0;
            let backers = q.approved_by.to_set().insert(caller).insert(q.requested_by);
            let min = a.guard->0.min_approvals;
            &&& a2.recovery->0.executed == (backers.len() >= min)
            &&& backers.len() >= min ==> signers_of(a2) == seq![q.new_key]
            &&& backers.len() < min ==> signers_of(a2) == signers_of(a)
        },
{
    if let Ok(a2) = approve_recovery_outcome(a, caller) {
        let q = a.recovery->0;
        let q2 = a2.recovery->0;
        let backers = q.approved_by.to_set().insert(caller).insert(q.requested_by);
        law_distinct_count_is_set_size(supporters(q2));
        assert(supporters(q2).to_set() =~= backers) by {
            let sq = supporters(q2);
            assert(sq =~= seq![q.requested_by] + q.approved_by.push(caller));
            assert forall|x: Seq<char>| sq.to_set().contains(x) <==> backers.contains(x) by {
                if sq.contains(x) {
                    let k = choose|k: int| 0 <= k < sq.len() && sq[k] == x;
                    if 1 <= k < sq.len() - 1 {
                        assert(q.approved_by[k - 1] == x);
                    }
                }
                if q.approved_by.contains(x) {
                    let k = choose|k: int| 0 <= k < q.approved_by.len() && q.approved_by[k] == x;
                    assert(sq[k + 1] == x);
                }
                if x == caller {
                    assert(sq[sq.len() - 1] == x);
                }
                if x == q.requested_by {
                    assert(sq[0] == x);
                }
            }
        }
    }
}

/// Switching the auth control sets it to exactly the requested value and
/// changes nothing else; it succeeds exactly for the registered business
/// itself.
pub proof fn law_set_auth_required_sets_the_flag(a: AccountView, caller: Seq<char>, required: bool)
    ensures
        set_auth_required_outcome(a, caller, required) is Ok <==> (a.guard is Some && caller == a.guard->0.business),
        set_auth_required_outcome(a, caller, required) matches Ok(a2) ==> {
            let g = a.guard->0;
            let g2 = a2.guard->0;
            &&& a2.guard is Some
            &&& g2.auth_required == required
            &&& g2.business == g.business
            &&& g2.token == g.token
            &&& g2.authorized_signers == g.authorized_signers
            &&& g2.min_approvals == g.min_approvals
            &&& g2.clawback_enabled == g.clawback_enabled
            &&& a2.frozen == a.frozen
            &&& a2.recovery == a.recovery
        },
{
}

/// Switching the auth control off and then on again leaves it on: the later
/// call decides.
pub proof fn law_auth_control_last_call_decides(a: AccountView, caller: Seq<char>, first: bool, second: bool)
    requires
        set_auth_required_outcome(a, caller, first) is Ok,
    ensures
        ({
            let a1 = set_auth_required_outcome(a, caller, first)->Ok_0;
            &&& set_auth_required_outcome(a1, caller, second) is Ok
            &&& set_auth_required_outcome(a1, caller, second)->Ok_0.guard->0.auth_required == second
        }),
{
}

} // verus!
