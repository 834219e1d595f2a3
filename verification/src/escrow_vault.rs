//! Milestone-based escrow: a client funds milestones, the freelancer marks them
//! complete, the client approves them (releasing the milestone's amount to the
//! freelancer), either party may raise a dispute that the arbitrator settles,
//! and the arbitrator may release a completed milestone whose deadline passed.
use vstd::prelude::*;
use crate::address::{Address, same_address};

verus! {

/// One unit of work and the amount it releases once approved.
#[derive(Debug, PartialEq, Eq)]
pub struct Milestone {
    pub description: String,
    pub amount: i128,
    pub deadline: u64,
    pub completed: bool,
    pub approved: bool,
}

/// The parties of the escrow and its running totals.
#[derive(Debug, PartialEq, Eq)]
pub struct Escrow {
    pub client: Address,
    pub freelancer: Address,
    pub arbitrator: Address,
    pub token: Address,
    pub total_amount: i128,
    pub released: i128,
    pub disputed: bool,
    pub created_at: u64,
}

/// The dispute last raised by the client or the freelancer.
#[derive(Debug, PartialEq, Eq)]
pub struct Arbitration {
    pub raised_by: Address,
    pub reason: String,
    pub proposed_split: i128,
    pub resolved: bool,
}

/// A movement of `amount` units of `token` from `from` to `to` that the host
/// carries out on behalf of the contract.
#[derive(Debug, PartialEq, Eq)]
pub struct Transfer {
    pub token: Address,
    pub from: Address,
    pub to: Address,
    pub amount: i128,
}

/// Why a request to the escrow vault was refused.
#[derive(Clone, Copy, Debug, PartialEq, Eq, Structural)]
pub enum EscrowError {
    /// The escrow was already set up.
    AlreadyInitialized,
    /// No escrow has been set up yet.
    NotInitialized,
    /// Only the client can add milestones.
    OnlyClientCanAddMilestones,
    /// Only the freelancer can mark a milestone complete.
    OnlyFreelancerCanComplete,
    /// Only the client can approve a milestone.
    OnlyClientCanApprove,
    /// No milestone has been added yet.
    NoMilestones,
    /// The milestone was already marked complete.
    MilestoneAlreadyCompleted,
    /// The milestone has not been marked complete.
    MilestoneNotCompleted,
    /// The milestone was already approved.
    MilestoneAlreadyApproved,
    /// Only the client or the freelancer can raise a dispute.
    OnlyPartiesCanDispute,
    /// Only the arbitrator can resolve a dispute.
    OnlyArbitratorCanResolve,
    /// No dispute has been raised.
    NoDispute,
    /// The dispute was already resolved.
    DisputeAlreadyResolved,
    /// Only the arbitrator can release deadline-locked funds.
    OnlyArbitratorCanRelease,
    /// The released total would leave the range of `i128`.
    AmountOverflow,
}

/// The contract's storage: the escrow record, the milestone list and the
/// current dispute, each absent until first written.
pub struct EscrowVault {
    pub escrow: Option<Escrow>,
    pub milestones: Option<Vec<Milestone>>,
    pub arbitration: Option<Arbitration>,
}

pub struct MilestoneView {
    pub description: Seq<char>,
    pub amount: i128,
    pub deadline: u64,
    pub completed: bool,
    pub approved: bool,
}

pub struct EscrowView {
    pub client: Seq<char>,
    pub freelancer: Seq<char>,
    pub arbitrator: Seq<char>,
    pub token: Seq<char>,
    pub total_amount: i128,
    pub released: i128,
    pub disputed: bool,
    pub created_at: u64,
}

pub struct ArbitrationView {
    pub raised_by: Seq<char>,
    pub reason: Seq<char>,
    pub proposed_split: i128,
    pub resolved: bool,
}

pub struct TransferView {
    pub token: Seq<char>,
    pub from: Seq<char>,
    pub to: Seq<char>,
    pub amount: i128,
}

pub struct EscrowVaultView {
    pub escrow: Option<EscrowView>,
    pub milestones: Option<Seq<MilestoneView>>,
    pub arbitration: Option<ArbitrationView>,
}

impl View for Milestone {
    type V = MilestoneView;

    open spec fn view(&self) -> MilestoneView {
        MilestoneView {
            description: self.description@,
            amount: self.amount,
            deadline: self.deadline,
            completed: self.completed,
            approved: self.approved,
        }
    }
}

impl View for Escrow {
    type V = EscrowView;

    open spec fn view(&self) -> EscrowView {
        EscrowView {
            client: self.client@,
            freelancer: self.freelancer@,
            arbitrator: self.arbitrator@,
            token: self.token@,
            total_amount: self.total_amount,
            released: self.released,
            disputed: self.disputed,
            created_at: self.created_at,
        }
    }
}

impl View for Arbitration {
    type V = ArbitrationView;

    open spec fn view(&self) -> ArbitrationView {
        ArbitrationView {
            raised_by: self.raised_by@,
            reason: self.reason@,
            proposed_split: self.proposed_split,
            resolved: self.resolved,
        }
    }
}

impl View for Transfer {
    type V = TransferView;

    open spec fn view(&self) -> TransferView {
        TransferView { token: self.token@, from: self.from@, to: self.to@, amount: self.amount }
    }
}

pub open spec fn milestones_view(ms: Seq<Milestone>) -> Seq<MilestoneView> {
    ms.map_values(|m: Milestone| m@)
}

pub open spec fn transfers_view(ts: Seq<Transfer>) -> Seq<TransferView> {
    ts.map_values(|t: Transfer| t@)
}

impl View for EscrowVault {
    type V = EscrowVaultView;

    open spec fn view(&self) -> EscrowVaultView {
        EscrowVaultView {
            escrow: match self.escrow {
                Some(e) => Some(e@),
                None => None,
            },
            milestones: match self.milestones {
                Some(ms) => Some(milestones_view(ms@)),
                None => None,
            },
            arbitration: match self.arbitration {
                Some(a) => Some(a@),
                None => None,
            },
        }
    }
}

impl Clone for Milestone {
    fn clone(&self) -> (res: Self)
        ensures
            res@ == self@,
    {
        Milestone {
            description: self.description.clone(),
            amount: self.amount,
            deadline: self.deadline,
            completed: self.completed,
            approved: self.approved,
        }
    }
}

impl Clone for Escrow {
    fn clone(&self) -> (res: Self)
        ensures
            res@ == self@,
    {
        Escrow {
            client: self.client.clone(),
            freelancer: self.freelancer.clone(),
            arbitrator: self.arbitrator.clone(),
            token: self.token.clone(),
            total_amount: self.total_amount,
            released: self.released,
            disputed: self.disputed,
            created_at: self.created_at,
        }
    }
}

impl Clone for Arbitration {
    fn clone(&self) -> (res: Self)
        ensures
            res@ == self@,
    {
        Arbitration {
            raised_by: self.raised_by.clone(),
            reason: self.reason.clone(),
            proposed_split: self.proposed_split,
            resolved: self.resolved,
        }
    }
}

/// What a request does: the next storage and the transfers to carry out, or
/// the reason it is refused.
pub type EscrowOutcome = Result<(EscrowVaultView, Seq<TransferView>), EscrowError>;

/// Whether `v` lies in the range of `i128`.
pub open spec fn fits_i128(v: int) -> bool {
    i128::MIN <= v <= i128::MAX
}

/// `initialize`: record the parties; allowed once.
pub open spec fn initialize_outcome(
    s: EscrowVaultView,
    client: Seq<char>,
    freelancer: Seq<char>,
    arbitrator: Seq<char>,
    token: Seq<char>,
    total_amount: i128,
    now: u64,
) -> EscrowOutcome {
    if s.escrow is Some {
        Err(EscrowError::AlreadyInitialized)
    } else {
        let e = EscrowView {
            client,
            freelancer,
            arbitrator,
            token,
            total_amount,
            released: 0,
            disputed: false,
            created_at: now,
        };
        Ok((EscrowVaultView { escrow: Some(e), ..s }, seq![]))
    }
}

/// `add_milestone`: the client appends a new, open milestone.
pub open spec fn add_milestone_outcome(
    s: EscrowVaultView,
    caller: Seq<char>,
    description: Seq<char>,
    amount: i128,
    deadline: u64,
) -> EscrowOutcome {
    match s.escrow {
        None => Err(EscrowError::NotInitialized),
        Some(e) => if caller != e.client {
            Err(EscrowError::OnlyClientCanAddMilestones)
        } else {
            let m = MilestoneView { description, amount, deadline, completed: false, approved: false };
            let ms = match s.milestones {
                Some(ms) => ms,
                None => Seq::empty(),
            };
            Ok((EscrowVaultView { milestones: Some(ms.push(m)), ..s }, seq![]))
        },
    }
}

/// `complete_milestone`: the freelancer marks milestone `index` complete; an
/// index past the end changes nothing.
pub open spec fn complete_milestone_outcome(s: EscrowVaultView, caller: Seq<char>, index: u32) -> EscrowOutcome {
    match s.escrow {
        None => Err(EscrowError::NotInitialized),
        Some(e) => if caller != e.freelancer {
            Err(EscrowError::OnlyFreelancerCanComplete)
        } else {
            match s.milestones {
                None => Err(EscrowError::NoMilestones),
                Some(ms) => if index >= ms.len() {
                    Ok((s, seq![]))
                } else if ms[index as int].completed {
                    Err(EscrowError::MilestoneAlreadyCompleted)
                } else {
                    let m = MilestoneView { completed: true, ..ms[index as int] };
                    Ok((EscrowVaultView { milestones: Some(ms.update(index as int, m)), ..s }, seq![]))
                },
            }
        },
    }
}

/// `approve_milestone`: the client approves a completed milestone, which pays
/// its amount from the client to the freelancer and adds it to `released`; an
/// index past the end changes nothing.
pub open spec fn approve_milestone_outcome(s: EscrowVaultView, caller: Seq<char>, index: u32) -> EscrowOutcome {
    match s.escrow {
        None => Err(EscrowError::NotInitialized),
        Some(e) => if caller != e.client {
            Err(EscrowError::OnlyClientCanApprove)
        } else {
            match s.milestones {
                None => Err(EscrowError::NoMilestones),
                Some(ms) => if index >= ms.len() {
                    Ok((s, seq![]))
                } else if !ms[index as int].completed {
                    Err(EscrowError::MilestoneNotCompleted)
                } else if ms[index as int].approved {
                    Err(EscrowError::MilestoneAlreadyApproved)
                } else if !fits_i128(e.released + ms[index as int].amount) {
                    Err(EscrowError::AmountOverflow)
                } else {
                    let amount = ms[index as int].amount;
                    let m = MilestoneView { approved: true, ..ms[index as int] };
                    let e2 = EscrowView { released: (e.released + amount) as i128, ..e };
                    let t = TransferView { token: e.token, from: e.client, to: e.freelancer, amount };
                    Ok((
                        EscrowVaultView { escrow: Some(e2), milestones: Some(ms.update(index as int, m)), ..s },
                        seq![t],
                    ))
                },
            }
        },
    }
}

/// `raise_dispute`: the client or the freelancer opens a dispute, replacing
/// any earlier one, and marks the escrow disputed.
pub open spec fn raise_dispute_outcome(
    s: EscrowVaultView,
    caller: Seq<char>,
    reason: Seq<char>,
    proposed_split: i128,
) -> EscrowOutcome {
    match s.escrow {
        None => Err(EscrowError::NotInitialized),
        Some(e) => if caller != e.freelancer && caller != e.client {
            Err(EscrowError::OnlyPartiesCanDispute)
        } else {
            let a = ArbitrationView { raised_by: caller, reason, proposed_split, resolved: false };
            let e2 = EscrowView { disputed: true, ..e };
            Ok((EscrowVaultView { escrow: Some(e2), arbitration: Some(a), ..s }, seq![]))
        },
    }
}

/// The transfers by which the arbitrator settles a dispute: a positive client
/// share goes from the client to the client, then a positive freelancer share
/// from the client to the freelancer.
pub open spec fn settlement_transfers(e: EscrowView, client_amount: i128, freelancer_amount: i128) -> Seq<TransferView> {
    let to_client = TransferView { token: e.token, from: e.client, to: e.client, amount: client_amount };
    let to_freelancer = TransferView { token: e.token, from: e.client, to: e.freelancer, amount: freelancer_amount };
    (if client_amount > 0 { seq![to_client] } else { seq![] }) + (if freelancer_amount > 0 {
        seq![to_freelancer]
    } else {
        seq![]
    })
}

/// `resolve_dispute`: the arbitrator settles the open dispute, clearing the
/// disputed flag and adding both shares to `released`.
pub open spec fn resolve_dispute_outcome(
    s: EscrowVaultView,
    caller: Seq<char>,
    client_amount: i128,
    freelancer_amount: i128,
) -> EscrowOutcome {
    match s.escrow {
        None => Err(EscrowError::NotInitialized),
        Some(e) => if caller != e.arbitrator {
            Err(EscrowError::OnlyArbitratorCanResolve)
        } else {
            match s.arbitration {
                None => Err(EscrowError::NoDispute),
                Some(a) => if a.resolved {
                    Err(EscrowError::DisputeAlreadyResolved)
                } else if !fits_i128(client_amount + freelancer_amount) || !fits_i128(
                    e.released + client_amount + freelancer_amount,
                ) {
                    Err(EscrowError::AmountOverflow)
                } else {
                    let a2 = ArbitrationView { resolved: true, ..a };
                    let e2 = EscrowView {
                        disputed: false,
                        released: (e.released + client_amount + freelancer_amount) as i128,
                        ..e
                    };
                    Ok((
                        EscrowVaultView { escrow: Some(e2), arbitration: Some(a2), ..s },
                        settlement_transfers(e, client_amount, freelancer_amount),
                    ))
                },
            }
        },
    }
}

/// Whether milestone `m` is completed, unapproved and past its deadline at `now`.
pub open spec fn deadline_locked(m: MilestoneView, now: u64) -> bool {
    m.completed && !m.approved && now > m.deadline
}

/// `release_deadline_locked`: once a completed, unapproved milestone is past its
/// deadline, the arbitrator pays it out as an approval would; otherwise (or
/// for an index past the end) nothing changes.
pub open spec fn release_deadline_locked_outcome(
    s: EscrowVaultView,
    caller: Seq<char>,
    index: u32,
    now: u64,
) -> EscrowOutcome {
    match s.escrow {
        None => Err(EscrowError::NotInitialized),
        Some(e) => match s.milestones {
            None => Err(EscrowError::NoMilestones),
            Some(ms) => if index >= ms.len() || !deadline_locked(ms[index as int], now) {
                Ok((s, seq![]))
            } else if caller != e.arbitrator {
                Err(EscrowError::OnlyArbitratorCanRelease)
            } else if !fits_i128(e.released + ms[index as int].amount) {
                Err(EscrowError::AmountOverflow)
            } else {
                let amount = ms[index as int].amount;
                let m = MilestoneView { approved: true, ..ms[index as int] };
                let e2 = EscrowView { released: (e.released + amount) as i128, ..e };
                let t = TransferView { token: e.token, from: e.client, to: e.freelancer, amount };
                Ok((
                    EscrowVaultView { escrow: Some(e2), milestones: Some(ms.update(index as int, m)), ..s },
                    seq![t],
                ))
            },
        },
    }
}

/// `res`, with the storage going from `before` to `after`, is what `expected`
/// describes for a request that moves no funds.
pub open spec fn settles(
    res: Result<(), EscrowError>,
    before: EscrowVaultView,
    after: EscrowVaultView,
    expected: EscrowOutcome,
) -> bool {
    match expected {
        Ok((s2, _)) => res is Ok && after == s2,
        Err(e) => res == Err::<(), EscrowError>(e) && after == before,
    }
}

/// `res`, with the storage going from `before` to `after`, is what `expected`
/// describes, the transfers included.
pub open spec fn settles_with_transfers(
    res: Result<Vec<Transfer>, EscrowError>,
    before: EscrowVaultView,
    after: EscrowVaultView,
    expected: EscrowOutcome,
) -> bool {
    match expected {
        Ok((s2, ts)) => res matches Ok(t) && after == s2 && transfers_view(t@) == ts,
        Err(e) => res matches Err(e2) && e2 == e && after == before,
    }
}

/// The empty list of transfers.
fn no_transfers() -> (res: Vec<Transfer>)
    ensures
        transfers_view(res@) == Seq::<TransferView>::empty(),
{
    let v: Vec<Transfer> = Vec::new();
    assert(transfers_view(v@) =~= Seq::<TransferView>::empty());
    v
}

impl EscrowVault {
    /// Empty storage: the contract before `initialize`.
    pub fn new() -> (res: Self)
        ensures
            res@.escrow is None,
            res@.milestones is None,
            res@.arbitration is None,
    {
        EscrowVault { escrow: None, milestones: None, arbitration: None }
    }

    /// Records the parties, the token and the total; `now` is the ledger time.
    pub fn initialize(
        &mut self,
        client: Address,
        freelancer: Address,
        arbitrator: Address,
        token: Address,
        total_amount: i128,
        now: u64,
    ) -> (res: Result<(), EscrowError>)
        ensures
            settles(
                res,
                old(self)@,
                final(self)@,
                initialize_outcome(old(self)@, client@, freelancer@, arbitrator@, token@, total_amount, now),
            ),
    {
        if self.escrow.is_some() {
            return Err(EscrowError::AlreadyInitialized);
        }
        self.escrow = Some(
            Escrow {
                client,
                freelancer,
                arbitrator,
                token,
                total_amount,
                released: 0,
                disputed: false,
                created_at: now,
            },
        );
        Ok(())
    }

    /// Appends an open milestone; only the client may.
    pub fn add_milestone(&mut self, caller: Address, description: String, amount: i128, deadline: u64) -> (res:
        Result<(), EscrowError>)
        ensures
            settles(
                res,
                old(self)@,
                final(self)@,
                add_milestone_outcome(old(self)@, caller@, description@, amount, deadline),
            ),
    {
        match &self.escrow {
            None => {
                return Err(EscrowError::NotInitialized);
            },
            Some(e) => {
                if !same_address(&caller, &e.client) {
                    return Err(EscrowError::OnlyClientCanAddMilestones);
                }
            },
        }
        let m = Milestone { description, amount, deadline, completed: false, approved: false };
        let ghost prior = old(self)@.milestones;
        let mut ms = match self.milestones.take() {
            Some(ms) => ms,
            None => Vec::new(),
        };
        let ghost before = milestones_view(ms@);
        assert(before == match prior {
            Some(p) => p,
            None => Seq::<MilestoneView>::empty(),
        });
        ms.push(m);
        assert(milestones_view(ms@) =~= before.push(m@));
        self.milestones = Some(ms);
        Ok(())
    }

    /// Marks milestone `index` complete; only the freelancer may.
    pub fn complete_milestone(&mut self, caller: Address, index: u32) -> (res: Result<(), EscrowError>)
        ensures
            settles(res, old(self)@, final(self)@, complete_milestone_outcome(old(self)@, caller@, index)),
    {
        match &self.escrow {
            None => {
                return Err(EscrowError::NotInitialized);
            },
            Some(e) => {
                if !same_address(&caller, &e.freelancer) {
                    return Err(EscrowError::OnlyFreelancerCanComplete);
                }
            },
        }
        let ghost prior = old(self)@;
        let mut ms = match self.milestones.take() {
            Some(ms) => ms,
            None => {
                return Err(EscrowError::NoMilestones);
            },
        };
        let ghost before = milestones_view(ms@);
        assert(prior.milestones == Some(before));
        let i = index as usize;
        if i >= ms.len() {
            self.milestones = Some(ms);
            return Ok(());
        }
        if ms[i].completed {
            self.milestones = Some(ms);
            return Err(EscrowError::MilestoneAlreadyCompleted);
        }
        ms[i].completed = true;
        assert(milestones_view(ms@) =~= before.update(i as int, MilestoneView { completed: true, ..before[i as int] }));
        self.milestones = Some(ms);
        Ok(())
    }

    /// Approves completed milestone `index`, paying its amount from the client
    /// to the freelancer; only the client may.
    pub fn approve_milestone(&mut self, caller: Address, index: u32) -> (res: Result<Vec<Transfer>, EscrowError>)
        ensures
            settles_with_transfers(res, old(self)@, final(self)@, approve_milestone_outcome(old(self)@, caller@, index)),
    {
        let ghost prior = old(self)@;
        let mut e = match self.escrow.take() {
            None => {
                return Err(EscrowError::NotInitialized);
            },
            Some(e) => e,
        };
        if !same_address(&caller, &e.client) {
            self.escrow = Some(e);
            return Err(EscrowError::OnlyClientCanApprove);
        }
        let mut ms = match self.milestones.take() {
            Some(ms) => ms,
            None => {
                self.escrow = Some(e);
                return Err(EscrowError::NoMilestones);
            },
        };
        let ghost before = milestones_view(ms@);
        assert(prior.milestones == Some(before));
        let i = index as usize;
        if i >= ms.len() {
            self.escrow = Some(e);
            self.milestones = Some(ms);
            return Ok(no_transfers());
        }
        if !ms[i].completed {
            self.escrow = Some(e);
            self.milestones = Some(ms);
            return Err(EscrowError::MilestoneNotCompleted);
        }
        if ms[i].approved {
            self.escrow = Some(e);
            self.milestones = Some(ms);
            return Err(EscrowError::MilestoneAlreadyApproved);
        }
        let amount = ms[i].amount;
        let released = match e.released.checked_add(amount) {
            Some(r) => r,
            None => {
                self.escrow = Some(e);
                self.milestones = Some(ms);
                return Err(EscrowError::AmountOverflow);
            },
        };
        ms[i].approved = true;
        assert(milestones_view(ms@) =~= before.update(i as int, MilestoneView { approved: true, ..before[i as int] }));
        let t = Transfer { token: e.token.clone(), from: e.client.clone(), to: e.freelancer.clone(), amount };
        e.released = released;
        self.escrow = Some(e);
        self.milestones = Some(ms);
        let mut transfers: Vec<Transfer> = Vec::new();
        transfers.push(t);
        assert(transfers_view(transfers@) =~= seq![t@]);
        Ok(transfers)
    }

    /// Opens a dispute, replacing any earlier one; only the client or the
    /// freelancer may.
    pub fn raise_dispute(&mut self, caller: Address, reason: String, proposed_split: i128) -> (res: Result<
        (),
        EscrowError,
    >)
        ensures
            settles(res, old(self)@, final(self)@, raise_dispute_outcome(old(self)@, caller@, reason@, proposed_split)),
    {
        let mut e = match self.escrow.take() {
            None => {
                return Err(EscrowError::NotInitialized);
            },
            Some(e) => e,
        };
        if !same_address(&caller, &e.freelancer) && !same_address(&caller, &e.client) {
            self.escrow = Some(e);
            return Err(EscrowError::OnlyPartiesCanDispute);
        }
        self.arbitration = Some(Arbitration { raised_by: caller, reason, proposed_split, resolved: false });
        e.disputed = true;
        self.escrow = Some(e);
        Ok(())
    }

    /// Settles the open dispute: pays a positive `client_amount` from the client
    /// to the client and a positive `freelancer_amount` from the client to the
    /// freelancer, and adds both to `released`; only the arbitrator may.
    pub fn resolve_dispute(&mut self, caller: Address, client_amount: i128, freelancer_amount: i128) -> (res:
        Result<Vec<Transfer>, EscrowError>)
        ensures
            settles_with_transfers(
                res,
                old(self)@,
                final(self)@,
                resolve_dispute_outcome(old(self)@, caller@, client_amount, freelancer_amount),
            ),
    {
        let mut e = match self.escrow.take() {
            None => {
                return Err(EscrowError::NotInitialized);
            },
            Some(e) => e,
        };
        if !same_address(&caller, &e.arbitrator) {
            self.escrow = Some(e);
            return Err(EscrowError::OnlyArbitratorCanResolve);
        }
        let mut a = match self.arbitration.take() {
            None => {
                self.escrow = Some(e);
                return Err(EscrowError::NoDispute);
            },
            Some(a) => a,
        };
        if a.resolved {
            self.escrow = Some(e);
            self.arbitration = Some(a);
            return Err(EscrowError::DisputeAlreadyResolved);
        }
        let total = match client_amount.checked_add(freelancer_amount) {
            Some(v) => v,
            None => {
                self.escrow = Some(e);
                self.arbitration = Some(a);
                return Err(EscrowError::AmountOverflow);
            },
        };
        let released = match e.released.checked_add(total) {
            Some(v) => v,
            None => {
                self.escrow = Some(e);
                self.arbitration = Some(a);
                return Err(EscrowError::AmountOverflow);
            },
        };
        let ghost ev = e@;
        let mut transfers: Vec<Transfer> = Vec::new();
        if client_amount > 0 {
            transfers.push(
                Transfer { token: e.token.clone(), from: e.client.clone(), to: e.client.clone(), amount: client_amount },
            );
        }
        if freelancer_amount > 0 {
            transfers.push(
                Transfer {
                    token: e.token.clone(),
                    from: e.client.clone(),
                    to: e.freelancer.clone(),
                    amount: freelancer_amount,
                },
            );
        }
        assert(transfers_view(transfers@) =~= settlement_transfers(ev, client_amount, freelancer_amount));
        a.resolved = true;
        self.arbitration = Some(a);
        e.disputed = false;
        e.released = released;
        self.escrow = Some(e);
        Ok(transfers)
    }

    /// Pays out completed, unapproved milestone `index` once `now` (the ledger
    /// time) is past its deadline; only the arbitrator may, and any other
    /// milestone state leaves everything as it is.
    pub fn release_deadline_locked(&mut self, caller: Address, index: u32, now: u64) -> (res: Result<
        Vec<Transfer>,
        EscrowError,
    >)
        ensures
            settles_with_transfers(
                res,
                old(self)@,
                final(self)@,
                release_deadline_locked_outcome(old(self)@, caller@, index, now),
            ),
    {
        let ghost prior = old(self)@;
        let mut e = match self.escrow.take() {
            None => {
                return Err(EscrowError::NotInitialized);
            },
            Some(e) => e,
        };
        let mut ms = match self.milestones.take() {
            Some(ms) => ms,
            None => {
                self.escrow = Some(e);
                return Err(EscrowError::NoMilestones);
            },
        };
        let ghost before = milestones_view(ms@);
        assert(prior.milestones == Some(before));
        let i = index as usize;
        if i >= ms.len() || !(ms[i].completed && !ms[i].approved && now > ms[i].deadline) {
            self.escrow = Some(e);
            self.milestones = Some(ms);
            return Ok(no_transfers());
        }
        if !same_address(&caller, &e.arbitrator) {
            self.escrow = Some(e);
            self.milestones = Some(ms);
            return Err(EscrowError::OnlyArbitratorCanRelease);
        }
        let amount = ms[i].amount;
        let released = match e.released.checked_add(amount) {
            Some(r) => r,
            None => {
                self.escrow = Some(e);
                self.milestones = Some(ms);
                return Err(EscrowError::AmountOverflow);
            },
        };
        ms[i].approved = true;
        assert(milestones_view(ms@) =~= before.update(i as int, MilestoneView { approved: true, ..before[i as int] }));
        let t = Transfer { token: e.token.clone(), from: e.client.clone(), to: e.freelancer.clone(), amount };
        e.released = released;
        self.escrow = Some(e);
        self.milestones = Some(ms);
        let mut transfers: Vec<Transfer> = Vec::new();
        transfers.push(t);
        assert(transfers_view(transfers@) =~= seq![t@]);
        Ok(transfers)
    }

    /// The escrow record.
    pub fn get_escrow(&self) -> (res: Result<Escrow, EscrowError>)
        ensures
            match self@.escrow {
                Some(e) => res matches Ok(r) && r@ == e,
                None => res == Err::<Escrow, EscrowError>(EscrowError::NotInitialized),
            },
    {
        match &self.escrow {
            Some(e) => Ok(e.clone()),
            None => Err(EscrowError::NotInitialized),
        }
    }

    /// The milestones added so far, in order.
    pub fn get_milestones(&self) -> (res: Vec<Milestone>)
        ensures
            milestones_view(res@) == match self@.milestones {
                Some(ms) => ms,
                None => Seq::<MilestoneView>::empty(),
            },
    {
        let mut out: Vec<Milestone> = Vec::new();
        match &self.milestones {
            None => {},
            Some(ms) => {
                let mut i: usize = 0;
                while i < ms.len()
                    invariant
                        0 <= i <= ms.len(),
                        milestones_view(out@) =~= milestones_view(ms@).take(i as int),
                    decreases ms.len() - i,
                {
                    let c = ms[i].clone();
                    assert(c@ == milestones_view(ms@)[i as int]);
                    let ghost prev = out@;
                    out.push(c);
                    assert(out@ == prev.push(c));
                    assert(milestones_view(out@) =~= milestones_view(prev).push(c@));
                    assert(milestones_view(ms@).take(i + 1) =~= milestones_view(ms@).take(i as int).push(c@));
                    i = i + 1;
                }
                assert(milestones_view(ms@).take(ms.len() as int) =~= milestones_view(ms@));
            },
        }
        out
    }
}

} // verus!
