//! Guarded business accounts: authorized signers (or the business) can freeze
//! an account, signers can claw back funds of a frozen account, and signers
//! can rotate the signer set to a new key once enough of them approve.
use vstd::prelude::*;
use crate::address::{
    Address, addresses_view, contains_address, copy_addresses, count_distinct, distinct_count, prepend_address,
    same_address,
};

verus! {

/// The controls registered for a business account.
#[derive(Debug, PartialEq, Eq)]
pub struct GuardedAccount {
    pub business: Address,
    pub token: Address,
    pub authorized_signers: Vec<Address>,
    pub min_approvals: u32,
    pub auth_required: bool,
    pub clawback_enabled: bool,
}

/// A request to replace the signer set of a business with one new key.
#[derive(Debug, PartialEq, Eq)]
pub struct RecoveryRequest {
    pub requested_by: Address,
    pub new_key: Address,
    pub approved_by: Vec<Address>,
    pub executed: bool,
    pub created_at: u64,
}

/// The storage entries of one business: its guard, its frozen flag and its
/// recovery request, each absent until first written.
#[derive(Debug, PartialEq, Eq)]
pub struct AccountRecord {
    pub business: Address,
    pub guard: Option<GuardedAccount>,
    pub frozen: Option<bool>,
    pub recovery: Option<RecoveryRequest>,
}

/// The contract's storage: one record per business.  Where two records name
/// the same business, the first one counts.
pub struct ComplianceGuard {
    pub accounts: Vec<AccountRecord>,
}

/// A clawback of `amount` units of `token` from `from` that the host carries
/// out on behalf of the contract.
#[derive(Debug, PartialEq, Eq)]
pub struct Clawback {
    pub token: Address,
    pub from: Address,
    pub amount: i128,
}

/// Why a request to the compliance guard was refused.
#[derive(Clone, Copy, Debug, PartialEq, Eq, Structural)]
pub enum ComplianceError {
    /// The business has not been registered.
    NotRegistered,
    /// Only an authorized signer or the business can freeze the account.
    NotSignerOrBusiness,
    /// Only the business can unfreeze the account.
    OnlyBusinessCanUnfreeze,
    /// Only an authorized signer can claw back funds.
    NotAuthorizedSigner,
    /// Clawback is not enabled for the account.
    ClawbackNotEnabled,
    /// The account must be frozen before a clawback.
    NotFrozen,
    /// Only an authorized signer can request a key recovery.
    OnlySignersCanRequestRecovery,
    /// Only an authorized signer can approve a key recovery.
    OnlySignersCanApproveRecovery,
    /// No key recovery has been requested.
    NoRecoveryRequest,
    /// The key recovery was already carried out.
    RecoveryAlreadyExecuted,
    /// The caller already approved this key recovery.
    AlreadyApproved,
    /// Only the business can change whether authorization is required.
    OnlyBusinessCanToggleAuth,
}

pub struct GuardedAccountView {
    pub business: Seq<char>,
    pub token: Seq<char>,
    pub authorized_signers: Seq<Seq<char>>,
    pub min_approvals: u32,
    pub auth_required: bool,
    pub clawback_enabled: bool,
}

pub struct RecoveryRequestView {
    pub requested_by: Seq<char>,
    pub new_key: Seq<char>,
    pub approved_by: Seq<Seq<char>>,
    pub executed: bool,
    pub created_at: u64,
}

/// The storage entries of one business.
pub struct AccountView {
    pub guard: Option<GuardedAccountView>,
    pub frozen: Option<bool>,
    pub recovery: Option<RecoveryRequestView>,
}

pub struct ClawbackView {
    pub token: Seq<char>,
    pub from: Seq<char>,
    pub amount: i128,
}

impl View for GuardedAccount {
    type V = GuardedAccountView;

    open spec fn view(&self) -> GuardedAccountView {
        GuardedAccountView {
            business: self.business@,
            token: self.token@,
            authorized_signers: addresses_view(self.authorized_signers@),
            min_approvals: self.min_approvals,
            auth_required: self.auth_required,
            clawback_enabled: self.clawback_enabled,
        }
    }
}

impl View for RecoveryRequest {
    type V = RecoveryRequestView;

    open spec fn view(&self) -> RecoveryRequestView {
        RecoveryRequestView {
            requested_by: self.requested_by@,
            new_key: self.new_key@,
            approved_by: addresses_view(self.approved_by@),
            executed: self.executed,
            created_at: self.created_at,
        }
    }
}

impl View for AccountRecord {
    type V = AccountView;

    open spec fn view(&self) -> AccountView {
        AccountView {
            guard: match self.guard {
                Some(g) => Some(g@),
                None => None,
            },
            frozen: self.frozen,
            recovery: match self.recovery {
                Some(r) => Some(r@),
                None => None,
            },
        }
    }
}

impl View for Clawback {
    type V = ClawbackView;

    open spec fn view(&self) -> ClawbackView {
        ClawbackView { token: self.token@, from: self.from@, amount: self.amount }
    }
}

/// The entries of each business that `records` holds; the first record of a
/// business counts.
pub open spec fn accounts_map(records: Seq<AccountRecord>) -> Map<Seq<char>, AccountView>
    decreases records.len(),
{
    if records.len() == 0 {
        Map::empty()
    } else {
        let m = accounts_map(records.drop_last());
        let r = records.last();
        if m.contains_key(r.business@) {
            m
        } else {
            m.insert(r.business@, r@)
        }
    }
}

impl View for ComplianceGuard {
    type V = Map<Seq<char>, AccountView>;

    open spec fn view(&self) -> Map<Seq<char>, AccountView> {
        accounts_map(self.accounts@)
    }
}

/// The entries of a business that has none.
pub open spec fn no_entries() -> AccountView {
    AccountView { guard: None, frozen: None, recovery: None }
}

/// The entries of `business` in storage `m`.
pub open spec fn account_of(m: Map<Seq<char>, AccountView>, business: Seq<char>) -> AccountView {
    if m.contains_key(business) {
        m[business]
    } else {
        no_entries()
    }
}

/// Record `i` is the first one of its business.
pub open spec fn first_of_business(records: Seq<AccountRecord>, i: int) -> bool {
    &&& 0 <= i < records.len()
    &&& forall|j: int| 0 <= j < i ==> (#[trigger] records[j]).business@ != records[i].business@
}

proof fn lemma_map_finds_first(records: Seq<AccountRecord>, i: int)
    requires
        first_of_business(records, i),
    ensures
        accounts_map(records).contains_key(records[i].business@),
        accounts_map(records)[records[i].business@] == records[i]@,
    decreases records.len(),
{
    let b = records[i].business@;
    if i < records.len() - 1 {
        let prefix = records.drop_last();
        assert(first_of_business(prefix, i)) by {
            assert forall|j: int| 0 <= j < i implies (#[trigger] prefix[j]).business@ != prefix[i].business@ by {
                assert(prefix[j] == records[j]);
            }
        }
        lemma_map_finds_first(prefix, i);
    } else {
        lemma_map_lacks(records.drop_last(), b);
    }
}

proof fn lemma_map_lacks(records: Seq<AccountRecord>, b: Seq<char>)
    requires
        forall|j: int| 0 <= j < records.len() ==> (#[trigger] records[j]).business@ != b,
    ensures
        !accounts_map(records).contains_key(b),
    decreases records.len(),
{
    if records.len() > 0 {
        let prefix = records.drop_last();
        assert forall|j: int| 0 <= j < prefix.len() implies (#[trigger] prefix[j]).business@ != b by {
            assert(prefix[j] == records[j]);
        }
        lemma_map_lacks(prefix, b);
    }
}

proof fn lemma_map_update_first(records: Seq<AccountRecord>, i: int, r: AccountRecord)
    requires
        first_of_business(records, i),
        r.business@ == records[i].business@,
    ensures
        accounts_map(records.update(i, r)) == accounts_map(records).insert(r.business@, r@),
    decreases records.len(),
{
    let b = r.business@;
    let updated = records.update(i, r);
    let prefix = records.drop_last();
    if i < records.len() - 1 {
        assert(first_of_business(prefix, i)) by {
            assert forall|j: int| 0 <= j < i implies (#[trigger] prefix[j]).business@ != prefix[i].business@ by {
                assert(prefix[j] == records[j]);
            }
        }
        lemma_map_update_first(prefix, i, r);
        assert(updated.drop_last() =~= prefix.update(i, r));
        lemma_map_finds_first(prefix, i);
        assert(accounts_map(updated) =~= accounts_map(records).insert(b, r@));
    } else {
        assert(updated.drop_last() =~= prefix);
        lemma_map_lacks(prefix, b);
        assert(accounts_map(updated) =~= accounts_map(records).insert(b, r@));
    }
}

proof fn lemma_map_push_new(records: Seq<AccountRecord>, r: AccountRecord)
    requires
        !accounts_map(records).contains_key(r.business@),
    ensures
        accounts_map(records.push(r)) == accounts_map(records).insert(r.business@, r@),
{
    assert(records.push(r).drop_last() =~= records);
}

impl Clone for GuardedAccount {
    fn clone(&self) -> (res: Self)
        ensures
            res@ == self@,
    {
        GuardedAccount {
            business: self.business.clone(),
            token: self.token.clone(),
            authorized_signers: copy_addresses(&self.authorized_signers),
            min_approvals: self.min_approvals,
            auth_required: self.auth_required,
            clawback_enabled: self.clawback_enabled,
        }
    }
}

impl Clone for RecoveryRequest {
    fn clone(&self) -> (res: Self)
        ensures
            res@ == self@,
    {
        RecoveryRequest {
            requested_by: self.requested_by.clone(),
            new_key: self.new_key.clone(),
            approved_by: copy_addresses(&self.approved_by),
            executed: self.executed,
            created_at: self.created_at,
        }
    }
}

/// What a request does to the entries of its business: their new value, or
/// the reason it is refused.
pub type AccountOutcome = Result<AccountView, ComplianceError>;

/// `register_account`: (re)register the guard of a business with both
/// controls on, and mark it not frozen; a pending recovery request stays.
pub open spec fn register_account_entries(
    a: AccountView,
    business: Seq<char>,
    token: Seq<char>,
    authorized_signers: Seq<Seq<char>>,
    min_approvals: u32,
) -> AccountView {
    let g = GuardedAccountView {
        business,
        token,
        authorized_signers,
        min_approvals,
        auth_required: true,
        clawback_enabled: true,
    };
    AccountView { guard: Some(g), frozen: Some(false), ..a }
}

/// `is_frozen`: an account is frozen when its flag says so; a business
/// without a flag is not frozen.
pub open spec fn frozen_flag(a: AccountView) -> bool {
    a.frozen == Some(true)
}

/// `freeze_account`: an authorized signer or the business freezes the account.
pub open spec fn freeze_account_outcome(a: AccountView, caller: Seq<char>) -> AccountOutcome {
    match a.guard {
        None => Err(ComplianceError::NotRegistered),
        Some(g) => if !g.authorized_signers.contains(caller) && caller != g.business {
            Err(ComplianceError::NotSignerOrBusiness)
        } else {
            Ok(AccountView { frozen: Some(true), ..a })
        },
    }
}

/// `unfreeze_account`: the business lifts the freeze.
pub open spec fn unfreeze_account_outcome(a: AccountView, caller: Seq<char>) -> AccountOutcome {
    match a.guard {
        None => Err(ComplianceError::NotRegistered),
        Some(g) => if caller != g.business {
            Err(ComplianceError::OnlyBusinessCanUnfreeze)
        } else {
            Ok(AccountView { frozen: Some(false), ..a })
        },
    }
}

/// `clawback`: an authorized signer recovers `amount` of the guarded token from
/// `from`, provided clawback is enabled and the account is frozen.
pub open spec fn clawback_outcome(a: AccountView, caller: Seq<char>, from: Seq<char>, amount: i128) -> Result<
    ClawbackView,
    ComplianceError,
> {
    match a.guard {
        None => Err(ComplianceError::NotRegistered),
        Some(g) => if !g.authorized_signers.contains(caller) {
            Err(ComplianceError::NotAuthorizedSigner)
        } else if !g.clawback_enabled {
            Err(ComplianceError::ClawbackNotEnabled)
        } else if !frozen_flag(a) {
            Err(ComplianceError::NotFrozen)
        } else {
            Ok(ClawbackView { token: g.token, from, amount })
        },
    }
}

/// `request_key_recovery`: an authorized signer asks for the signer set to be
/// replaced by `new_key`; the request, with no approvals yet, replaces any
/// earlier one.
pub open spec fn request_key_recovery_outcome(
    a: AccountView,
    caller: Seq<char>,
    new_key: Seq<char>,
    now: u64,
) -> AccountOutcome {
    match a.guard {
        None => Err(ComplianceError::NotRegistered),
        Some(g) => if !g.authorized_signers.contains(caller) {
            Err(ComplianceError::OnlySignersCanRequestRecovery)
        } else {
            let r = RecoveryRequestView {
                requested_by: caller,
                new_key,
                approved_by: seq![],
                executed: false,
                created_at: now,
            };
            Ok(AccountView { recovery: Some(r), ..a })
        },
    }
}

/// The signers that back a recovery: its requester, then its approvals.
pub open spec fn supporters(r: RecoveryRequestView) -> Seq<Seq<char>> {
    seq![r.requested_by] + r.approved_by
}

/// `approve_recovery`: an authorized signer that has not approved yet adds
/// their approval; once the different signers backing the request (the
/// requester and the approvals, none counted twice) reach `min_approvals`, the
/// signer set becomes exactly the new key and the request is marked executed.
pub open spec fn approve_recovery_outcome(a: AccountView, caller: Seq<char>) -> AccountOutcome {
    match a.guard {
        None => Err(ComplianceError::NotRegistered),
        Some(g) => if !g.authorized_signers.contains(caller) {
            Err(ComplianceError::OnlySignersCanApproveRecovery)
        } else {
            match a.recovery {
                None => Err(ComplianceError::NoRecoveryRequest),
                Some(r) => if r.executed {
                    Err(ComplianceError::RecoveryAlreadyExecuted)
                } else if r.approved_by.contains(caller) {
                    Err(ComplianceError::AlreadyApproved)
                } else {
                    let approved = RecoveryRequestView { approved_by: r.approved_by.push(caller), ..r };
                    if distinct_count(supporters(approved)) >= g.min_approvals {
                        let g2 = GuardedAccountView { authorized_signers: seq![r.new_key], ..g };
                        let r2 = RecoveryRequestView { executed: true, ..approved };
                        Ok(AccountView { guard: Some(g2), recovery: Some(r2), ..a })
                    } else {
                        Ok(AccountView { recovery: Some(approved), ..a })
                    }
                },
            }
        },
    }
}

/// `set_auth_required`: the business switches the auth-required control.
pub open spec fn set_auth_required_outcome(a: AccountView, caller: Seq<char>, required: bool) -> AccountOutcome {
    match a.guard {
        None => Err(ComplianceError::NotRegistered),
        Some(g) => if caller != g.business {
            Err(ComplianceError::OnlyBusinessCanToggleAuth)
        } else {
            Ok(AccountView { guard: Some(GuardedAccountView { auth_required: required, ..g }), ..a })
        },
    }
}

/// `res`, with storage going from `before` to `after`, is what `expected`
/// describes for the entries of `business`: on success only those entries
/// change, on refusal nothing does.
pub open spec fn updates(
    res: Result<(), ComplianceError>,
    before: Map<Seq<char>, AccountView>,
    after: Map<Seq<char>, AccountView>,
    business: Seq<char>,
    expected: AccountOutcome,
) -> bool {
    match expected {
        Ok(a) => res is Ok && after == before.insert(business, a),
        Err(e) => res == Err::<(), ComplianceError>(e) && after == before,
    }
}

impl ComplianceGuard {
    /// Empty storage: no business registered.
    pub fn new() -> (res: Self)
        ensures
            res@ == Map::<Seq<char>, AccountView>::empty(),
    {
        ComplianceGuard { accounts: Vec::new() }
    }

    /// The index of the first record of `business`.
    fn find_account(&self, business: &Address) -> (res: Option<usize>)
        ensures
            match res {
                Some(i) => first_of_business(self.accounts@, i as int) && self.accounts@[i as int].business@
                    == business@ && self@.contains_key(business@) && self@[business@]
                    == self.accounts@[i as int]@,
                None => !self@.contains_key(business@),
            },
    {
        let mut i: usize = 0;
        while i < self.accounts.len()
            invariant
                0 <= i <= self.accounts.len(),
                forall|j: int| 0 <= j < i ==> (#[trigger] self.accounts@[j]).business@ != business@,
            decreases self.accounts.len() - i,
        {
            if same_address(&self.accounts[i].business, business) {
                proof {
                    lemma_map_finds_first(self.accounts@, i as int);
                }
                return Some(i);
            }
            i = i + 1;
        }
        proof {
            lemma_map_lacks(self.accounts@, business@);
        }
        None
    }

    /// Registers (or re-registers) `business` with its token, its signers and
    /// the number of approvals a key recovery needs; the account starts out
    /// not frozen, with authorization required and clawback enabled.
    pub fn register_account(
        &mut self,
        business: Address,
        token: Address,
        authorized_signers: Vec<Address>,
        min_approvals: u32,
    )
        ensures
            final(self)@ == old(self)@.insert(
                business@,
                register_account_entries(
                    account_of(old(self)@, business@),
                    business@,
                    token@,
                    addresses_view(authorized_signers@),
                    min_approvals,
                ),
            ),
    {
        let guard = GuardedAccount {
            business: business.clone(),
            token,
            authorized_signers,
            min_approvals,
            auth_required: true,
            clawback_enabled: true,
        };
        let ghost before = self.accounts@;
        let ghost entries = register_account_entries(
            account_of(old(self)@, business@),
            business@,
            token@,
            addresses_view(authorized_signers@),
            min_approvals,
        );
        let found = self.find_account(&business);
        match found {
            Some(i) => {
                self.accounts[i].guard = Some(guard);
                self.accounts[i].frozen = Some(false);
                proof {
                    assert(self.accounts@[i as int]@ == entries);
                    assert(self.accounts@ =~= before.update(i as int, self.accounts@[i as int]));
                    lemma_map_update_first(before, i as int, self.accounts@[i as int]);
                }
            },
            None => {
                let record = AccountRecord { business, guard: Some(guard), frozen: Some(false), recovery: None };
                proof {
                    assert(record@ == entries);
                    lemma_map_push_new(before, record);
                }
                self.accounts.push(record);
            },
        }
    }

    /// Whether `business` is frozen.
    pub fn is_frozen(&self, business: Address) -> (res: bool)
        ensures
            res == frozen_flag(account_of(self@, business@)),
    {
        match self.find_account(&business) {
            Some(i) => match self.accounts[i].frozen {
                Some(f) => f,
                None => false,
            },
            None => false,
        }
    }

    /// Freezes `business`; an authorized signer or the business may.
    pub fn freeze_account(&mut self, caller: Address, business: Address) -> (res: Result<(), ComplianceError>)
        ensures
            updates(res, old(self)@, final(self)@, business@, freeze_account_outcome(account_of(old(self)@, business@), caller@)),
    {
        let i = match self.find_account(&business) {
            Some(i) => i,
            None => {
                return Err(ComplianceError::NotRegistered);
            },
        };
        match &self.accounts[i].guard {
            None => {
                return Err(ComplianceError::NotRegistered);
            },
            Some(g) => {
                if !contains_address(&g.authorized_signers, &caller) && !same_address(&caller, &g.business) {
                    return Err(ComplianceError::NotSignerOrBusiness);
                }
            },
        }
        let ghost before = self.accounts@;
        self.accounts[i].frozen = Some(true);
        proof {
            assert(self.accounts@ =~= before.update(i as int, self.accounts@[i as int]));
            lemma_map_update_first(before, i as int, self.accounts@[i as int]);
        }
        Ok(())
    }

    /// Lifts the freeze on `business`; only the business may.
    pub fn unfreeze_account(&mut self, caller: Address, business: Address) -> (res: Result<(), ComplianceError>)
        ensures
            updates(res, old(self)@, final(self)@, business@, unfreeze_account_outcome(account_of(old(self)@, business@), caller@)),
    {
        let i = match self.find_account(&business) {
            Some(i) => i,
            None => {
                return Err(ComplianceError::NotRegistered);
            },
        };
        match &self.accounts[i].guard {
            None => {
                return Err(ComplianceError::NotRegistered);
            },
            Some(g) => {
                if !same_address(&caller, &g.business) {
                    return Err(ComplianceError::OnlyBusinessCanUnfreeze);
                }
            },
        }
        let ghost before = self.accounts@;
        self.accounts[i].frozen = Some(false);
        proof {
            assert(self.accounts@ =~= before.update(i as int, self.accounts@[i as int]));
            lemma_map_update_first(before, i as int, self.accounts@[i as int]);
        }
        Ok(())
    }

    /// The clawback of `amount` of the guarded token from `from`; an authorized
    /// signer may ask for it once `business` is frozen and clawback is enabled.
    /// Storage does not change.
    pub fn clawback(&self, caller: Address, business: Address, from: Address, amount: i128) -> (res: Result<
        Clawback,
        ComplianceError,
    >)
        ensures
            match clawback_outcome(account_of(self@, business@), caller@, from@, amount) {
                Ok(c) => res matches Ok(r) && r@ == c,
                Err(e) => res matches Err(e2) && e2 == e,
            },
    {
        let i = match self.find_account(&business) {
            Some(i) => i,
            None => {
                return Err(ComplianceError::NotRegistered);
            },
        };
        let record = &self.accounts[i];
        match &record.guard {
            None => Err(ComplianceError::NotRegistered),
            Some(g) => {
                if !contains_address(&g.authorized_signers, &caller) {
                    return Err(ComplianceError::NotAuthorizedSigner);
                }
                if !g.clawback_enabled {
                    return Err(ComplianceError::ClawbackNotEnabled);
                }
                let frozen = match record.frozen {
                    Some(f) => f,
                    None => false,
                };
                if !frozen {
                    return Err(ComplianceError::NotFrozen);
                }
                Ok(Clawback { token: g.token.clone(), from, amount })
            },
        }
    }

    /// Asks for the signers of `business` to be replaced by `new_key`; only an
    /// authorized signer may.  The request starts with no approvals and
    /// replaces any earlier one; `now` is the ledger time.
    pub fn request_key_recovery(&mut self, caller: Address, business: Address, new_key: Address, now: u64) -> (res:
        Result<(), ComplianceError>)
        ensures
            updates(
                res,
                old(self)@,
                final(self)@,
                business@,
                request_key_recovery_outcome(account_of(old(self)@, business@), caller@, new_key@, now),
            ),
    {
        let i = match self.find_account(&business) {
            Some(i) => i,
            None => {
                return Err(ComplianceError::NotRegistered);
            },
        };
        match &self.accounts[i].guard {
            None => {
                return Err(ComplianceError::NotRegistered);
            },
            Some(g) => {
                if !contains_address(&g.authorized_signers, &caller) {
                    return Err(ComplianceError::OnlySignersCanRequestRecovery);
                }
            },
        }
        let approved_by: Vec<Address> = Vec::new();
        assert(addresses_view(approved_by@) =~= Seq::<Seq<char>>::empty());
        let request = RecoveryRequest { requested_by: caller, new_key, approved_by, executed: false, created_at: now };
        let ghost before = self.accounts@;
        self.accounts[i].recovery = Some(request);
        proof {
            assert(self.accounts@ =~= before.update(i as int, self.accounts@[i as int]));
            lemma_map_update_first(before, i as int, self.accounts@[i as int]);
        }
        Ok(())
    }

    /// Adds the approval of `caller` to the pending recovery of `business`; only
    /// an authorized signer that has not approved it yet may.  Once the
    /// different signers backing the request, its requester included, reach
    /// `min_approvals`, the new key becomes the only signer and the request is
    /// marked executed.
    pub fn approve_recovery(&mut self, caller: Address, business: Address) -> (res: Result<(), ComplianceError>)
        ensures
            updates(res, old(self)@, final(self)@, business@, approve_recovery_outcome(account_of(old(self)@, business@), caller@)),
    {
        let i = match self.find_account(&business) {
            Some(i) => i,
            None => {
                return Err(ComplianceError::NotRegistered);
            },
        };
        let min_approvals = match &self.accounts[i].guard {
            None => {
                return Err(ComplianceError::NotRegistered);
            },
            Some(g) => {
                if !contains_address(&g.authorized_signers, &caller) {
                    return Err(ComplianceError::OnlySignersCanApproveRecovery);
                }
                g.min_approvals
            },
        };
        let request = match &self.accounts[i].recovery {
            None => {
                return Err(ComplianceError::NoRecoveryRequest);
            },
            Some(r) => {
                if r.executed {
                    return Err(ComplianceError::RecoveryAlreadyExecuted);
                }
                if contains_address(&r.approved_by, &caller) {
                    return Err(ComplianceError::AlreadyApproved);
                }
                r.clone()
            },
        };
        let ghost before = self.accounts@;
        let mut approvals = request.approved_by;
        let ghost prior = addresses_view(approvals@);
        approvals.push(caller);
        assert(addresses_view(approvals@) =~= prior.push(caller@));
        let backers = prepend_address(&request.requested_by, &approvals);
        let executed = count_distinct(&backers) >= min_approvals as usize;
        if executed {
            let mut signers: Vec<Address> = Vec::new();
            signers.push(request.new_key.clone());
            assert(addresses_view(signers@) =~= seq![request.new_key@]);
            let guard = match &self.accounts[i].guard {
                Some(g) => GuardedAccount {
                    business: g.business.clone(),
                    token: g.token.clone(),
                    authorized_signers: signers,
                    min_approvals: g.min_approvals,
                    auth_required: g.auth_required,
                    clawback_enabled: g.clawback_enabled,
                },
                None => {
                    return Err(ComplianceError::NotRegistered);
                },
            };
            self.accounts[i].guard = Some(guard);
        }
        let updated = RecoveryRequest {
            requested_by: request.requested_by,
            new_key: request.new_key,
            approved_by: approvals,
            executed,
            created_at: request.created_at,
        };
        self.accounts[i].recovery = Some(updated);
        proof {
            assert(self.accounts@ =~= before.update(i as int, self.accounts@[i as int]));
            lemma_map_update_first(before, i as int, self.accounts@[i as int]);
        }
        Ok(())
    }

    /// Switches whether authorization is required for `business`; only the
    /// business may.
    pub fn set_auth_required(&mut self, caller: Address, business: Address, required: bool) -> (res: Result<
        (),
        ComplianceError,
    >)
        ensures
            updates(
                res,
                old(self)@,
                final(self)@,
                business@,
                set_auth_required_outcome(account_of(old(self)@, business@), caller@, required),
            ),
    {
        let i = match self.find_account(&business) {
            Some(i) => i,
            None => {
                return Err(ComplianceError::NotRegistered);
            },
        };
        let guard = match &self.accounts[i].guard {
            None => {
                return Err(ComplianceError::NotRegistered);
            },
            Some(g) => {
                if !same_address(&caller, &g.business) {
                    return Err(ComplianceError::OnlyBusinessCanToggleAuth);
                }
                GuardedAccount {
                    business: g.business.clone(),
                    token: g.token.clone(),
                    authorized_signers: copy_addresses(&g.authorized_signers),
                    min_approvals: g.min_approvals,
                    auth_required: required,
                    clawback_enabled: g.clawback_enabled,
                }
            },
        };
        let ghost before = self.accounts@;
        self.accounts[i].guard = Some(guard);
        proof {
            assert(self.accounts@ =~= before.update(i as int, self.accounts@[i as int]));
            lemma_map_update_first(before, i as int, self.accounts@[i as int]);
        }
        Ok(())
    }

    /// The guard registered for `business`.
    pub fn get_guard(&self, business: Address) -> (res: Result<GuardedAccount, ComplianceError>)
        ensures
            match account_of(self@, business@).guard {
                Some(g) => res matches Ok(r) && r@ == g,
                None => res == Err::<GuardedAccount, ComplianceError>(ComplianceError::NotRegistered),
            },
    {
        let i = match self.find_account(&business) {
            Some(i) => i,
            None => {
                return Err(ComplianceError::NotRegistered);
            },
        };
        match &self.accounts[i].guard {
            Some(g) => Ok(g.clone()),
            None => Err(ComplianceError::NotRegistered),
        }
    }
}

} // verus!
