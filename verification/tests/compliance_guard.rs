use gigshield_kernel::compliance_guard::{Clawback, ComplianceError, ComplianceGuard, GuardedAccount};

fn addr(name: &str) -> String {
    name.to_string()
}

fn registered(business: &str, signers: &[&str], min_approvals: u32) -> ComplianceGuard {
    let mut guard = ComplianceGuard::new();
    guard.register_account(
        addr(business),
        addr("CTOKEN"),
        signers.iter().map(|s| addr(s)).collect(),
        min_approvals,
    );
    guard
}

#[test]
fn test_register_and_freeze() {
    let business = addr("GBUSINESS");
    let signer1 = addr("GSIGNER1");
    let signer2 = addr("GSIGNER2");
    let token = addr("CTOKEN");
    let signers = vec![signer1.clone(), signer2.clone()];

    let mut client = ComplianceGuard::new();

    client.register_account(business.clone(), token.clone(), signers, 2);
    assert!(!client.is_frozen(business.clone()));

    client.freeze_account(signer1.clone(), business.clone()).unwrap();
    assert!(client.is_frozen(business.clone()));
}

#[test]
fn test_key_recovery() {
    let business = addr("GBUSINESS");
    let signer1 = addr("GSIGNER1");
    let signer2 = addr("GSIGNER2");
    let new_signer = addr("GNEWSIGNER");
    let token = addr("CTOKEN");
    let signers = vec![signer1.clone(), signer2.clone()];

    let mut client = ComplianceGuard::new();

    client.register_account(business.clone(), token.clone(), signers, 2);
    client.request_key_recovery(signer1.clone(), business.clone(), new_signer.clone(), 0).unwrap();
    client.approve_recovery(signer2.clone(), business.clone()).unwrap();

    let guard = client.get_guard(business.clone()).unwrap();
    assert_eq!(guard.authorized_signers.len(), 1);
    assert_eq!(guard.authorized_signers[0], new_signer);
}

#[test]
fn register_sets_both_controls() {
    let guard = registered("GB", &["GS1", "GS2"], 2);
    assert_eq!(
        guard.get_guard(addr("GB")).unwrap(),
        GuardedAccount {
            business: addr("GB"),
            token: addr("CTOKEN"),
            authorized_signers: vec![addr("GS1"), addr("GS2")],
            min_approvals: 2,
            auth_required: true,
            clawback_enabled: true,
        }
    );
    assert!(!guard.is_frozen(addr("GB")));
}

#[test]
fn unknown_business_is_refused() {
    let mut guard = registered("GB", &["GS1"], 1);
    let other = addr("GOTHER");
    assert!(!guard.is_frozen(other.clone()));
    assert_eq!(guard.get_guard(other.clone()), Err(ComplianceError::NotRegistered));
    assert_eq!(guard.freeze_account(addr("GS1"), other.clone()), Err(ComplianceError::NotRegistered));
    assert_eq!(guard.unfreeze_account(other.clone(), other.clone()), Err(ComplianceError::NotRegistered));
    assert_eq!(guard.clawback(addr("GS1"), other.clone(), addr("GX"), 5), Err(ComplianceError::NotRegistered));
    assert_eq!(
        guard.request_key_recovery(addr("GS1"), other.clone(), addr("GN"), 1),
        Err(ComplianceError::NotRegistered)
    );
    assert_eq!(guard.approve_recovery(addr("GS1"), other.clone()), Err(ComplianceError::NotRegistered));
    assert_eq!(guard.set_auth_required(other.clone(), other.clone(), false), Err(ComplianceError::NotRegistered));
}

#[test]
fn freeze_and_unfreeze_rules() {
    let mut guard = registered("GB", &["GS1"], 1);
    assert_eq!(guard.freeze_account(addr("GX"), addr("GB")), Err(ComplianceError::NotSignerOrBusiness));
    assert!(!guard.is_frozen(addr("GB")));
    // The business itself may freeze.
    guard.freeze_account(addr("GB"), addr("GB")).unwrap();
    assert!(guard.is_frozen(addr("GB")));
    assert_eq!(guard.unfreeze_account(addr("GS1"), addr("GB")), Err(ComplianceError::OnlyBusinessCanUnfreeze));
    assert!(guard.is_frozen(addr("GB")));
    guard.unfreeze_account(addr("GB"), addr("GB")).unwrap();
    assert!(!guard.is_frozen(addr("GB")));
}

#[test]
fn reregistering_unfreezes() {
    let mut guard = registered("GB", &["GS1"], 1);
    guard.freeze_account(addr("GS1"), addr("GB")).unwrap();
    guard.register_account(addr("GB"), addr("CTOKEN2"), vec![addr("GS9")], 3);
    assert!(!guard.is_frozen(addr("GB")));
    let g = guard.get_guard(addr("GB")).unwrap();
    assert_eq!(g.token, addr("CTOKEN2"));
    assert_eq!(g.authorized_signers, vec![addr("GS9")]);
    assert_eq!(g.min_approvals, 3);
}

#[test]
fn clawback_rules() {
    let mut guard = registered("GB", &["GS1"], 1);
    assert_eq!(guard.clawback(addr("GB"), addr("GB"), addr("GX"), 5), Err(ComplianceError::NotAuthorizedSigner));
    assert_eq!(guard.clawback(addr("GS1"), addr("GB"), addr("GX"), 5), Err(ComplianceError::NotFrozen));
    guard.freeze_account(addr("GS1"), addr("GB")).unwrap();
    assert_eq!(
        guard.clawback(addr("GS1"), addr("GB"), addr("GX"), 5),
        Ok(Clawback { token: addr("CTOKEN"), from: addr("GX"), amount: 5 })
    );
}

#[test]
fn clawback_disabled_is_refused() {
    let mut guard = ComplianceGuard::new();
    guard.register_account(addr("GB"), addr("CTOKEN"), vec![addr("GS1")], 1);
    guard.accounts[0].guard.as_mut().unwrap().clawback_enabled = false;
    guard.freeze_account(addr("GS1"), addr("GB")).unwrap();
    assert_eq!(guard.clawback(addr("GS1"), addr("GB"), addr("GX"), 5), Err(ComplianceError::ClawbackNotEnabled));
}

#[test]
fn recovery_request_rules() {
    let mut guard = registered("GB", &["GS1", "GS2", "GS3"], 3);
    assert_eq!(
        guard.request_key_recovery(addr("GB"), addr("GB"), addr("GN"), 7),
        Err(ComplianceError::OnlySignersCanRequestRecovery)
    );
    assert_eq!(guard.approve_recovery(addr("GS1"), addr("GB")), Err(ComplianceError::NoRecoveryRequest));
    guard.request_key_recovery(addr("GS1"), addr("GB"), addr("GN"), 7).unwrap();
    let request = guard.accounts[0].recovery.clone().unwrap();
    assert_eq!(request.requested_by, addr("GS1"));
    assert_eq!(request.new_key, addr("GN"));
    assert!(request.approved_by.is_empty());
    assert!(!request.executed);
    assert_eq!(request.created_at, 7);
    // The request leaves the signers as they were.
    assert_eq!(guard.get_guard(addr("GB")).unwrap().authorized_signers.len(), 3);
    // The requester may approve once; it still counts as one signer.
    guard.approve_recovery(addr("GS1"), addr("GB")).unwrap();
    assert_eq!(guard.accounts[0].recovery.as_ref().unwrap().approved_by, vec![addr("GS1")]);
    assert!(!guard.accounts[0].recovery.as_ref().unwrap().executed);
    assert_eq!(guard.approve_recovery(addr("GS1"), addr("GB")), Err(ComplianceError::AlreadyApproved));
    assert_eq!(guard.approve_recovery(addr("GX"), addr("GB")), Err(ComplianceError::OnlySignersCanApproveRecovery));
}

#[test]
fn recovery_executes_at_threshold() {
    let mut guard = registered("GB", &["GS1", "GS2", "GS3"], 3);
    guard.request_key_recovery(addr("GS1"), addr("GB"), addr("GN"), 7).unwrap();
    guard.approve_recovery(addr("GS2"), addr("GB")).unwrap();
    // Requester and one approval: two signers out of three, the signers stay.
    assert_eq!(guard.get_guard(addr("GB")).unwrap().authorized_signers.len(), 3);
    assert!(!guard.accounts[0].recovery.as_ref().unwrap().executed);
    guard.approve_recovery(addr("GS3"), addr("GB")).unwrap();
    assert_eq!(guard.get_guard(addr("GB")).unwrap().authorized_signers, vec![addr("GN")]);
    let request = guard.accounts[0].recovery.clone().unwrap();
    assert!(request.executed);
    assert_eq!(request.approved_by, vec![addr("GS2"), addr("GS3")]);
    // The new key cannot approve the executed request again.
    assert_eq!(guard.approve_recovery(addr("GN"), addr("GB")), Err(ComplianceError::RecoveryAlreadyExecuted));
}

#[test]
fn requester_approval_is_not_counted_twice() {
    let mut guard = registered("GB", &["GS1", "GS2"], 2);
    guard.request_key_recovery(addr("GS1"), addr("GB"), addr("GN"), 7).unwrap();
    guard.approve_recovery(addr("GS1"), addr("GB")).unwrap();
    assert!(!guard.accounts[0].recovery.as_ref().unwrap().executed);
    assert_eq!(guard.get_guard(addr("GB")).unwrap().authorized_signers.len(), 2);
    guard.approve_recovery(addr("GS2"), addr("GB")).unwrap();
    assert_eq!(guard.get_guard(addr("GB")).unwrap().authorized_signers, vec![addr("GN")]);
}

#[test]
fn set_auth_required_rules() {
    let mut guard = registered("GB", &["GS1"], 1);
    assert_eq!(
        guard.set_auth_required(addr("GS1"), addr("GB"), false),
        Err(ComplianceError::OnlyBusinessCanToggleAuth)
    );
    guard.set_auth_required(addr("GB"), addr("GB"), false).unwrap();
    assert!(!guard.get_guard(addr("GB")).unwrap().auth_required);
}

#[test]
fn requests_touch_only_their_business() {
    let mut guard = registered("GB1", &["GS1"], 1);
    guard.register_account(addr("GB2"), addr("CTOKEN"), vec![addr("GS1")], 1);
    guard.freeze_account(addr("GS1"), addr("GB1")).unwrap();
    assert!(guard.is_frozen(addr("GB1")));
    assert!(!guard.is_frozen(addr("GB2")));
    guard.request_key_recovery(addr("GS1"), addr("GB1"), addr("GN"), 3).unwrap();
    guard.approve_recovery(addr("GS1"), addr("GB1")).unwrap();
    assert_eq!(guard.get_guard(addr("GB1")).unwrap().authorized_signers, vec![addr("GN")]);
    assert_eq!(guard.get_guard(addr("GB2")).unwrap().authorized_signers, vec![addr("GS1")]);
    assert!(guard.accounts[1].recovery.is_none());
}

#[test]
fn sole_signer_recovers_alone() {
    let mut guard = registered("GB", &["GS1"], 1);
    guard.request_key_recovery(addr("GS1"), addr("GB"), addr("GN"), 4).unwrap();
    // A request alone never carries the recovery out.
    assert_eq!(guard.get_guard(addr("GB")).unwrap().authorized_signers, vec![addr("GS1")]);
    guard.approve_recovery(addr("GS1"), addr("GB")).unwrap();
    assert_eq!(guard.get_guard(addr("GB")).unwrap().authorized_signers, vec![addr("GN")]);
    let request = guard.accounts[0].recovery.clone().unwrap();
    assert!(request.executed);
    assert_eq!(request.approved_by, vec![addr("GS1")]);
    assert_eq!(guard.approve_recovery(addr("GN"), addr("GB")), Err(ComplianceError::RecoveryAlreadyExecuted));
}

#[test]
fn other_signer_approves_at_threshold_one() {
    let mut guard = registered("GB", &["GS1", "GS2"], 1);
    guard.request_key_recovery(addr("GS1"), addr("GB"), addr("GN"), 4).unwrap();
    guard.approve_recovery(addr("GS2"), addr("GB")).unwrap();
    assert_eq!(guard.get_guard(addr("GB")).unwrap().authorized_signers, vec![addr("GN")]);
}

#[test]
fn no_threshold_recovers_on_first_approval() {
    let mut guard = registered("GB", &["GS1", "GS2"], 0);
    guard.request_key_recovery(addr("GS2"), addr("GB"), addr("GN"), 4).unwrap();
    assert_eq!(guard.get_guard(addr("GB")).unwrap().authorized_signers.len(), 2);
    guard.approve_recovery(addr("GS1"), addr("GB")).unwrap();
    assert_eq!(guard.get_guard(addr("GB")).unwrap().authorized_signers, vec![addr("GN")]);
}
