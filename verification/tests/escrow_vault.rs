use gigshield_kernel::escrow_vault::{Arbitration, Escrow, EscrowError, EscrowVault, Milestone, Transfer};

fn addr(name: &str) -> String {
    name.to_string()
}

struct Parties {
    client: String,
    freelancer: String,
    arbitrator: String,
    token: String,
}

fn parties() -> Parties {
    Parties {
        client: addr("GCLIENT"),
        freelancer: addr("GFREELANCER"),
        arbitrator: addr("GARBITRATOR"),
        token: addr("CTOKEN"),
    }
}

fn deployed(p: &Parties, total: i128) -> EscrowVault {
    let mut vault = EscrowVault::new();
    vault
        .initialize(p.client.clone(), p.freelancer.clone(), p.arbitrator.clone(), p.token.clone(), total, 100)
        .unwrap();
    vault
}

#[test]
fn test_full_escrow_flow() {
    let p = parties();
    let mut escrow_client = deployed(&p, 1000);

    escrow_client.add_milestone(p.client.clone(), "setup".to_string(), 500, 1000).unwrap();
    escrow_client.add_milestone(p.client.clone(), "deploy".to_string(), 500, 2000).unwrap();

    escrow_client.complete_milestone(p.freelancer.clone(), 0).unwrap();
    escrow_client.approve_milestone(p.client.clone(), 0).unwrap();

    let milestones = escrow_client.get_milestones();
    assert_eq!(milestones.len(), 2);
    assert!(milestones[0].approved);
}

#[test]
fn test_dispute_and_resolve() {
    let p = parties();
    let mut ec = deployed(&p, 1000);

    ec.add_milestone(p.client.clone(), "phase1".to_string(), 1000, 5000).unwrap();
    ec.raise_dispute(p.freelancer.clone(), "quality".to_string(), 500).unwrap();
    ec.resolve_dispute(p.arbitrator.clone(), 300, 700).unwrap();

    let escrow = ec.get_escrow().unwrap();
    assert_eq!(escrow.released, 1000);
}

#[test]
fn initialize_records_parties() {
    let p = parties();
    let vault = deployed(&p, 1000);
    let escrow = vault.get_escrow().unwrap();
    assert_eq!(
        escrow,
        Escrow {
            client: p.client.clone(),
            freelancer: p.freelancer.clone(),
            arbitrator: p.arbitrator.clone(),
            token: p.token.clone(),
            total_amount: 1000,
            released: 0,
            disputed: false,
            created_at: 100,
        }
    );
    assert!(vault.get_milestones().is_empty());
    assert!(vault.arbitration.is_none());
}

#[test]
fn initialize_twice_is_refused() {
    let p = parties();
    let mut vault = deployed(&p, 1000);
    let res = vault.initialize(p.freelancer.clone(), p.client.clone(), p.arbitrator.clone(), p.token.clone(), 5, 7);
    assert_eq!(res, Err(EscrowError::AlreadyInitialized));
    let escrow = vault.get_escrow().unwrap();
    assert_eq!(escrow.client, p.client);
    assert_eq!(escrow.total_amount, 1000);
    assert_eq!(escrow.created_at, 100);
}

#[test]
fn requests_before_initialize_are_refused() {
    let p = parties();
    let mut vault = EscrowVault::new();
    assert_eq!(vault.get_escrow(), Err(EscrowError::NotInitialized));
    assert_eq!(
        vault.add_milestone(p.client.clone(), "x".to_string(), 1, 1),
        Err(EscrowError::NotInitialized)
    );
    assert_eq!(vault.complete_milestone(p.freelancer.clone(), 0), Err(EscrowError::NotInitialized));
    assert_eq!(vault.approve_milestone(p.client.clone(), 0), Err(EscrowError::NotInitialized));
    assert_eq!(vault.raise_dispute(p.client.clone(), "r".to_string(), 0), Err(EscrowError::NotInitialized));
    assert_eq!(vault.resolve_dispute(p.arbitrator.clone(), 1, 1), Err(EscrowError::NotInitialized));
    assert_eq!(
        vault.release_deadline_locked(p.arbitrator.clone(), 0, 10),
        Err(EscrowError::NotInitialized)
    );
    assert!(vault.get_milestones().is_empty());
}

#[test]
fn only_client_adds_milestones() {
    let p = parties();
    let mut vault = deployed(&p, 1000);
    assert_eq!(
        vault.add_milestone(p.freelancer.clone(), "x".to_string(), 1, 1),
        Err(EscrowError::OnlyClientCanAddMilestones)
    );
    assert!(vault.milestones.is_none());
    vault.add_milestone(p.client.clone(), "design".to_string(), -5, 42).unwrap();
    assert_eq!(
        vault.get_milestones(),
        vec![Milestone { description: "design".to_string(), amount: -5, deadline: 42, completed: false, approved: false }]
    );
}

#[test]
fn milestone_list_must_exist() {
    let p = parties();
    let mut vault = deployed(&p, 1000);
    assert_eq!(vault.complete_milestone(p.freelancer.clone(), 0), Err(EscrowError::NoMilestones));
    assert_eq!(vault.approve_milestone(p.client.clone(), 0), Err(EscrowError::NoMilestones));
    assert_eq!(vault.release_deadline_locked(p.freelancer.clone(), 0, 10), Err(EscrowError::NoMilestones));
}

#[test]
fn complete_milestone_rules() {
    let p = parties();
    let mut vault = deployed(&p, 1000);
    vault.add_milestone(p.client.clone(), "a".to_string(), 10, 50).unwrap();
    assert_eq!(vault.complete_milestone(p.client.clone(), 0), Err(EscrowError::OnlyFreelancerCanComplete));
    // An index past the end changes nothing.
    assert_eq!(vault.complete_milestone(p.freelancer.clone(), 3), Ok(()));
    assert!(!vault.get_milestones()[0].completed);
    vault.complete_milestone(p.freelancer.clone(), 0).unwrap();
    assert!(vault.get_milestones()[0].completed);
    assert_eq!(
        vault.complete_milestone(p.freelancer.clone(), 0),
        Err(EscrowError::MilestoneAlreadyCompleted)
    );
}

#[test]
fn approve_milestone_pays_freelancer_once() {
    let p = parties();
    let mut vault = deployed(&p, 1000);
    vault.add_milestone(p.client.clone(), "a".to_string(), 400, 50).unwrap();
    assert_eq!(vault.approve_milestone(p.client.clone(), 0), Err(EscrowError::MilestoneNotCompleted));
    vault.complete_milestone(p.freelancer.clone(), 0).unwrap();
    assert_eq!(vault.approve_milestone(p.freelancer.clone(), 0), Err(EscrowError::OnlyClientCanApprove));
    let transfers = vault.approve_milestone(p.client.clone(), 0).unwrap();
    assert_eq!(
        transfers,
        vec![Transfer { token: p.token.clone(), from: p.client.clone(), to: p.freelancer.clone(), amount: 400 }]
    );
    assert_eq!(vault.get_escrow().unwrap().released, 400);
    assert_eq!(vault.approve_milestone(p.client.clone(), 0), Err(EscrowError::MilestoneAlreadyApproved));
    assert_eq!(vault.get_escrow().unwrap().released, 400);
    // An index past the end moves nothing.
    assert_eq!(vault.approve_milestone(p.client.clone(), 9), Ok(vec![]));
}

#[test]
fn approve_overflow_is_refused() {
    let p = parties();
    let mut vault = deployed(&p, 1000);
    vault.add_milestone(p.client.clone(), "a".to_string(), i128::MAX, 50).unwrap();
    vault.add_milestone(p.client.clone(), "b".to_string(), 1, 50).unwrap();
    vault.complete_milestone(p.freelancer.clone(), 0).unwrap();
    vault.complete_milestone(p.freelancer.clone(), 1).unwrap();
    vault.approve_milestone(p.client.clone(), 0).unwrap();
    assert_eq!(vault.approve_milestone(p.client.clone(), 1), Err(EscrowError::AmountOverflow));
    assert!(!vault.get_milestones()[1].approved);
    assert_eq!(vault.get_escrow().unwrap().released, i128::MAX);
}

#[test]
fn raise_dispute_rules() {
    let p = parties();
    let mut vault = deployed(&p, 1000);
    assert_eq!(
        vault.raise_dispute(p.arbitrator.clone(), "r".to_string(), 1),
        Err(EscrowError::OnlyPartiesCanDispute)
    );
    vault.raise_dispute(p.client.clone(), "late".to_string(), 250).unwrap();
    assert!(vault.get_escrow().unwrap().disputed);
    assert_eq!(
        vault.arbitration,
        Some(Arbitration { raised_by: p.client.clone(), reason: "late".to_string(), proposed_split: 250, resolved: false })
    );
}

#[test]
fn resolve_dispute_rules() {
    let p = parties();
    let mut vault = deployed(&p, 1000);
    assert_eq!(vault.resolve_dispute(p.arbitrator.clone(), 1, 1), Err(EscrowError::NoDispute));
    vault.raise_dispute(p.freelancer.clone(), "quality".to_string(), 500).unwrap();
    assert_eq!(vault.resolve_dispute(p.client.clone(), 1, 1), Err(EscrowError::OnlyArbitratorCanResolve));
    let transfers = vault.resolve_dispute(p.arbitrator.clone(), 300, 700).unwrap();
    assert_eq!(
        transfers,
        vec![
            Transfer { token: p.token.clone(), from: p.client.clone(), to: p.client.clone(), amount: 300 },
            Transfer { token: p.token.clone(), from: p.client.clone(), to: p.freelancer.clone(), amount: 700 },
        ]
    );
    let escrow = vault.get_escrow().unwrap();
    assert!(!escrow.disputed);
    assert_eq!(escrow.released, 1000);
    assert!(vault.arbitration.as_ref().unwrap().resolved);
    assert_eq!(vault.resolve_dispute(p.arbitrator.clone(), 1, 1), Err(EscrowError::DisputeAlreadyResolved));
}

#[test]
fn resolve_dispute_skips_nonpositive_shares() {
    let p = parties();
    let mut vault = deployed(&p, 1000);
    vault.raise_dispute(p.client.clone(), "q".to_string(), 0).unwrap();
    let transfers = vault.resolve_dispute(p.arbitrator.clone(), 0, -20).unwrap();
    assert!(transfers.is_empty());
    assert_eq!(vault.get_escrow().unwrap().released, -20);
}

#[test]
fn resolve_dispute_overflow_is_refused() {
    let p = parties();
    let mut vault = deployed(&p, 1000);
    vault.raise_dispute(p.client.clone(), "q".to_string(), 0).unwrap();
    assert_eq!(vault.resolve_dispute(p.arbitrator.clone(), i128::MAX, 1), Err(EscrowError::AmountOverflow));
    assert!(vault.get_escrow().unwrap().disputed);
    assert!(!vault.arbitration.as_ref().unwrap().resolved);
}

#[test]
fn release_deadline_locked_rules() {
    let p = parties();
    let mut vault = deployed(&p, 1000);
    vault.add_milestone(p.client.clone(), "a".to_string(), 250, 50).unwrap();
    // Not completed yet: nothing happens, whoever asks.
    assert_eq!(vault.release_deadline_locked(p.freelancer.clone(), 0, 60), Ok(vec![]));
    vault.complete_milestone(p.freelancer.clone(), 0).unwrap();
    // Deadline not passed: nothing happens.
    assert_eq!(vault.release_deadline_locked(p.arbitrator.clone(), 0, 50), Ok(vec![]));
    assert_eq!(
        vault.release_deadline_locked(p.freelancer.clone(), 0, 51),
        Err(EscrowError::OnlyArbitratorCanRelease)
    );
    let transfers = vault.release_deadline_locked(p.arbitrator.clone(), 0, 51).unwrap();
    assert_eq!(
        transfers,
        vec![Transfer { token: p.token.clone(), from: p.client.clone(), to: p.freelancer.clone(), amount: 250 }]
    );
    assert!(vault.get_milestones()[0].approved);
    assert_eq!(vault.get_escrow().unwrap().released, 250);
    // Already paid: nothing happens.
    assert_eq!(vault.release_deadline_locked(p.arbitrator.clone(), 0, 99), Ok(vec![]));
    assert_eq!(vault.get_escrow().unwrap().released, 250);
}

#[test]
fn released_tracks_approved_milestones() {
    let p = parties();
    let mut vault = deployed(&p, 1000);
    for (i, amount) in [100i128, 200, 300].iter().enumerate() {
        vault.add_milestone(p.client.clone(), format!("m{}", i), *amount, 10).unwrap();
        vault.complete_milestone(p.freelancer.clone(), i as u32).unwrap();
    }
    vault.approve_milestone(p.client.clone(), 2).unwrap();
    vault.release_deadline_locked(p.arbitrator.clone(), 0, 11).unwrap();
    let approved: i128 = vault.get_milestones().iter().filter(|m| m.approved).map(|m| m.amount).sum();
    assert_eq!(approved, 400);
    assert_eq!(vault.get_escrow().unwrap().released, approved);
    assert_eq!(vault.get_milestones().len(), 3);
}
