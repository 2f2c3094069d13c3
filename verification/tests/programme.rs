use cygnus_programme::contract::Op;
use cygnus_programme::merkle;
use cygnus_programme::{
    ApproverConfig, DisbursementBatch, Error, Milestone, MilestoneStatus, Programme,
    ProgrammeContract, ProgrammeStatus,
};
use soroban_sdk::testutils::Address as _;
use soroban_sdk::{Address, Env};

const DAY: u64 = 86_400;

struct Ctx {
    env: Env,
    sponsor: Address,
    implementer: Address,
    approver: Address,
    asset: Address,
}

fn hash(seed: u8) -> [u8; 32] {
    [seed; 32]
}

// Two milestones, 600 and 400, due on day 10 and day 20.
fn milestones() -> Vec<Milestone> {
    vec![
        Milestone { description_hash: hash(1), amount: 600, due_by: 10 * DAY },
        Milestone { description_hash: hash(2), amount: 400, due_by: 20 * DAY },
    ]
}

fn setup() -> Ctx {
    let env = Env::default();
    let sponsor = Address::generate(&env);
    let implementer = Address::generate(&env);
    let approver = Address::generate(&env);
    let asset = Address::generate(&env);
    Ctx { env, sponsor, implementer, approver, asset }
}

fn create_with(c: &Ctx, approver: ApproverConfig) -> Programme {
    let (p, _) = ProgrammeContract::create_programme(
        0,
        c.sponsor.clone(),
        c.implementer.clone(),
        c.asset.clone(),
        1_000,
        milestones(),
        approver,
        hash(9),
        DAY,
    )
    .unwrap();
    p
}

fn create(c: &Ctx) -> Programme {
    create_with(c, ApproverConfig::Single(c.approver.clone()))
}

// Build a batch of `n` synthetic leaves whose amounts sum to `total`. Returns
// (root, leaves, total, count). recipient_ref stands in for a salted hash.
fn build_batch(env: &Env, n: u32, seed: u8) -> ([u8; 32], Vec<[u8; 32]>, i128, u32) {
    let per: i128 = if n == 50 { 12 } else { 10 };
    let mut leaves = Vec::new();
    let mut total: i128 = 0;
    for i in 0..n {
        let mut r = [0u8; 32];
        r[0] = seed;
        r[1] = (i & 0xff) as u8;
        r[2] = (i >> 8) as u8;
        leaves.push(merkle::hash_leaf(env, &r, per));
        total += per;
    }
    let root = merkle::compute_root(env, &leaves);
    (root, leaves, total, n)
}

// Sibling path for leaf `index`: pairs are (2k, 2k+1) and an odd tail node is
// carried up unchanged.
fn merkle_proof(env: &Env, leaves: &[[u8; 32]], index: usize) -> Vec<[u8; 32]> {
    let mut proof = Vec::new();
    let mut level = leaves.to_vec();
    let mut idx = index;
    while level.len() > 1 {
        let mut next = Vec::new();
        let mut i = 0;
        while i < level.len() {
            if i + 1 < level.len() {
                let a = level[i];
                let b = level[i + 1];
                if i == idx {
                    proof.push(b);
                } else if i + 1 == idx {
                    proof.push(a);
                }
                next.push(merkle::hash_node(env, &a, &b));
                i += 2;
            } else {
                next.push(level[i]);
                i += 1;
            }
        }
        idx /= 2;
        level = next;
    }
    proof
}

#[test]
fn full_lifecycle() {
    let c = setup();
    let mut p = create(&c);
    let mut sponsor_balance: i128 = 1_000_000;
    let mut contract_balance: i128 = 0;
    let mut implementer_balance: i128 = 0;

    let funded = ProgrammeContract::fund(&mut p, 1_000).unwrap();
    sponsor_balance -= funded.amount;
    contract_balance += funded.amount;
    assert_eq!(p.funded, 1_000);
    assert_eq!(p.status, ProgrammeStatus::Active);

    ProgrammeContract::claim(&mut p, 0, hash(20), DAY).unwrap();
    ProgrammeContract::approve(&mut p, 0).unwrap();
    assert_eq!(p.released, 600);
    assert_eq!(p.milestone_states[0].status, MilestoneStatus::Approved);

    // Disburse 600 to 50 synthetic beneficiaries.
    let (root, leaves, total, count) = build_batch(&c.env, 50, 12);
    assert_eq!(total, 600);
    let (batch, event) = ProgrammeContract::disburse(&mut p, root, total, count, DAY).unwrap();
    assert_eq!(batch.index, 0);
    assert_eq!(event.batch_index, 0);
    contract_balance -= event.total;
    implementer_balance += event.total;

    assert_eq!(p.disbursed, 600);
    // Funds moved out of the programme to the implementer.
    assert_eq!(implementer_balance, 600);
    assert_eq!(contract_balance, 400);

    // Every leaf verifies against the recorded root.
    for i in 0..leaves.len() {
        let proof = merkle_proof(&c.env, &leaves, i);
        assert!(ProgrammeContract::verify_inclusion(&c.env, Some(batch), leaves[i], &proof));
    }

    // Refund the remaining 400 after the end date.
    let refunded = ProgrammeContract::refund_remainder(&mut p, 21 * DAY).unwrap();
    assert_eq!(refunded.amount, 400);
    sponsor_balance += refunded.amount;
    assert_eq!(p.status, ProgrammeStatus::Closed);
    assert_eq!(sponsor_balance, 1_000_000 - 600);
}

#[test]
fn partial_funding_accumulates() {
    let c = setup();
    let mut p = create(&c);
    ProgrammeContract::fund(&mut p, 300).unwrap();
    ProgrammeContract::fund(&mut p, 250).unwrap();
    assert_eq!(p.funded, 550);
}

#[test]
fn claim_twice_fails() {
    let c = setup();
    let mut p = create(&c);
    ProgrammeContract::fund(&mut p, 1_000).unwrap();
    ProgrammeContract::claim(&mut p, 0, hash(20), DAY).unwrap();
    let e = ProgrammeContract::claim(&mut p, 0, hash(21), DAY).err().unwrap();
    assert_eq!(e, Error::MilestoneNotClaimable);
}

#[test]
fn approve_before_claim_fails() {
    let c = setup();
    let mut p = create(&c);
    ProgrammeContract::fund(&mut p, 1_000).unwrap();
    let e = ProgrammeContract::approve(&mut p, 0).err().unwrap();
    assert_eq!(e, Error::MilestoneNotClaimed);
}

#[test]
fn approve_beyond_funded_fails() {
    let c = setup();
    let mut p = create(&c);
    // Milestone 0 needs 600; fund only 500.
    ProgrammeContract::fund(&mut p, 500).unwrap();
    ProgrammeContract::claim(&mut p, 0, hash(20), DAY).unwrap();
    let e = ProgrammeContract::approve(&mut p, 0).err().unwrap();
    assert_eq!(e, Error::InsufficientFunding);
}

#[test]
fn disburse_above_released_fails() {
    let c = setup();
    let mut p = create(&c);
    ProgrammeContract::fund(&mut p, 1_000).unwrap();
    ProgrammeContract::claim(&mut p, 0, hash(20), DAY).unwrap();
    ProgrammeContract::approve(&mut p, 0).unwrap(); // releases 600
    let (root, _, _, count) = build_batch(&c.env, 10, 30);
    let e = ProgrammeContract::disburse(&mut p, root, 700, count, DAY).err().unwrap();
    assert_eq!(e, Error::InsufficientReleased);
}

#[test]
fn refund_before_end_fails_after_end_succeeds() {
    let c = setup();
    let mut p = create(&c);
    ProgrammeContract::fund(&mut p, 1_000).unwrap();

    let e = ProgrammeContract::refund_remainder(&mut p, DAY).err().unwrap();
    assert_eq!(e, Error::NotEnded);

    let refunded = ProgrammeContract::refund_remainder(&mut p, 21 * DAY).unwrap();
    assert_eq!(refunded.amount, 1_000);
}

#[test]
fn late_claim_flagged_not_blocked() {
    let c = setup();
    let mut p = create(&c);
    ProgrammeContract::fund(&mut p, 1_000).unwrap();
    // Milestone 0 is due on day 10; claim on day 15.
    let ev = ProgrammeContract::claim(&mut p, 0, hash(20), 15 * DAY).unwrap();
    let st = p.milestone_states[0];
    assert_eq!(st.status, MilestoneStatus::Claimed);
    assert!(st.claimed_late);
    assert!(ev.claimed_late);
}

#[test]
fn on_time_claim_not_flagged() {
    let c = setup();
    let mut p = create(&c);
    ProgrammeContract::fund(&mut p, 1_000).unwrap();
    ProgrammeContract::claim(&mut p, 0, hash(20), DAY).unwrap();
    let st = p.milestone_states[0];
    assert!(!st.claimed_late);
}

#[test]
fn reject_then_reclaim() {
    let c = setup();
    let mut p = create(&c);
    ProgrammeContract::fund(&mut p, 1_000).unwrap();
    ProgrammeContract::claim(&mut p, 0, hash(20), DAY).unwrap();
    ProgrammeContract::reject(&mut p, 0, hash(40)).unwrap();
    let st = p.milestone_states[0];
    assert_eq!(st.status, MilestoneStatus::Rejected);
    assert_eq!(st.reason_hash, Some(hash(40)));

    // Re-claim is allowed after rejection.
    ProgrammeContract::claim(&mut p, 0, hash(21), DAY).unwrap();
    ProgrammeContract::approve(&mut p, 0).unwrap();
    assert_eq!(p.released, 600);
}

#[test]
fn panel_and_oracle_approvers_unimplemented() {
    let c = setup();
    // Creation with a panel config is allowed; acting on it is what fails.
    let mut p = create_with(&c, ApproverConfig::Panel(vec![c.approver.clone()], 1));
    ProgrammeContract::fund(&mut p, 1_000).unwrap();
    ProgrammeContract::claim(&mut p, 0, hash(20), DAY).unwrap();
    let e = ProgrammeContract::approve(&mut p, 0).err().unwrap();
    assert_eq!(e, Error::ApproverKindUnimplemented);
}

#[test]
fn claim_requires_implementer_auth() {
    let c = setup();
    let mut p = create(&c);
    ProgrammeContract::fund(&mut p, 1_000).unwrap();
    let op = Op::Claim { milestone_index: 0, evidence_hash: hash(20), now: DAY };
    let signer = ProgrammeContract::authoriser(&p, &op).unwrap().clone();
    assert_eq!(signer, c.implementer);
    ProgrammeContract::claim(&mut p, 0, hash(20), DAY).unwrap();
}

#[test]
fn approve_requires_approver_auth() {
    let c = setup();
    let mut p = create(&c);
    ProgrammeContract::fund(&mut p, 1_000).unwrap();
    ProgrammeContract::claim(&mut p, 0, hash(20), DAY).unwrap();
    let signer = ProgrammeContract::authoriser(&p, &Op::Approve { milestone_index: 0 })
        .unwrap()
        .clone();
    assert_eq!(signer, c.approver);
    ProgrammeContract::approve(&mut p, 0).unwrap();
}

#[test]
fn claim_by_stranger_is_rejected() {
    let c = setup();
    let mut p = create(&c);
    ProgrammeContract::fund(&mut p, 1_000).unwrap();

    let stranger = Address::generate(&c.env);
    let op = Op::Claim { milestone_index: 0, evidence_hash: hash(20), now: DAY };
    let signer = ProgrammeContract::authoriser(&p, &op).unwrap();
    assert!(*signer != stranger);
}

#[test]
fn invalid_amounts_rejected() {
    let c = setup();
    let e = ProgrammeContract::create_programme(
        0,
        c.sponsor.clone(),
        c.implementer.clone(),
        c.asset.clone(),
        0,
        milestones(),
        ApproverConfig::Single(c.approver.clone()),
        hash(9),
        DAY,
    )
    .err()
    .unwrap();
    assert_eq!(e, Error::InvalidAmount);

    let mut p = create(&c);
    let e = ProgrammeContract::fund(&mut p, 0).err().unwrap();
    assert_eq!(e, Error::InvalidAmount);
}

#[test]
fn invalid_batch_rejected() {
    let c = setup();
    let mut p = create(&c);
    ProgrammeContract::fund(&mut p, 1_000).unwrap();
    ProgrammeContract::claim(&mut p, 0, hash(20), DAY).unwrap();
    ProgrammeContract::approve(&mut p, 0).unwrap();
    let e = ProgrammeContract::disburse(&mut p, hash(50), 600, 0, DAY).err().unwrap();
    assert_eq!(e, Error::InvalidBatch);
}

#[test]
fn verify_inclusion_rejects_bad_proof_and_unknown_batch() {
    let c = setup();
    let mut p = create(&c);
    ProgrammeContract::fund(&mut p, 1_000).unwrap();
    ProgrammeContract::claim(&mut p, 0, hash(20), DAY).unwrap();
    ProgrammeContract::approve(&mut p, 0).unwrap();
    let (root, leaves, total, count) = build_batch(&c.env, 4, 60);
    let (batch, _) = ProgrammeContract::disburse(&mut p, root, total, count, DAY).unwrap();

    // Wrong proof fails.
    let leaf = leaves[0];
    let bad = vec![hash(200)];
    assert!(!ProgrammeContract::verify_inclusion(&c.env, Some(batch), leaf, &bad));
    // Unknown batch index fails: no batch 7 was ever recorded.
    let good = merkle_proof(&c.env, &leaves, 0);
    assert!(ProgrammeContract::verify_inclusion(&c.env, Some(batch), leaf, &good));
    let unknown: Option<DisbursementBatch> = None;
    assert!(!ProgrammeContract::verify_inclusion(&c.env, unknown, leaf, &good));
}

#[test]
fn merkle_tree_roundtrip() {
    let env = Env::default();
    for n in [1u32, 2, 3, 5, 8, 50] {
        let (root, leaves, _, _) = build_batch(&env, n, 100);
        for i in 0..leaves.len() {
            let proof = merkle_proof(&env, &leaves, i);
            assert!(merkle::verify(&env, &leaves[i], &proof, &root), "leaf {i} of {n} failed");
        }
    }
}
