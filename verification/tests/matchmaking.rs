use chat_relay::matchmaker::{PairingOutcome, WaitingPool};
use chat_relay::room::generate_room_id;

fn room_of(pool: &WaitingPool, name: &str) -> Option<String> {
    pool.room_of(&name.to_string())
}

#[test]
fn first_request_waits() {
    let mut pool = WaitingPool::new();
    let r = pool.request_pairing("alice".to_string());
    assert!(matches!(r, PairingOutcome::Waiting));
    assert_eq!(pool.len(), 1);
    assert_eq!(room_of(&pool, "alice"), None);
}

#[test]
fn second_request_pairs_both_into_same_room() {
    let mut pool = WaitingPool::new();
    assert!(matches!(pool.request_pairing("alice".to_string()), PairingOutcome::Waiting));
    let r = pool.request_pairing("bob".to_string());
    let id = match r {
        PairingOutcome::Matched(id) => id,
        PairingOutcome::Waiting => panic!("bob should have joined alice's room"),
    };
    assert!(!id.is_empty());
    assert_eq!(room_of(&pool, "alice"), Some(id.clone()));
    assert_eq!(room_of(&pool, "bob"), Some(id));
}

#[test]
fn room_ids_are_six_decimal_digits() {
    for _ in 0..50 {
        let id = generate_room_id();
        assert_eq!(id.chars().count(), 6);
        assert!(id.chars().all(|c| c.is_ascii_digit()));
    }
    let mut pool = WaitingPool::new();
    pool.request_pairing("alice".to_string());
    match pool.request_pairing("bob".to_string()) {
        PairingOutcome::Matched(id) => {
            assert_eq!(id.len(), 6);
            assert!(id.chars().all(|c| c.is_ascii_digit()));
        }
        PairingOutcome::Waiting => panic!("expected a match"),
    }
}

#[test]
fn same_username_never_matches_itself() {
    let mut pool = WaitingPool::new();
    assert!(matches!(pool.request_pairing("alice".to_string()), PairingOutcome::Waiting));
    // A second request from the same name must not pair alice with herself.
    assert!(matches!(pool.request_pairing("alice".to_string()), PairingOutcome::Waiting));
    assert_eq!(pool.len(), 1);
    assert_eq!(room_of(&pool, "alice"), None);
}

#[test]
fn release_clears_room_and_allows_repairing() {
    let mut pool = WaitingPool::new();
    pool.request_pairing("alice".to_string());
    let first = match pool.request_pairing("bob".to_string()) {
        PairingOutcome::Matched(id) => id,
        PairingOutcome::Waiting => panic!("expected a match"),
    };
    pool.release(&"alice".to_string());
    assert_eq!(room_of(&pool, "alice"), None);
    assert_eq!(room_of(&pool, "bob"), Some(first));
    // Alice is waiting again, so carol pairs with her.
    match pool.request_pairing("carol".to_string()) {
        PairingOutcome::Matched(id) => {
            assert_eq!(room_of(&pool, "alice"), Some(id.clone()));
            assert_eq!(room_of(&pool, "carol"), Some(id));
        }
        PairingOutcome::Waiting => panic!("carol should have paired with released alice"),
    }
}

#[test]
fn release_of_absent_username_is_a_no_op() {
    let mut pool = WaitingPool::new();
    pool.request_pairing("alice".to_string());
    pool.release(&"nobody".to_string());
    assert_eq!(pool.len(), 1);
    assert_eq!(room_of(&pool, "alice"), None);
}

#[test]
fn n_distinct_users_form_floor_n_half_pairs() {
    // Six fresh usernames: exactly three pairs, nobody left waiting,
    // nobody matched twice, no half-assigned room.
    let names = ["u1", "u2", "u3", "u4", "u5", "u6"];
    let mut pool = WaitingPool::new();
    let mut matched: usize = 0;
    for name in names {
        if let PairingOutcome::Matched(_) = pool.request_pairing(name.to_string()) {
            matched += 1;
        }
    }
    assert_eq!(matched, 3);
    let rooms: Vec<Option<String>> = names.iter().map(|n| room_of(&pool, n)).collect();
    assert!(rooms.iter().all(|r| r.is_some()));
    // Pairs formed in arrival order: (u1,u2), (u3,u4), (u5,u6).
    assert_eq!(rooms[0], rooms[1]);
    assert_eq!(rooms[2], rooms[3]);
    assert_eq!(rooms[4], rooms[5]);

    // An odd seventh user is the single leftover waiter.
    assert!(matches!(pool.request_pairing("u7".to_string()), PairingOutcome::Waiting));
    assert_eq!(room_of(&pool, "u7"), None);
}
