use live_tracking::friends::{
    friendship_pair, is_pending, plan_acceptance, Acceptance, FriendRequestForm, GetFriendRequestsQuery,
    StoredRequest,
};

fn stored(sender_id: i32, receiver_id: i32, status: &str) -> Option<StoredRequest> {
    Some(StoredRequest { sender_id, receiver_id, status: status.to_string() })
}

#[test]
fn pending_status_is_exact() {
    assert!(is_pending(&"pending".to_string()));
    assert!(!is_pending(&"accepted".to_string()));
    assert!(!is_pending(&"Pending".to_string()));
    assert!(!is_pending(&String::new()));
}

#[test]
fn friendship_pair_orders_ids() {
    assert_eq!(friendship_pair(7, 3), (3, 7));
    assert_eq!(friendship_pair(3, 7), (3, 7));
    assert_eq!(friendship_pair(-2, -2), (-2, -2));
}

#[test]
fn acceptance_outcomes() {
    assert_eq!(plan_acceptance(&None), Acceptance::NotFound);
    assert_eq!(plan_acceptance(&stored(1, 2, "accepted")), Acceptance::NotPending);
    assert_eq!(
        plan_acceptance(&stored(9, 4, "pending")),
        Acceptance::Befriend { user1_id: 4, user2_id: 9 }
    );
}

#[test]
fn forms_carry_their_ids() {
    let f = FriendRequestForm { sender_id: 1, receiver_id: 2 };
    assert_eq!(f, FriendRequestForm { sender_id: 1, receiver_id: 2 });
    assert_eq!(GetFriendRequestsQuery { user_id: 5 }.user_id, 5);
}
