use vstd::prelude::*;
use vstd::string::StringExecFns;

verus! {

/// A request from one account to befriend another.
#[derive(Clone, Copy, Debug, PartialEq, Eq, Structural)]
pub struct FriendRequestForm {
    pub sender_id: i32,
    pub receiver_id: i32,
}

/// Asks for the friend requests that an account sent or received.
#[derive(Clone, Copy, Debug, PartialEq, Eq, Structural)]
pub struct GetFriendRequestsQuery {
    pub user_id: i32,
}

/// A stored friend request, as far as accepting it needs.
pub struct StoredRequest {
    pub sender_id: i32,
    pub receiver_id: i32,
    pub status: String,
}

/// What accepting a request comes to.
#[derive(Clone, Copy, Debug, PartialEq, Eq, Structural)]
pub enum Acceptance {
    /// No request has the given id.
    NotFound,
    /// The request was already answered.
    NotPending,
    /// Record the friendship, the smaller account id first, then mark the
    /// request accepted.
    Befriend { user1_id: i32, user2_id: i32 },
}

/// The status of a request that awaits an answer.
pub open spec fn pending_status() -> Seq<char> {
    seq!['p', 'e', 'n', 'd', 'i', 'n', 'g']
}

/// Whether a request still awaits an answer.
pub fn is_pending(status: &String) -> (r: bool)
    ensures
        r == (status@ == pending_status()),
{
    let pending = String::from_str("pending");
    proof {
        reveal_strlit("pending");
        assert(pending@ =~= pending_status());
    }
    *status == pending
}

/// The two members of a friendship in the order it is stored: smaller id first.
pub fn friendship_pair(a: i32, b: i32) -> (r: (i32, i32))
    ensures
        r == (if a <= b {
            (a, b)
        } else {
            (b, a)
        }),
{
    if a <= b {
        (a, b)
    } else {
        (b, a)
    }
}

/// Decides on a request to accept, given what the store found under its id.
pub fn plan_acceptance(found: &Option<StoredRequest>) -> (r: Acceptance)
    ensures
        r == (match found {
            None => Acceptance::NotFound,
            Some(req) => if req.status@ != pending_status() {
                Acceptance::NotPending
            } else if req.sender_id <= req.receiver_id {
                Acceptance::Befriend { user1_id: req.sender_id, user2_id: req.receiver_id }
            } else {
                Acceptance::Befriend { user1_id: req.receiver_id, user2_id: req.sender_id }
            },
        }),
{
    match found {
        None => Acceptance::NotFound,
        Some(req) => {
            if !is_pending(&req.status) {
                Acceptance::NotPending
            } else {
                let (user1_id, user2_id) = friendship_pair(req.sender_id, req.receiver_id);
                Acceptance::Befriend { user1_id, user2_id }
            }
        },
    }
}

} // verus!
