//! What a hub wants when it calls back to verify a subscription.

use vstd::prelude::*;
use vstd::string::*;
use vstd::utf8::*;

use crate::fields::{law_number_is_read_back, parse_u64, parse_u64_spec};
use crate::text::{number_text, text_eq};
use crate::urls::pairs_model;

verus! {

/// What a hub wants.
pub enum Intent {
    /// Nothing that concerns the subscription.
    Unrelated,
    /// A lease whose length is no number.
    BadLease,
    /// To confirm a subscription for so many seconds.
    Subscribe { challenge: String, lease_seconds: u64 },
    /// To confirm the end of a subscription.
    Unsubscribe { challenge: String },
    /// To turn a subscription down.
    Denied,
}

/// What a hub wants, as the contracts speak of it.
#[verifier::ext_equal]
pub enum IntentModel {
    Unrelated,
    BadLease,
    Subscribe { challenge: Seq<char>, lease_seconds: u64 },
    Unsubscribe { challenge: Seq<char> },
    Denied,
}

impl View for Intent {
    type V = IntentModel;

    open spec fn view(&self) -> IntentModel {
        match *self {
            Intent::Unrelated => IntentModel::Unrelated,
            Intent::BadLease => IntentModel::BadLease,
            Intent::Subscribe { challenge, lease_seconds } => IntentModel::Subscribe {
                challenge: challenge@,
                lease_seconds,
            },
            Intent::Unsubscribe { challenge } => IntentModel::Unsubscribe { challenge: challenge@ },
            Intent::Denied => IntentModel::Denied,
        }
    }
}

/// The last value under a name.
pub open spec fn last_value(pairs: Seq<(Seq<char>, Seq<char>)>, name: Seq<char>) -> Option<
    Seq<char>,
>
    decreases pairs.len(),
{
    if pairs.len() == 0 {
        None
    } else if pairs.last().0 == name {
        Some(pairs.last().1)
    } else {
        last_value(pairs.drop_last(), name)
    }
}

/// Whether a query names another topic than `topic`.
pub open spec fn names_other_topic(
    pairs: Seq<(Seq<char>, Seq<char>)>,
    topic: Seq<char>,
) -> bool {
    exists|i: int|
        0 <= i < pairs.len() && (#[trigger] pairs[i]).0 == "hub.topic"@ && pairs[i].1 != topic
}

/// What a hub wants from the subscriber to `topic` that it calls with these parameters.
pub open spec fn intent_spec(
    pairs: Seq<(Seq<char>, Seq<char>)>,
    topic: Seq<char>,
) -> IntentModel {
    let lease = match last_value(pairs, "hub.lease_seconds"@) {
        Some(text) => text,
        None => Seq::empty(),
    };
    if names_other_topic(pairs, topic) {
        IntentModel::Unrelated
    } else {
        match (last_value(pairs, "hub.challenge"@), last_value(pairs, "hub.mode"@)) {
            (Some(challenge), Some(mode)) => if mode == "subscribe"@ {
                match parse_u64_spec(encode_utf8(lease)) {
                    Some(lease_seconds) => IntentModel::Subscribe { challenge, lease_seconds },
                    None => IntentModel::BadLease,
                }
            } else if mode == "unsubscribe"@ {
                IntentModel::Unsubscribe { challenge }
            } else if mode == "denied"@ {
                IntentModel::Denied
            } else {
                IntentModel::Unrelated
            },
            _ => IntentModel::Unrelated,
        }
    }
}

fn get_last(pairs: &Vec<(String, String)>, name: &str) -> (r: Option<String>)
    ensures
        match r {
            Some(value) => last_value(pairs_model(pairs@), name@) == Some(value@),
            None => last_value(pairs_model(pairs@), name@) is None,
        },
{
    let ghost all = pairs_model(pairs@);
    let mut i: usize = pairs.len();
    assert(all.take(i as int) =~= all);
    while i > 0
        invariant
            i <= pairs@.len(),
            all == pairs_model(pairs@),
            last_value(all, name@) == last_value(all.take(i as int), name@),
        decreases i,
    {
        let ghost left = all.take(i as int);
        assert(left.drop_last() =~= all.take(i - 1));
        assert(left.last() == (pairs@[i - 1].0@, pairs@[i - 1].1@));
        if text_eq(pairs[i - 1].0.as_str(), name) {
            return Some(pairs[i - 1].1.clone());
        }
        i = i - 1;
    }
    assert(all.take(0) =~= Seq::<(Seq<char>, Seq<char>)>::empty());
    None
}

fn has_other_topic(pairs: &Vec<(String, String)>, topic: &str) -> (r: bool)
    ensures
        r == names_other_topic(pairs_model(pairs@), topic@),
{
    let ghost all = pairs_model(pairs@);
    let mut i: usize = 0;
    while i < pairs.len()
        invariant
            i <= pairs@.len(),
            all == pairs_model(pairs@),
            forall|j: int|
                0 <= j < i ==> (#[trigger] all[j]).0 != "hub.topic"@ || all[j].1 == topic@,
        decreases pairs@.len() - i,
    {
        assert(all[i as int] == (pairs@[i as int].0@, pairs@[i as int].1@));
        if text_eq(pairs[i].0.as_str(), "hub.topic") && !text_eq(pairs[i].1.as_str(), topic) {
            return true;
        }
        i = i + 1;
    }
    false
}

/// Reads what a hub wants from the parameters of its call.
pub fn read_intent(pairs: &Vec<(String, String)>, topic: &str) -> (r: Intent)
    ensures
        r@ == intent_spec(pairs_model(pairs@), topic@),
{
    if has_other_topic(pairs, topic) {
        return Intent::Unrelated;
    }
    let challenge = match get_last(pairs, "hub.challenge") {
        Some(challenge) => challenge,
        None => {
            return Intent::Unrelated;
        },
    };
    let mode = match get_last(pairs, "hub.mode") {
        Some(mode) => mode,
        None => {
            return Intent::Unrelated;
        },
    };
    if text_eq(mode.as_str(), "subscribe") {
        let lease = match get_last(pairs, "hub.lease_seconds") {
            Some(text) => text,
            None => String::new(),
        };
        match parse_u64(lease.as_str().as_bytes()) {
            Some(lease_seconds) => Intent::Subscribe { challenge, lease_seconds },
            None => Intent::BadLease,
        }
    } else {
        if text_eq(mode.as_str(), "unsubscribe") {
            proof {
                reveal_strlit("subscribe");
                reveal_strlit("unsubscribe");
            }
            Intent::Unsubscribe { challenge }
        } else if text_eq(mode.as_str(), "denied") {
            Intent::Denied
        } else {
            Intent::Unrelated
        }
    }
}

/// Without a challenge nothing is confirmed.
pub proof fn law_no_challenge_no_confirmation(
    pairs: Seq<(Seq<char>, Seq<char>)>,
    topic: Seq<char>,
)
    requires
        last_value(pairs, "hub.challenge"@) is None,
    ensures
        intent_spec(pairs, topic) is Unrelated,
{
}

/// A call that names another topic is not about this subscription, whatever else it says.
pub proof fn law_other_topic_is_unrelated(
    pairs: Seq<(Seq<char>, Seq<char>)>,
    topic: Seq<char>,
    i: int,
)
    requires
        0 <= i < pairs.len(),
        pairs[i].0 == "hub.topic"@,
        pairs[i].1 != topic,
    ensures
        intent_spec(pairs, topic) is Unrelated,
{
}

/// A hub that sends back the mode that was requested, and no other topic, with a challenge and a
/// lease, has the subscription confirmed for that lease.
pub proof fn law_requested_subscription_is_confirmed(
    pairs: Seq<(Seq<char>, Seq<char>)>,
    topic: Seq<char>,
    challenge: Seq<char>,
    lease_seconds: u64,
)
    requires
        !names_other_topic(pairs, topic),
        last_value(pairs, "hub.mode"@) == Some("subscribe"@),
        last_value(pairs, "hub.challenge"@) == Some(challenge),
        last_value(pairs, "hub.lease_seconds"@) == Some(number_text(lease_seconds as nat, 10)),
    ensures
        intent_spec(pairs, topic) == (IntentModel::Subscribe { challenge, lease_seconds }),
{
    law_number_is_read_back(lease_seconds);
}

/// Of several values under a name the last counts, wherever it stands and whatever stands before it.
pub proof fn law_last_value_counts(
    pairs: Seq<(Seq<char>, Seq<char>)>,
    name: Seq<char>,
    i: int,
)
    requires
        0 <= i < pairs.len(),
        pairs[i].0 == name,
        forall|j: int| i < j < pairs.len() ==> (#[trigger] pairs[j]).0 != name,
    ensures
        last_value(pairs, name) == Some(pairs[i].1),
    decreases pairs.len(),
{
    if i < pairs.len() - 1 {
        assert(pairs[pairs.len() - 1].0 != name);
        law_last_value_counts(pairs.drop_last(), name, i);
    }
}

/// There is no value under a name that does not occur.
pub proof fn law_no_name_no_value(pairs: Seq<(Seq<char>, Seq<char>)>, name: Seq<char>)
    requires
        forall|j: int| 0 <= j < pairs.len() ==> (#[trigger] pairs[j]).0 != name,
    ensures
        last_value(pairs, name) is None,
    decreases pairs.len(),
{
    if pairs.len() > 0 {
        assert(pairs[pairs.len() - 1].0 != name);
        law_no_name_no_value(pairs.drop_last(), name);
    }
}

/// What a hub wants is what its mode says, if it names no topic but this one and sends a challenge:
/// to subscribe, for a lease that is a number of seconds; to unsubscribe; or to deny. The challenge
/// goes back as it came. Any other mode, and none, wants nothing.
pub proof fn law_mode_says_what_is_wanted(
    pairs: Seq<(Seq<char>, Seq<char>)>,
    topic: Seq<char>,
    challenge: Seq<char>,
)
    requires
        forall|i: int|
            0 <= i < pairs.len() ==> (#[trigger] pairs[i]).0 != "hub.topic"@ || pairs[i].1 == topic,
        last_value(pairs, "hub.challenge"@) == Some(challenge),
    ensures
        ({
            let mode = last_value(pairs, "hub.mode"@);
            let lease = last_value(pairs, "hub.lease_seconds"@);
            let intent = intent_spec(pairs, topic);
            &&& mode == Some("subscribe"@) ==> match lease {
                Some(text) => match parse_u64_spec(encode_utf8(text)) {
                    Some(lease_seconds) => intent == (IntentModel::Subscribe {
                        challenge,
                        lease_seconds,
                    }),
                    None => intent is BadLease,
                },
                None => intent is BadLease,
            }
            &&& mode == Some("unsubscribe"@) ==> intent == (IntentModel::Unsubscribe { challenge })
            &&& mode == Some("denied"@) ==> intent is Denied
            &&& mode != Some("subscribe"@) && mode != Some("unsubscribe"@) && mode != Some(
                "denied"@,
            ) ==> intent is Unrelated
        }),
{
    reveal_strlit("subscribe");
    reveal_strlit("unsubscribe");
    reveal_strlit("denied");
    assert("subscribe"@.len() == 9);
    assert("unsubscribe"@.len() == 11);
    assert("denied"@.len() == 6);
    assert(encode_utf8(Seq::<char>::empty()).len() == 0);
}

/// What a hub wants is what its fields hold.
pub proof fn law_model_is_the_fields(intent: Intent)
    ensures
        match intent {
            Intent::Unrelated => intent@ is Unrelated,
            Intent::BadLease => intent@ is BadLease,
            Intent::Subscribe { challenge, lease_seconds } => intent@ == (IntentModel::Subscribe {
                challenge: challenge@,
                lease_seconds,
            }),
            Intent::Unsubscribe { challenge } => intent@ == (IntentModel::Unsubscribe {
                challenge: challenge@,
            }),
            Intent::Denied => intent@ is Denied,
        },
{
}

} // verus!
