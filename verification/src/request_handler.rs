//! What the webhook endpoints read from an HTTP request before anything is
//! dispatched: the subscription handshake and the host the request was sent to.

use crate::text::str_eq;
use vstd::prelude::*;
use vstd::string::*;

verus! {

/// Why a subscription handshake was refused.
#[derive(Debug)]
pub enum WebHookError<'a> {
    /// All three arguments were there, but the mode or the token was wrong.
    VerificationFailed(&'a str),
    /// `hub.mode`, `hub.challenge` or `hub.verify_token` was missing.
    ArgsNotEnough,
}

/// A handshake that was granted: the challenge to send back.
pub struct WebHookQuery {
    pub hub_challenge: String,
}

/// The query segments of a request as pairs of character sequences.
pub open spec fn segments_view(args: Seq<(String, String)>) -> Seq<(Seq<char>, Seq<char>)> {
    Seq::new(args.len(), |i: int| (args[i].0@, args[i].1@))
}

/// The value of the last segment named `key`, if there is one.
pub open spec fn last_value(args: Seq<(Seq<char>, Seq<char>)>, key: Seq<char>) -> Option<
    Seq<char>,
>
    decreases args.len(),
{
    if args.len() == 0 {
        None
    } else if args.last().0 == key {
        Some(args.last().1)
    } else {
        last_value(args.drop_last(), key)
    }
}

/// Whether all three handshake arguments occur among the segments.
pub open spec fn args_enough(args: Seq<(Seq<char>, Seq<char>)>) -> bool {
    &&& last_value(args, "hub.mode"@) is Some
    &&& last_value(args, "hub.challenge"@) is Some
    &&& last_value(args, "hub.verify_token"@) is Some
}

/// Whether the segments ask to subscribe and carry the expected token.
pub open spec fn token_accepted(args: Seq<(Seq<char>, Seq<char>)>, verify_token: Seq<char>) -> bool {
    &&& last_value(args, "hub.mode"@) == Some("subscribe"@)
    &&& last_value(args, "hub.verify_token"@) == Some(verify_token)
}

proof fn last_value_step(args: Seq<(Seq<char>, Seq<char>)>, i: int, key: Seq<char>)
    requires
        0 <= i < args.len(),
    ensures
        last_value(args.take(i + 1), key) == if args[i].0 == key {
            Some(args[i].1)
        } else {
            last_value(args.take(i), key)
        },
{
    assert(args.take(i + 1).drop_last() == args.take(i));
}

proof fn names_differ()
    ensures
        "hub.mode"@ != "hub.challenge"@,
        "hub.mode"@ != "hub.verify_token"@,
        "hub.challenge"@ != "hub.verify_token"@,
{
    reveal_strlit("hub.mode");
    reveal_strlit("hub.challenge");
    reveal_strlit("hub.verify_token");
    assert("hub.mode"@.len() == 8);
    assert("hub.challenge"@.len() == 13);
    assert("hub.verify_token"@.len() == 16);
}

impl WebHookQuery {
    /// Checks a subscription handshake against the token this server expects.
    ///
    /// `args` are the segments of the request's query, in order; where a name
    /// occurs more than once its last value counts. The handshake is granted
    /// when the mode is `subscribe` and the token is `verify_token`.
    pub fn from_segments<'a>(args: &Vec<(String, String)>, verify_token: &str) -> (outcome: Result<
        WebHookQuery,
        WebHookError<'a>,
    >)
        ensures
            match outcome {
                Ok(query) => {
                    &&& args_enough(segments_view(args@))
                    &&& token_accepted(segments_view(args@), verify_token@)
                    &&& Some(query.hub_challenge@) == last_value(
                        segments_view(args@),
                        "hub.challenge"@,
                    )
                },
                Err(WebHookError::VerificationFailed(reason)) => {
                    &&& args_enough(segments_view(args@))
                    &&& !token_accepted(segments_view(args@), verify_token@)
                    &&& reason@ == "Token mismatch"@
                },
                Err(WebHookError::ArgsNotEnough) => !args_enough(segments_view(args@)),
            },
    {
        let ghost segments = segments_view(args@);
        let mut hub_mode: Option<&String> = None;
        let mut hub_challenge: Option<&String> = None;
        let mut token: Option<&String> = None;
        let mut i: usize = 0;
        while i < args.len()
            invariant
                i <= args.len(),
                segments == segments_view(args@),
                last_value(segments.take(i as int), "hub.mode"@) == match hub_mode {
                    Some(v) => Some(v@),
                    None => None,
                },
                last_value(segments.take(i as int), "hub.challenge"@) == match hub_challenge {
                    Some(v) => Some(v@),
                    None => None,
                },
                last_value(segments.take(i as int), "hub.verify_token"@) == match token {
                    Some(v) => Some(v@),
                    None => None,
                },
            decreases args.len() - i,
        {
            proof {
                last_value_step(segments, i as int, "hub.mode"@);
                last_value_step(segments, i as int, "hub.challenge"@);
                last_value_step(segments, i as int, "hub.verify_token"@);
                names_differ();
            }
            let key = args[i].0.as_str();
            if str_eq(key, "hub.mode") {
                hub_mode = Some(&args[i].1);
            } else if str_eq(key, "hub.challenge") {
                hub_challenge = Some(&args[i].1);
            } else if str_eq(key, "hub.verify_token") {
                token = Some(&args[i].1);
            }
            i += 1;
        }
        assert(segments.take(i as int) == segments);
        match (hub_mode, hub_challenge, token) {
            (Some(hub_mode), Some(hub_challenge), Some(token)) => {
                if str_eq(hub_mode.as_str(), "subscribe") && str_eq(
                    verify_token,
                    token.as_str(),
                ) {
                    Ok(WebHookQuery { hub_challenge: hub_challenge.clone() })
                } else {
                    Err(WebHookError::VerificationFailed("Token mismatch"))
                }
            },
            _ => Err(WebHookError::ArgsNotEnough),
        }
    }
}

/// The host a request was addressed to.
pub struct RussengerRequest {
    pub host: String,
}

impl RussengerRequest {
    /// Keeps the host of a request; a request that names none is refused.
    pub fn from_host(host: Option<&str>) -> (outcome: Result<RussengerRequest, ()>)
        ensures
            match outcome {
                Ok(request) => host matches Some(h) && request.host@ == h@,
                Err(_) => host is None,
            },
    {
        match host {
            Some(host) => Ok(RussengerRequest { host: host.to_owned() }),
            None => Err(()),
        }
    }
}

} // verus!
