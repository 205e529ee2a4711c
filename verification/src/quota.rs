//! What the library reads of the live subscription quota: the OAuth
//! credentials of the coding assistant and the plan they describe.
use vstd::prelude::*;
use crate::text::{chars_of, push_str, string_of, owned};

verus! {

/// The OAuth credentials that the coding assistant stores.
pub struct Credentials {
    pub access_token: String,
    pub subscription_type: Option<String>,
    pub rate_limit_tier: Option<String>,
}

/// The plan shown in the title of the live quota panel: subscription type
/// and rate-limit tier when the credentials name a subscription type.
pub open spec fn spec_quota_plan_label(c: Option<Credentials>) -> Seq<char> {
    match c {
        Some(c) => match c.subscription_type {
            Some(sub) => sub@ + " • "@ + (match c.rate_limit_tier {
                Some(t) => t@,
                None => Seq::<char>::empty(),
            }),
            None => "live plan quota"@,
        },
        None => "live plan quota"@,
    }
}

pub fn quota_plan_label(c: &Option<Credentials>) -> (s: String)
    ensures
        s@ == spec_quota_plan_label(*c),
{
    match c {
        Some(cr) => match &cr.subscription_type {
            Some(sub) => {
                let mut out = chars_of(sub.as_str());
                push_str(&mut out, " • ");
                match &cr.rate_limit_tier {
                    Some(t) => push_str(&mut out, t.as_str()),
                    None => {},
                }
                proof {
                    if cr.rate_limit_tier is None {
                        assert(out@ =~= sub@ + " • "@ + Seq::<char>::empty());
                    }
                }
                string_of(&out)
            },
            None => owned("live plan quota"),
        },
        None => owned("live plan quota"),
    }
}

/// The value of the `Authorization` header for the quota request.
pub fn authorization_value(c: &Credentials) -> (s: String)
    ensures
        s@ == "Bearer "@ + c.access_token@,
{
    let mut out = chars_of("Bearer ");
    push_str(&mut out, c.access_token.as_str());
    string_of(&out)
}

} // verus!
