//! What a person is in an organization, in words.

use crate::text::same;
use vstd::prelude::*;

verus! {

/// What a person is in an organization.
#[derive(Debug)]
pub struct Membership {
    /// The role in force.
    pub role: String,
    /// Until when, for a guest.
    pub not_after: Option<String>,
    /// How a guest membership ended, where it did.
    pub membership_ended: Option<String>,
    /// Whether an administrator counts as a guest.
    pub demoted_to_guest: bool,
}

/// The membership in words, before what is said of an administrator.
pub open spec fn standing(me: Membership) -> Seq<char> {
    match me.membership_ended {
        Some(ended) => if ended@ == "expired"@ {
            match me.not_after {
                Some(at) => "guest -- membership expired"@ + " at "@ + at@,
                None => "guest -- membership expired"@,
            }
        } else if ended@ == "revoked"@ {
            "guest -- membership was revoked"@
        } else if ended@ == "promoted"@ {
            me.role@ + " (was a guest; promoted)"@
        } else {
            me.role@ + " (membership ended: "@ + ended@ + ")"@
        },
        None => if me.role@ == "guest"@ {
            match me.not_after {
                Some(until) => "guest (until "@ + until@ + ")"@,
                None => "guest (the server did not say until when)"@,
            }
        } else {
            me.role@
        },
    }
}

/// The membership in words.
pub open spec fn describe_spec(me: Membership) -> Seq<char> {
    if me.demoted_to_guest && me.membership_ended is None {
        standing(me) + " -- an administrator here, but the guest membership wins"@
    } else {
        standing(me)
    }
}

impl Membership {
    /// Whether the role is that of a guest.
    pub fn is_guest(&self) -> (r: bool)
        ensures
            r == (self.role@ == "guest"@),
    {
        same(self.role.as_str(), "guest")
    }
}

/// The membership in words. One that has ended is not shown as the role that
/// it left behind.
pub fn describe(me: &Membership) -> (line: String)
    ensures
        line@ == describe_spec(*me),
{
    let mut line = match &me.membership_ended {
        Some(ended) => {
            if same(ended.as_str(), "expired") {
                let mut line = "guest -- membership expired".to_owned();
                if let Some(at) = &me.not_after {
                    line.push_str(" at ");
                    line.push_str(at.as_str());
                }
                line
            } else if same(ended.as_str(), "revoked") {
                "guest -- membership was revoked".to_owned()
            } else if same(ended.as_str(), "promoted") {
                let mut line = me.role.clone();
                line.push_str(" (was a guest; promoted)");
                line
            } else {
                let mut line = me.role.clone();
                line.push_str(" (membership ended: ");
                line.push_str(ended.as_str());
                line.push_str(")");
                line
            }
        },
        None => {
            if me.is_guest() {
                match &me.not_after {
                    Some(until) => {
                        let mut line = "guest (until ".to_owned();
                        line.push_str(until.as_str());
                        line.push_str(")");
                        line
                    },
                    None => "guest (the server did not say until when)".to_owned(),
                }
            } else {
                me.role.clone()
            }
        },
    };
    if me.demoted_to_guest && me.membership_ended.is_none() {
        line.push_str(" -- an administrator here, but the guest membership wins");
    }
    line
}

/// Once a membership has expired or was revoked, the words no longer depend on
/// the role that it left behind, nor on an administrator's demotion.
pub proof fn law_ended_membership_hides_the_role(one: Membership, other: Membership)
    requires
        one.membership_ended == other.membership_ended,
        one.not_after == other.not_after,
        one.membership_ended matches Some(ended) && (ended@ == "expired"@ || ended@ == "revoked"@),
    ensures
        describe_spec(one) == describe_spec(other),
{
}

/// A membership that has not ended is shown by its role: a guest's with the
/// time until which it holds, where that is known, and any other by the role
/// alone. What is said of an administrator is added at the end, and only where
/// the membership has not ended.
pub proof fn law_membership_is_shown_by_its_role(me: Membership)
    ensures
        me.membership_ended is None && !me.demoted_to_guest && me.role@ != "guest"@ ==> describe_spec(me) == me.role@,
        me.membership_ended is None && !me.demoted_to_guest && me.role@ == "guest"@ ==> (match me.not_after {
            Some(until) => describe_spec(me) == "guest (until "@ + until@ + ")"@,
            None => describe_spec(me) == "guest (the server did not say until when)"@,
        }),
        me.demoted_to_guest && me.membership_ended is None ==> describe_spec(me) == describe_spec(
            Membership { demoted_to_guest: false, ..me },
        ) + " -- an administrator here, but the guest membership wins"@,
        me.membership_ended is Some ==> describe_spec(me) == describe_spec(Membership { demoted_to_guest: !me.demoted_to_guest, ..me }),
{
}

/// How a membership ended is shown: one that expired or was revoked as a
/// guest's, and one that ended otherwise with the role in force now, and how.
pub proof fn law_end_of_a_membership_is_shown(me: Membership, ended: String)
    requires
        me.membership_ended == Some(ended),
    ensures
        ended@ == "expired"@ && me.not_after is None ==> describe_spec(me) == "guest -- membership expired"@,
        ended@ == "expired"@ ==> (me.not_after matches Some(at) ==> describe_spec(me) == "guest -- membership expired"@ + " at "@
            + at@),
        ended@ == "revoked"@ ==> describe_spec(me) == "guest -- membership was revoked"@,
        ended@ == "promoted"@ ==> describe_spec(me) == me.role@ + " (was a guest; promoted)"@,
        ended@ != "expired"@ && ended@ != "revoked"@ ==> me.role@.is_prefix_of(describe_spec(me)),
        ended@ != "expired"@ && ended@ != "revoked"@ && ended@ != "promoted"@ ==> describe_spec(me) == me.role@
            + " (membership ended: "@ + ended@ + ")"@,
{
    reveal_strlit("expired");
    reveal_strlit("revoked");
    reveal_strlit("promoted");
    assert("expired"@[0] == 'e' && "revoked"@[0] == 'r' && "promoted"@[0] == 'p');
}

} // verus!
