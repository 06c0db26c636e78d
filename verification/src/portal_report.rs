//! What the portal client prints.

use crate::text::{decimal_spec, join, join_spec, same, signed_decimal, signed_decimal_spec, views};
use vstd::prelude::*;

verus! {

/// A standing grant.
#[derive(Debug)]
pub struct Grant {
    /// Who let this Endpoint in.
    pub owner_endpoint: String,
    /// The grant's id.
    pub grant_id: String,
    /// When it ends.
    pub expires_at: Option<String>,
}

/// One line for each of `items`, between `before` and `after`.
pub open spec fn lines(items: Seq<Seq<char>>, before: Seq<char>, after: Seq<char>) -> Seq<char>
    decreases items.len(),
{
    if items.len() == 0 {
        Seq::empty()
    } else {
        lines(items.drop_last(), before, after) + before + items.last() + after
    }
}

fn push_lines(out: &mut String, items: &Vec<String>, before: &str, after: &str)
    ensures
        final(out)@ == old(out)@ + lines(views(items@), before@, after@),
{
    let ghost base = out@;
    let mut i: usize = 0;
    proof {
        assert(views(items@).take(0) =~= Seq::<Seq<char>>::empty());
        assert(base + Seq::<char>::empty() =~= base);
    }
    while i < items.len()
        invariant
            i <= items@.len(),
            out@ == base + lines(views(items@).take(i as int), before@, after@),
        decreases items@.len() - i,
    {
        let ghost so_far = lines(views(items@).take(i as int), before@, after@);
        out.push_str(before);
        out.push_str(items[i].as_str());
        out.push_str(after);
        proof {
            let item = items@[i as int]@;
            assert(views(items@).take(i + 1).drop_last() =~= views(items@).take(i as int));
            assert(views(items@).take(i + 1).last() == item);
            assert(base + (so_far + before@ + item + after@) =~= base + so_far + before@ + item + after@);
        }
        i = i + 1;
    }
    proof {
        assert(views(items@).take(i as int) =~= views(items@));
    }
}

/// What is said when the run goes on by itself is nothing; else how to go on.
pub open spec fn connect_hint(then_connect: bool) -> Seq<char> {
    if then_connect {
        Seq::empty()
    } else {
        "\nConnect with --map alone; the listener is found for you.\n"@
    }
}

/// What is printed after pairing.
pub open spec fn pairing_text(grant: Grant, then_connect: bool) -> Seq<char> {
    "paired with : "@ + grant.owner_endpoint@ + "\ngrant       : "@ + grant.grant_id@ + "\n"@ + connect_hint(
        then_connect,
    )
}

/// What is printed after pairing.
pub fn redeem(grant: &Grant, then_connect: bool) -> (text: String)
    ensures
        text@ == pairing_text(*grant, then_connect),
{
    let mut text = "paired with : ".to_owned();
    text.push_str(grant.owner_endpoint.as_str());
    text.push_str("\ngrant       : ");
    text.push_str(grant.grant_id.as_str());
    text.push_str("\n");
    let ghost said = text@;
    if !then_connect {
        text.push_str("\nConnect with --map alone; the listener is found for you.\n");
    } else {
        proof {
            assert(said + Seq::<char>::empty() =~= said);
        }
    }
    text
}

/// Who let this Endpoint in, and until when.
pub open spec fn admission_text(grant: Grant, after_expiry: Seq<char>, never: Seq<char>) -> Seq<char> {
    let who = "let in by   : "@ + grant.owner_endpoint@ + "\ngrant       : "@ + grant.grant_id@ + "\nexpires at  : "@;
    match grant.expires_at {
        Some(at) => who + at@ + after_expiry,
        None => who + never,
    }
}

fn admission(grant: &Grant, after_expiry: &str, never: &str) -> (text: String)
    ensures
        text@ == admission_text(*grant, after_expiry@, never@),
{
    let mut text = "let in by   : ".to_owned();
    text.push_str(grant.owner_endpoint.as_str());
    text.push_str("\ngrant       : ");
    text.push_str(grant.grant_id.as_str());
    text.push_str("\nexpires at  : ");
    match &grant.expires_at {
        Some(at) => {
            text.push_str(at.as_str());
            text.push_str(after_expiry);
        },
        None => text.push_str(never),
    }
    text
}

/// What is printed after a ticket was redeemed; `listening` says whether
/// anything listens on that Endpoint.
pub open spec fn ticket_text(grant: Grant, listening: bool, then_connect: bool) -> Seq<char> {
    admission_text(grant, "\n"@, "never -- unexpected for a ticket\n"@) + (if then_connect {
        Seq::empty()
    } else if !listening {
        "\nNothing is listening on that Endpoint yet. That is not a failure:\nyou are authorised, and --map will find it once the server is up.\n"@
    } else {
        "\nConnect with --map alone; the listener is found for you.\n"@
    })
}

/// What is printed after a ticket was redeemed.
pub fn redeem_ticket(grant: &Grant, listening: bool, then_connect: bool) -> (text: String)
    ensures
        text@ == ticket_text(*grant, listening, then_connect),
{
    let mut text = admission(grant, "\n", "never -- unexpected for a ticket\n");
    let ghost said = text@;
    if then_connect {
        proof {
            assert(said + Seq::<char>::empty() =~= said);
        }
    } else if !listening {
        text.push_str(
            "\nNothing is listening on that Endpoint yet. That is not a failure:\nyou are authorised, and --map will find it once the server is up.\n",
        );
    } else {
        text.push_str("\nConnect with --map alone; the listener is found for you.\n");
    }
    text
}

/// What is printed after a Provisioning Key was redeemed.
pub open spec fn provisioning_text(grant: Grant, then_connect: bool) -> Seq<char> {
    admission_text(
        grant,
        "  (extended while this runs)\n"@,
        "never -- unexpected for a provisioning key\n"@,
    ) + (if then_connect {
        Seq::empty()
    } else {
        "\nNothing is being forwarded, so this grant is not being kept alive.\nRun again with --map when there is work to do.\n"@
    })
}

/// What is printed after a Provisioning Key was redeemed, and whether the
/// grant is to be kept alive: it is while something is forwarded.
pub fn redeem_provisioning(grant: &Grant, then_connect: bool) -> (r: (String, bool))
    ensures
        r.0@ == provisioning_text(*grant, then_connect),
        r.1 == then_connect,
{
    let mut text = admission(
        grant,
        "  (extended while this runs)\n",
        "never -- unexpected for a provisioning key\n",
    );
    let ghost said = text@;
    if !then_connect {
        text.push_str(
            "\nNothing is being forwarded, so this grant is not being kept alive.\nRun again with --map when there is work to do.\n",
        );
    } else {
        proof {
            assert(said + Seq::<char>::empty() =~= said);
        }
    }
    (text, then_connect)
}

/// What stopping an Enrollment Key did to its Endpoints.
#[derive(Debug)]
pub struct KeyEffects {
    /// Those that were retired.
    pub revoked_endpoints: Vec<String>,
    /// Those that go on.
    pub remaining_endpoints: Vec<String>,
}

/// What is printed after an Enrollment Key was stopped.
pub open spec fn revoked_key_text(key_id: Seq<char>, effects: Option<KeyEffects>) -> Seq<char> {
    let head = "revoked     : "@ + key_id + "\n"@;
    let body = match effects {
        Some(effects) => head + lines(views(effects.revoked_endpoints@), "  retired   : "@, "\n"@) + lines(
            views(effects.remaining_endpoints@),
            "  still up  : "@,
            "  (revoke it yourself if you meant to)\n"@,
        ),
        None => head,
    };
    body
        + "No new Endpoints can be registered with it, and no derived Endpoint\ncan renew its token. The record of who came in stays.\n"@
}

/// What is printed after an Enrollment Key was stopped.
pub fn revoked_key_report(key_id: &str, effects: &Option<KeyEffects>) -> (text: String)
    ensures
        text@ == revoked_key_text(key_id@, *effects),
{
    let mut text = "revoked     : ".to_owned();
    text.push_str(key_id);
    text.push_str("\n");
    if let Some(effects) = effects {
        push_lines(&mut text, &effects.revoked_endpoints, "  retired   : ", "\n");
        push_lines(
            &mut text,
            &effects.remaining_endpoints,
            "  still up  : ",
            "  (revoke it yourself if you meant to)\n",
        );
    }
    text.push_str(
        "No new Endpoints can be registered with it, and no derived Endpoint\ncan renew its token. The record of who came in stays.\n",
    );
    text
}

/// What an Enrollment Key is bound to, as it is reported.
#[derive(Debug)]
pub struct BindingView {
    /// The kind of binding.
    pub kind: String,
    /// Who vouches.
    pub issuer: Option<String>,
    /// For whom.
    pub subject: Option<String>,
    /// The audience to mint for.
    pub audience: Option<String>,
}

/// The text, or a question mark.
pub open spec fn or_unknown(text: Option<String>) -> Seq<char> {
    match text {
        Some(text) => text@,
        None => "?"@,
    }
}

fn shown_or_unknown(text: &Option<String>) -> (shown: String)
    ensures
        shown@ == or_unknown(*text),
{
    match text {
        Some(text) => text.clone(),
        None => "?".to_owned(),
    }
}

/// What is printed about a binding.
pub open spec fn binding_text(binding: Option<BindingView>) -> Seq<char> {
    match binding {
        None => "bound to    : not reported -- check with --enrollment-keys\n"@,
        Some(binding) => if binding.kind@ == "oidc"@ {
            "bound to    : "@ + or_unknown(binding.issuer) + " / "@ + or_unknown(binding.subject) + (
            match binding.audience {
                Some(audience) => "\naudience    : "@ + audience@ + "  (the job mints for this)\n"@,
                None => "\naudience    : not reported -- ask the Identity operator\n"@,
            })
        } else if binding.kind@ == "none"@ || binding.kind@ == ""@ {
            "bound to    : nothing -- the key alone can register Endpoints.\n              Never do this for a public repository's CI.\n"@
        } else {
            "bound to    : "@ + binding.kind@ + "\n"@
        },
    }
}

/// What is printed about a binding.
pub fn print_enrollment_binding(binding: &Option<BindingView>) -> (text: String)
    ensures
        text@ == binding_text(*binding),
{
    match binding {
        None => "bound to    : not reported -- check with --enrollment-keys\n".to_owned(),
        Some(binding) => {
            if same(binding.kind.as_str(), "oidc") {
                let audience = match &binding.audience {
                    Some(audience) => {
                        let mut line = "\naudience    : ".to_owned();
                        line.push_str(audience.as_str());
                        line.push_str("  (the job mints for this)\n");
                        line
                    },
                    None => "\naudience    : not reported -- ask the Identity operator\n".to_owned(),
                };
                let mut text = "bound to    : ".to_owned();
                text.push_str(shown_or_unknown(&binding.issuer).as_str());
                text.push_str(" / ");
                text.push_str(shown_or_unknown(&binding.subject).as_str());
                text.push_str(audience.as_str());
                text
            } else if same(binding.kind.as_str(), "none") || same(binding.kind.as_str(), "") {
                "bound to    : nothing -- the key alone can register Endpoints.\n              Never do this for a public repository's CI.\n".to_owned()
            } else {
                let mut text = "bound to    : ".to_owned();
                text.push_str(binding.kind.as_str());
                text.push_str("\n");
                text
            }
        },
    }
}

/// An Enrollment Key that was issued.
pub struct IssuedEnrollmentKey {
    /// The key itself, which is shown once.
    pub key: String,
    /// Its id.
    pub key_id: Option<String>,
    /// When it ends.
    pub expires_at: Option<String>,
    /// The permissions of its Endpoints.
    pub permissions: Vec<String>,
    /// The protocols of its Endpoints.
    pub protocols: Vec<String>,
    /// How many of its Endpoints may be alive.
    pub max_live_endpoints: Option<i64>,
    /// What it is bound to.
    pub binding: Option<BindingView>,
    /// What may go wrong with it later.
    pub warnings: Vec<String>,
}

/// What is printed after an Enrollment Key was issued. The key comes first:
/// everything else is optional.
pub open spec fn issued_text(issued: IssuedEnrollmentKey) -> Seq<char> {
    let t = "\nPut this in the job's secret store as ISEKAI_ENROLLMENT_KEY:\n\n  "@ + issued.key@ + "\n\n"@;
    let t = match issued.key_id {
        Some(id) => t + "key id      : "@ + id@ + "  (--revoke-enrollment-key takes this)\n"@,
        None => t + "key id      : not reported -- --enrollment-keys will list it\n"@,
    };
    let t = match issued.expires_at {
        Some(at) => t + "expires at  : "@ + at@ + "\n"@,
        None => t,
    };
    let t = if issued.permissions@.len() > 0 {
        t + "permissions : "@ + join_spec(views(issued.permissions@), ", "@) + "\n"@
    } else {
        t
    };
    let t = if issued.protocols@.len() > 0 {
        t + "protocols   : "@ + join_spec(views(issued.protocols@), ", "@) + "\n"@
    } else {
        t
    };
    let t = match issued.max_live_endpoints {
        Some(slots) => t + "slots       : "@ + signed_decimal_spec(slots as int) + " Endpoints alive at once\n"@,
        None => t,
    };
    t + binding_text(issued.binding) + lines(views(issued.warnings@), "warning     : "@, "\n"@)
        + "\nThe job also needs a Provisioning Key from the server side --\nportal-server --provisioning-key. They are different objects issued\nby different servers, and revoked at different ones.\n"@
}

/// What is printed after an Enrollment Key was issued.
pub fn issued_report(issued: &IssuedEnrollmentKey) -> (text: String)
    ensures
        text@ == issued_text(*issued),
{
    let mut text = "\nPut this in the job's secret store as ISEKAI_ENROLLMENT_KEY:\n\n  ".to_owned();
    text.push_str(issued.key.as_str());
    text.push_str("\n\n");
    match &issued.key_id {
        Some(id) => {
            text.push_str("key id      : ");
            text.push_str(id.as_str());
            text.push_str("  (--revoke-enrollment-key takes this)\n");
        },
        None => text.push_str("key id      : not reported -- --enrollment-keys will list it\n"),
    }
    if let Some(at) = &issued.expires_at {
        text.push_str("expires at  : ");
        text.push_str(at.as_str());
        text.push_str("\n");
    }
    if issued.permissions.len() > 0 {
        text.push_str("permissions : ");
        text.push_str(join(&issued.permissions, ", ").as_str());
        text.push_str("\n");
    }
    if issued.protocols.len() > 0 {
        text.push_str("protocols   : ");
        text.push_str(join(&issued.protocols, ", ").as_str());
        text.push_str("\n");
    }
    if let Some(slots) = issued.max_live_endpoints {
        text.push_str("slots       : ");
        text.push_str(signed_decimal(slots).as_str());
        text.push_str(" Endpoints alive at once\n");
    }
    text.push_str(print_enrollment_binding(&issued.binding).as_str());
    push_lines(&mut text, &issued.warnings, "warning     : ", "\n");
    text.push_str(
        "\nThe job also needs a Provisioning Key from the server side --\nportal-server --provisioning-key. They are different objects issued\nby different servers, and revoked at different ones.\n",
    );
    text
}

/// What retiring an Endpoint took down.
#[derive(Clone, Copy, Debug)]
pub struct RevokeEffects {
    pub revoked_tokens: Option<i64>,
    pub deleted_peer_listeners: Option<i64>,
    pub deleted_public_listeners: Option<i64>,
    pub deleted_grants: Option<i64>,
    pub deleted_capabilities: Option<i64>,
    pub closed_connections: Option<i64>,
    pub deleted_pairing_codes: Option<i64>,
    pub revoked_policy_leases: Option<i64>,
    /// Whether this call is what retired it.
    pub newly_revoked: Option<bool>,
}

/// A count, added where there is something to count.
pub open spec fn with_count(list: Seq<Seq<char>>, n: Option<i64>, label: Seq<char>) -> Seq<Seq<char>> {
    match n {
        Some(n) if n > 0 => list.push(signed_decimal_spec(n as int) + " "@ + label),
        _ => list,
    }
}

fn add_count(list: &mut Vec<String>, n: Option<i64>, label: &str)
    ensures
        views(final(list)@) == with_count(views(old(list)@), n, label@),
{
    if let Some(n) = n {
        if n > 0 {
            let mut text = signed_decimal(n);
            text.push_str(" ");
            text.push_str(label);
            let ghost before = list@;
            list.push(text);
            proof {
                assert(views(list@) =~= views(before).push(text@));
            }
        }
    }
}

/// Every count that is not nothing.
pub open spec fn counts(e: RevokeEffects) -> Seq<Seq<char>> {
    let list = with_count(seq![], e.revoked_tokens, "tokens"@);
    let list = with_count(list, e.deleted_peer_listeners, "peer listeners"@);
    let list = with_count(list, e.deleted_public_listeners, "public listeners"@);
    let list = with_count(list, e.deleted_grants, "grants"@);
    let list = with_count(list, e.deleted_capabilities, "capabilities"@);
    let list = with_count(list, e.closed_connections, "connections"@);
    let list = with_count(list, e.deleted_pairing_codes, "pairing codes"@);
    with_count(list, e.revoked_policy_leases, "policy leases"@)
}

/// What is printed about what was taken down.
pub open spec fn effects_text(effects: Option<RevokeEffects>) -> Seq<char> {
    match effects {
        None => Seq::empty(),
        Some(e) => {
            let t = if counts(e).len() == 0 {
                "torn down   : nothing was there to remove\n"@
            } else {
                "torn down   : "@ + join_spec(counts(e), ", "@) + "\n"@
            };
            if e.newly_revoked == Some(false) {
                t + "note        : it was already revoked; this call changed nothing at Identity\n"@
            } else {
                t
            }
        },
    }
}

/// What is printed about what was taken down.
pub fn print_effects(effects: &Option<RevokeEffects>) -> (text: String)
    ensures
        text@ == effects_text(*effects),
{
    let e = match effects {
        Some(e) => e,
        None => {
            return String::new();
        },
    };
    let mut list: Vec<String> = Vec::new();
    proof {
        assert(views(list@) =~= Seq::<Seq<char>>::empty());
    }
    add_count(&mut list, e.revoked_tokens, "tokens");
    add_count(&mut list, e.deleted_peer_listeners, "peer listeners");
    add_count(&mut list, e.deleted_public_listeners, "public listeners");
    add_count(&mut list, e.deleted_grants, "grants");
    add_count(&mut list, e.deleted_capabilities, "capabilities");
    add_count(&mut list, e.closed_connections, "connections");
    add_count(&mut list, e.deleted_pairing_codes, "pairing codes");
    add_count(&mut list, e.revoked_policy_leases, "policy leases");
    let mut text = if list.len() == 0 {
        "torn down   : nothing was there to remove\n".to_owned()
    } else {
        let mut text = "torn down   : ".to_owned();
        text.push_str(join(&list, ", ").as_str());
        text.push_str("\n");
        text
    };
    if let Some(newly) = e.newly_revoked {
        if !newly {
            text.push_str("note        : it was already revoked; this call changed nothing at Identity\n");
        }
    }
    text
}

/// What is printed about whether the proxy was told.
pub open spec fn notification_text(notification: Option<String>) -> Seq<char> {
    match notification {
        None => "proxy       : not reported\n"@,
        Some(word) => if word@ == "delivered"@ {
            "proxy       : told, and enforcing it\n"@
        } else if word@ == "partial"@ {
            "proxy       : TOLD BUT NOT ENFORCING -- its revocation set is full, and this Endpoint keeps getting through until it restarts\n"@
        } else if word@ == "failed"@ {
            "proxy       : NOT TOLD -- its grants and listeners for this Endpoint stand. Repeat this once the proxy is reachable; it is idempotent\n"@
        } else if word@ == "disabled"@ {
            "proxy       : not told -- this deployment has no PROXY_INTERNAL_URL, so nothing there has changed\n"@
        } else {
            "proxy       : "@ + word@ + "\n"@
        },
    }
}

fn notification_line(notification: &Option<String>) -> (text: String)
    ensures
        text@ == notification_text(*notification),
{
    match notification {
        None => "proxy       : not reported\n".to_owned(),
        Some(word) => {
            let w = word.as_str();
            if same(w, "delivered") {
                "proxy       : told, and enforcing it\n".to_owned()
            } else if same(w, "partial") {
                "proxy       : TOLD BUT NOT ENFORCING -- its revocation set is full, and this Endpoint keeps getting through until it restarts\n".to_owned()
            } else if same(w, "failed") {
                "proxy       : NOT TOLD -- its grants and listeners for this Endpoint stand. Repeat this once the proxy is reachable; it is idempotent\n".to_owned()
            } else if same(w, "disabled") {
                "proxy       : not told -- this deployment has no PROXY_INTERNAL_URL, so nothing there has changed\n".to_owned()
            } else {
                let mut text = "proxy       : ".to_owned();
                text.push_str(w);
                text.push_str("\n");
                text
            }
        },
    }
}

/// An Endpoint that was retired.
#[derive(Debug)]
pub struct RevokedEndpoint {
    /// Its id.
    pub endpoint_id: String,
    /// When.
    pub revoked_at: Option<String>,
    /// What that took down.
    pub effects: Option<RevokeEffects>,
    /// Whether the proxy was told.
    pub proxy_notification: Option<String>,
    /// Why it was not.
    pub proxy_notification_detail: Option<String>,
}

/// Which other Endpoints have the same key.
#[derive(Debug)]
pub struct KeySharing {
    /// Whether any has.
    pub duplicate_key: bool,
    /// Those that can be named.
    pub siblings: Vec<String>,
}

/// What is printed about the key of a retired Endpoint. That it could not be
/// looked up is not that nobody shares it.
pub open spec fn sharing_text(before: Result<KeySharing, String>) -> Seq<char> {
    match before {
        Err(why) => "\ncould not check whether another Endpoint shares this key: "@ + why@
            + "\nLook it up with --endpoints before trusting that the key is stopped.\n"@,
        Ok(sharing) => if !sharing.duplicate_key && sharing.siblings@.len() == 0 {
            Seq::empty()
        } else {
            let t =
                "\nTHE KEY STILL WORKS. Another Endpoint shares it, so revoking this row\nstopped a name and not a credential.\n"@
                + lines(views(sharing.siblings@), "  still live : "@, "\n"@);
            if sharing.siblings@.len() == 0 {
                t + "  (the other rows are not in this tenant, so they are not named)\n"@
            } else {
                t
            }
        },
    }
}

fn sharing_report(before: &Result<KeySharing, String>) -> (text: String)
    ensures
        text@ == sharing_text(*before),
{
    match before {
        Err(why) => {
            let mut text = "\ncould not check whether another Endpoint shares this key: ".to_owned();
            text.push_str(why.as_str());
            text.push_str("\nLook it up with --endpoints before trusting that the key is stopped.\n");
            text
        },
        Ok(sharing) => {
            if !sharing.duplicate_key && sharing.siblings.len() == 0 {
                return String::new();
            }
            let mut text =
                "\nTHE KEY STILL WORKS. Another Endpoint shares it, so revoking this row\nstopped a name and not a credential.\n".to_owned();
            push_lines(&mut text, &sharing.siblings, "  still live : ", "\n");
            if sharing.siblings.len() == 0 {
                text.push_str("  (the other rows are not in this tenant, so they are not named)\n");
            }
            text
        },
    }
}

/// What is printed after an Endpoint was retired.
pub open spec fn revoked_endpoint_text(revoked: RevokedEndpoint, before: Result<KeySharing, String>) -> Seq<char> {
    let t = "revoked     : "@ + revoked.endpoint_id@ + "\n"@;
    let t = match revoked.revoked_at {
        Some(at) => t + "at          : "@ + at@ + "\n"@,
        None => t,
    };
    let t = t + effects_text(revoked.effects) + notification_text(revoked.proxy_notification);
    let t = match revoked.proxy_notification_detail {
        Some(detail) => t + "              ("@ + detail@ + ")\n"@,
        None => t,
    };
    t + sharing_text(before)
}

/// What is printed after an Endpoint was retired; `before` is what was found
/// out about its key beforehand.
pub fn revoked_endpoint_report(revoked: &RevokedEndpoint, before: &Result<KeySharing, String>) -> (text: String)
    ensures
        text@ == revoked_endpoint_text(*revoked, *before),
{
    let mut text = "revoked     : ".to_owned();
    text.push_str(revoked.endpoint_id.as_str());
    text.push_str("\n");
    if let Some(at) = &revoked.revoked_at {
        text.push_str("at          : ");
        text.push_str(at.as_str());
        text.push_str("\n");
    }
    text.push_str(print_effects(&revoked.effects).as_str());
    text.push_str(notification_line(&revoked.proxy_notification).as_str());
    if let Some(detail) = &revoked.proxy_notification_detail {
        text.push_str("              (");
        text.push_str(detail.as_str());
        text.push_str(")\n");
    }
    text.push_str(sharing_report(before).as_str());
    text
}

/// A key that is shared, or may be, is always said to be: only a look-up that
/// found no other Endpoint is silent.
pub proof fn law_shared_key_is_never_passed_over(before: Result<KeySharing, String>)
    requires
        sharing_text(before).len() == 0,
    ensures
        before matches Ok(sharing) && !sharing.duplicate_key && sharing.siblings@.len() == 0,
{
    reveal_strlit("\ncould not check whether another Endpoint shares this key: ");
    reveal_strlit(
        "\nTHE KEY STILL WORKS. Another Endpoint shares it, so revoking this row\nstopped a name and not a credential.\n",
    );
}

/// An Endpoint, as it is listed.
#[derive(Debug)]
pub struct EndpointSummary {
    /// Its id.
    pub endpoint_id: String,
    /// The device's name.
    pub device_name: Option<String>,
    /// Whether it is in use.
    pub status: Option<String>,
    /// Whether it goes away by itself.
    pub ephemeral: bool,
    /// The Enrollment Key that it came from.
    pub enrollment_key_id: Option<String>,
    /// Why it was retired.
    pub revoke_reason: Option<String>,
    /// Whether another Endpoint has its key.
    pub duplicate_key: bool,
}

/// What there is to note about an Endpoint; that it shares its key comes first.
pub open spec fn notes_spec(e: EndpointSummary) -> Seq<Seq<char>> {
    let notes = if e.duplicate_key {
        seq!["SHARES ITS KEY"@]
    } else {
        seq![]
    };
    let notes = if e.ephemeral {
        notes.push("ephemeral"@)
    } else {
        notes
    };
    let notes = match e.enrollment_key_id {
        Some(key) => notes.push("from "@ + key@),
        None => notes,
    };
    match e.revoke_reason {
        Some(reason) => notes.push(reason@),
        None => notes,
    }
}

/// The line about an Endpoint.
pub open spec fn endpoint_text(e: EndpointSummary) -> Seq<char> {
    let name = match e.device_name {
        Some(name) => name@,
        None => "(no name)"@,
    };
    let t = "endpoint    : "@ + e.endpoint_id@ + "  "@ + or_unknown(e.status) + "  "@ + name;
    if notes_spec(e).len() == 0 {
        t + "\n"@
    } else {
        t + "  ("@ + join_spec(notes_spec(e), ", "@) + ")\n"@
    }
}

fn add_note(notes: &mut Vec<String>, note: String)
    ensures
        views(final(notes)@) == views(old(notes)@).push(note@),
{
    let ghost before = notes@;
    notes.push(note);
    proof {
        assert(views(notes@) =~= views(before).push(note@));
    }
}

/// The line about an Endpoint.
pub fn print_endpoint(e: &EndpointSummary) -> (text: String)
    ensures
        text@ == endpoint_text(*e),
{
    let mut notes: Vec<String> = Vec::new();
    proof {
        assert(views(notes@) =~= Seq::<Seq<char>>::empty());
    }
    if e.duplicate_key {
        add_note(&mut notes, "SHARES ITS KEY".to_owned());
        proof {
            assert(views(notes@) =~= seq!["SHARES ITS KEY"@]);
        }
    }
    if e.ephemeral {
        add_note(&mut notes, "ephemeral".to_owned());
    }
    if let Some(key) = &e.enrollment_key_id {
        let mut note = "from ".to_owned();
        note.push_str(key.as_str());
        add_note(&mut notes, note);
    }
    if let Some(reason) = &e.revoke_reason {
        add_note(&mut notes, reason.clone());
    }
    let mut text = "endpoint    : ".to_owned();
    text.push_str(e.endpoint_id.as_str());
    text.push_str("  ");
    text.push_str(shown_or_unknown(&e.status).as_str());
    text.push_str("  ");
    match &e.device_name {
        Some(name) => text.push_str(name.as_str()),
        None => text.push_str("(no name)"),
    }
    if notes.len() == 0 {
        text.push_str("\n");
    } else {
        text.push_str("  (");
        text.push_str(join(&notes, ", ").as_str());
        text.push_str(")\n");
    }
    text
}

/// The lines about Endpoints.
pub open spec fn endpoints_text(items: Seq<EndpointSummary>) -> Seq<char>
    decreases items.len(),
{
    if items.len() == 0 {
        Seq::empty()
    } else {
        endpoints_text(items.drop_last()) + endpoint_text(items.last())
    }
}

/// A listing of Endpoints that is read page by page.
#[derive(Debug)]
pub struct EndpointPages {
    /// Where the next page begins.
    pub cursor: Option<String>,
    /// Whether any Endpoint was shown.
    pub shown: bool,
    /// How many retired ones were left out, as first reported.
    pub hidden: Option<i64>,
    /// Whether there is more than was read.
    pub truncated: bool,
    /// How many pages were read.
    pub pages: usize,
}

/// How many pages of Endpoints are read.
pub const MAX_ENDPOINT_PAGES: usize = 100;

impl EndpointPages {
    /// Nothing read yet.
    pub fn new() -> (p: Self)
        ensures
            p.cursor is None && !p.shown && p.hidden is None && !p.truncated && p.pages == 0,
    {
        EndpointPages { cursor: None, shown: false, hidden: None, truncated: false, pages: 0 }
    }

    /// Take note of a page; returns what to print, and whether to read on.
    pub fn page(&mut self, items: &Vec<EndpointSummary>, revoked_count: Option<i64>, next: Option<String>) -> (r: (
        String,
        bool,
    ))
        requires
            old(self).pages < MAX_ENDPOINT_PAGES,
        ensures
            r.0@ == endpoints_text(items@),
            r.1 == (next is Some && final(self).pages < MAX_ENDPOINT_PAGES),
            r.1 == (next is Some && final(self).pages < 100),
            final(self).pages == old(self).pages + 1,
            final(self).shown == (old(self).shown || items@.len() > 0),
            final(self).hidden == (if old(self).hidden is Some {
                old(self).hidden
            } else {
                revoked_count
            }),
            final(self).truncated == next is Some,
            final(self).cursor == (if next is Some {
                next
            } else {
                old(self).cursor
            }),
    {
        let mut text = String::new();
        let mut i: usize = 0;
        proof {
            assert(items@.take(0) =~= Seq::<EndpointSummary>::empty());
        }
        while i < items.len()
            invariant
                i <= items@.len(),
                text@ == endpoints_text(items@.take(i as int)),
            decreases items@.len() - i,
        {
            proof {
                assert(items@.take(i + 1).drop_last() =~= items@.take(i as int));
            }
            text.push_str(print_endpoint(&items[i]).as_str());
            i = i + 1;
        }
        proof {
            assert(items@.take(i as int) =~= items@);
        }
        self.pages = self.pages + 1;
        if items.len() > 0 {
            self.shown = true;
        }
        if self.hidden.is_none() {
            self.hidden = revoked_count;
        }
        match next {
            Some(next) => {
                self.cursor = Some(next);
                self.truncated = true;
                (text, self.pages < MAX_ENDPOINT_PAGES)
            },
            None => {
                self.truncated = false;
                (text, false)
            },
        }
    }

    /// What is printed at the end of the listing.
    pub open spec fn footer_text(self) -> Seq<char> {
        let t = if self.shown {
            Seq::empty()
        } else {
            "No endpoints.\n"@
        };
        let t = match self.hidden {
            Some(hidden) => t + "\n"@ + signed_decimal_spec(hidden as int)
                + " revoked endpoint(s) not shown -- --endpoint-status all\n"@,
            None => t,
        };
        if self.truncated {
            t + "Stopped after 100 pages; there are more rows than this shows.\n"@
        } else {
            t
        }
    }

    /// What is printed at the end of the listing.
    pub fn footer(&self) -> (text: String)
        ensures
            text@ == self.footer_text(),
    {
        let mut text = if self.shown {
            String::new()
        } else {
            "No endpoints.\n".to_owned()
        };
        if let Some(hidden) = self.hidden {
            text.push_str("\n");
            text.push_str(signed_decimal(hidden).as_str());
            text.push_str(" revoked endpoint(s) not shown -- --endpoint-status all\n");
        }
        if self.truncated {
            text.push_str("Stopped after 100 pages; there are more rows than this shows.\n");
        }
        text
    }
}

/// An Enrollment Key, as it is listed.
#[derive(Debug)]
pub struct EnrollmentKeyRecord {
    /// Its id.
    pub key_id: String,
    /// What it is for.
    pub label: Option<String>,
    /// How many of its Endpoints are alive.
    pub live_endpoints: Option<i64>,
    /// How many may be.
    pub max_live_endpoints: Option<i64>,
    /// What kind of binding it has.
    pub binding: Option<String>,
    /// Whether it is usable.
    pub status: Option<String>,
}

/// The slots of a key.
pub open spec fn slots_text(live: Option<i64>, max: Option<i64>) -> Seq<char> {
    match (live, max) {
        (Some(live), Some(max)) => signed_decimal_spec(live as int) + "/"@ + signed_decimal_spec(max as int) + " slots"@,
        (Some(live), None) => signed_decimal_spec(live as int) + " live"@,
        _ => "slots unknown"@,
    }
}

/// The binding of a key: a key that needs nothing else is pointed out.
pub open spec fn bound_text(kind: Option<String>) -> Seq<char> {
    match kind {
        Some(kind) => if kind@ == "none"@ || kind@ == ""@ {
            "UNBOUND"@
        } else {
            kind@
        },
        None => "UNBOUND"@,
    }
}

/// The line about an Enrollment Key.
pub open spec fn key_text(key: EnrollmentKeyRecord) -> Seq<char> {
    let t = "key         : "@ + key.key_id@ + "  "@ + bound_text(key.binding) + ", "@ + slots_text(
        key.live_endpoints,
        key.max_live_endpoints,
    ) + ", "@ + or_unknown(key.status);
    match key.label {
        Some(label) => t + ", "@ + label@ + "\n"@,
        None => t + "\n"@,
    }
}

/// The line about an Enrollment Key.
pub fn key_line(key: &EnrollmentKeyRecord) -> (text: String)
    ensures
        text@ == key_text(*key),
{
    let bound = match &key.binding {
        Some(kind) => {
            if same(kind.as_str(), "none") || same(kind.as_str(), "") {
                "UNBOUND".to_owned()
            } else {
                kind.clone()
            }
        },
        None => "UNBOUND".to_owned(),
    };
    let slots = match (key.live_endpoints, key.max_live_endpoints) {
        (Some(live), Some(max)) => {
            let mut text = signed_decimal(live);
            text.push_str("/");
            text.push_str(signed_decimal(max).as_str());
            text.push_str(" slots");
            text
        },
        (Some(live), None) => {
            let mut text = signed_decimal(live);
            text.push_str(" live");
            text
        },
        _ => "slots unknown".to_owned(),
    };
    let mut text = "key         : ".to_owned();
    text.push_str(key.key_id.as_str());
    text.push_str("  ");
    text.push_str(bound.as_str());
    text.push_str(", ");
    text.push_str(slots.as_str());
    text.push_str(", ");
    text.push_str(shown_or_unknown(&key.status).as_str());
    if let Some(label) = &key.label {
        text.push_str(", ");
        text.push_str(label.as_str());
    }
    text.push_str("\n");
    text
}

/// What registered with an Enrollment Key.
#[derive(Debug)]
pub struct EnrollmentRecord {
    /// The Endpoint.
    pub endpoint_id: String,
    /// As whom.
    pub binding_subject: Option<String>,
    /// Whether it is in use.
    pub status: Option<String>,
    /// How it ended.
    pub revoke_reason: Option<String>,
}

/// The line about what registered with a key.
pub open spec fn enrollment_text(row: EnrollmentRecord) -> Seq<char> {
    let t = "registered  : "@ + row.endpoint_id@;
    let t = match row.binding_subject {
        Some(subject) => t + "  as "@ + subject@,
        None => t,
    };
    match (row.status, row.revoke_reason) {
        (_, Some(reason)) => t + "  ended "@ + reason@ + "\n"@,
        (Some(status), None) => t + "  "@ + status@ + "\n"@,
        (None, None) => t + "\n"@,
    }
}

/// The line about what registered with a key: how it ended, else whether it is
/// in use.
pub fn enrollment_line(row: &EnrollmentRecord) -> (text: String)
    ensures
        text@ == enrollment_text(*row),
{
    let mut text = "registered  : ".to_owned();
    text.push_str(row.endpoint_id.as_str());
    if let Some(subject) = &row.binding_subject {
        text.push_str("  as ");
        text.push_str(subject.as_str());
    }
    match (&row.status, &row.revoke_reason) {
        (_, Some(reason)) => {
            text.push_str("  ended ");
            text.push_str(reason.as_str());
        },
        (Some(status), None) => {
            text.push_str("  ");
            text.push_str(status.as_str());
        },
        (None, None) => {},
    }
    text.push_str("\n");
    text
}

/// The lines about Enrollment Keys.
pub open spec fn keys_text(keys: Seq<EnrollmentKeyRecord>) -> Seq<char>
    decreases keys.len(),
{
    if keys.len() == 0 {
        Seq::empty()
    } else {
        keys_text(keys.drop_last()) + key_text(keys.last())
    }
}

/// What is printed about the Enrollment Keys.
pub fn keys_report(keys: &Vec<EnrollmentKeyRecord>) -> (text: String)
    ensures
        text@ == (if keys@.len() == 0 {
            "No enrollment keys issued.\n"@
        } else {
            keys_text(keys@)
        }),
{
    if keys.len() == 0 {
        return "No enrollment keys issued.\n".to_owned();
    }
    let mut text = String::new();
    let mut i: usize = 0;
    proof {
        assert(keys@.take(0) =~= Seq::<EnrollmentKeyRecord>::empty());
    }
    while i < keys.len()
        invariant
            i <= keys@.len(),
            text@ == keys_text(keys@.take(i as int)),
        decreases keys@.len() - i,
    {
        proof {
            assert(keys@.take(i + 1).drop_last() =~= keys@.take(i as int));
        }
        text.push_str(key_line(&keys[i]).as_str());
        i = i + 1;
    }
    proof {
        assert(keys@.take(i as int) =~= keys@);
    }
    text
}

/// The lines about what registered with a key.
pub open spec fn enrollments_text(rows: Seq<EnrollmentRecord>) -> Seq<char>
    decreases rows.len(),
{
    if rows.len() == 0 {
        Seq::empty()
    } else {
        enrollments_text(rows.drop_last()) + enrollment_text(rows.last())
    }
}

/// What is printed about what registered with a key.
pub fn enrollments_report(key_id: &str, rows: &Vec<EnrollmentRecord>) -> (text: String)
    ensures
        text@ == (if rows@.len() == 0 {
            "Nothing has registered with "@ + key_id@ + ".\n"@
        } else {
            enrollments_text(rows@)
        }),
{
    if rows.len() == 0 {
        let mut text = "Nothing has registered with ".to_owned();
        text.push_str(key_id);
        text.push_str(".\n");
        return text;
    }
    let mut text = String::new();
    let mut i: usize = 0;
    proof {
        assert(rows@.take(0) =~= Seq::<EnrollmentRecord>::empty());
    }
    while i < rows.len()
        invariant
            i <= rows@.len(),
            text@ == enrollments_text(rows@.take(i as int)),
        decreases rows@.len() - i,
    {
        proof {
            assert(rows@.take(i + 1).drop_last() =~= rows@.take(i as int));
        }
        text.push_str(enrollment_line(&rows[i]).as_str());
        i = i + 1;
    }
    proof {
        assert(rows@.take(i as int) =~= rows@);
    }
    text
}

/// Lines come one for each item, in order, each between the same two texts.
pub proof fn law_one_line_for_each(a: Seq<Seq<char>>, b: Seq<Seq<char>>, item: Seq<char>, before: Seq<char>, after: Seq<char>)
    ensures
        lines(a + b, before, after) == lines(a, before, after) + lines(b, before, after),
        lines(seq![item], before, after) == before + item + after,
        lines(Seq::<Seq<char>>::empty(), before, after).len() == 0,
    decreases b.len(),
{
    reveal_with_fuel(lines, 2);
    assert(seq![item].drop_last() =~= Seq::<Seq<char>>::empty());
    assert(lines(seq![item], before, after) =~= before + item + after);
    if b.len() == 0 {
        assert(a + b =~= a);
        assert(lines(a, before, after) + lines(b, before, after) =~= lines(a, before, after));
    } else {
        law_one_line_for_each(a, b.drop_last(), item, before, after);
        assert((a + b).drop_last() =~= a + b.drop_last());
        assert(lines(a + b, before, after) =~= lines(a, before, after) + lines(b, before, after));
    }
}

/// What is printed after being let in names who let this Endpoint in, the grant,
/// and when it ends; how to go on is added only where the run does not go on by
/// itself, and what is added does not depend on the grant.
pub proof fn law_being_let_in_names_the_grant(grant: Grant, listening: bool, at: String)
    ensures
        pairing_text(grant, true) == "paired with : "@ + grant.owner_endpoint@ + "\ngrant       : "@ + grant.grant_id@ + "\n"@,
        pairing_text(grant, false) == pairing_text(grant, true)
            + "\nConnect with --map alone; the listener is found for you.\n"@,
        ticket_text(grant, listening, true) == ticket_text(grant, !listening, true),
        ticket_text(grant, true, false) == ticket_text(grant, true, true)
            + "\nConnect with --map alone; the listener is found for you.\n"@,
        ticket_text(grant, false, false) == ticket_text(grant, true, true)
            + "\nNothing is listening on that Endpoint yet. That is not a failure:\nyou are authorised, and --map will find it once the server is up.\n"@,
        provisioning_text(grant, false) == provisioning_text(grant, true)
            + "\nNothing is being forwarded, so this grant is not being kept alive.\nRun again with --map when there is work to do.\n"@,
        grant.expires_at == Some(at) ==> ticket_text(grant, listening, true) == "let in by   : "@ + grant.owner_endpoint@
            + "\ngrant       : "@ + grant.grant_id@ + "\nexpires at  : "@ + at@ + "\n"@,
        grant.expires_at == Some(at) ==> provisioning_text(grant, true) == "let in by   : "@ + grant.owner_endpoint@
            + "\ngrant       : "@ + grant.grant_id@ + "\nexpires at  : "@ + at@ + "  (extended while this runs)\n"@,
        grant.expires_at is None ==> ticket_text(grant, listening, true) == "let in by   : "@ + grant.owner_endpoint@
            + "\ngrant       : "@ + grant.grant_id@ + "\nexpires at  : "@ + "never -- unexpected for a ticket\n"@,
        grant.expires_at is None ==> provisioning_text(grant, true) == "let in by   : "@ + grant.owner_endpoint@
            + "\ngrant       : "@ + grant.grant_id@ + "\nexpires at  : "@ + "never -- unexpected for a provisioning key\n"@,
{
    assert("paired with : "@ + grant.owner_endpoint@ + "\ngrant       : "@ + grant.grant_id@ + "\n"@ + Seq::<char>::empty() =~= "paired with : "@
        + grant.owner_endpoint@ + "\ngrant       : "@ + grant.grant_id@ + "\n"@);
    let t = admission_text(grant, "\n"@, "never -- unexpected for a ticket\n"@);
    assert(t + Seq::<char>::empty() =~= t);
    let p = admission_text(
        grant,
        "  (extended while this runs)\n"@,
        "never -- unexpected for a provisioning key\n"@,
    );
    assert(p + Seq::<char>::empty() =~= p);
}

/// An Endpoint that stopping a key retired is listed as retired, and one that
/// goes on as still up: each once and in order, the retired ones first.
pub proof fn law_stopped_key_tells_what_became_of_each(key_id: Seq<char>, effects: KeyEffects)
    ensures
        revoked_key_text(key_id, Some(effects)) == "revoked     : "@ + key_id + "\n"@ + lines(
            views(effects.revoked_endpoints@),
            "  retired   : "@,
            "\n"@,
        ) + lines(
            views(effects.remaining_endpoints@),
            "  still up  : "@,
            "  (revoke it yourself if you meant to)\n"@,
        )
            + "No new Endpoints can be registered with it, and no derived Endpoint\ncan renew its token. The record of who came in stays.\n"@,
        revoked_key_text(key_id, None) == "revoked     : "@ + key_id + "\n"@
            + "No new Endpoints can be registered with it, and no derived Endpoint\ncan renew its token. The record of who came in stays.\n"@,
        effects.revoked_endpoints@.len() == 0 && effects.remaining_endpoints@.len() == 0 ==> revoked_key_text(key_id, Some(effects))
            == revoked_key_text(key_id, None),
{
    if effects.revoked_endpoints@.len() == 0 && effects.remaining_endpoints@.len() == 0 {
        let head = "revoked     : "@ + key_id + "\n"@;
        assert(head + Seq::<char>::empty() + Seq::<char>::empty() =~= head);
    }
}

/// A binding to a workload names its issuer, subject and audience, with what is
/// not reported marked as such; a key that is bound to nothing is said to be,
/// whichever of the two words says so, and any other kind is named.
pub proof fn law_binding_is_said_by_its_kind(binding: BindingView)
    ensures
        binding.kind@ == "oidc"@ ==> (binding.issuer matches Some(issuer) ==> (binding.subject matches Some(subject) ==> (
        binding.audience matches Some(audience) ==> binding_text(Some(binding)) == "bound to    : "@ + issuer@ + " / "@ + subject@
            + ("\naudience    : "@ + audience@ + "  (the job mints for this)\n"@)))),
        binding.kind@ == "oidc"@ && binding.issuer is None && binding.subject is None && binding.audience is None ==> binding_text(
            Some(binding),
        ) == "bound to    : "@ + "?"@ + " / "@ + "?"@ + "\naudience    : not reported -- ask the Identity operator\n"@,
        binding.kind@ == "none"@ || binding.kind@.len() == 0 ==> binding_text(Some(binding))
            == "bound to    : nothing -- the key alone can register Endpoints.\n              Never do this for a public repository's CI.\n"@,
        binding.kind@ != "oidc"@ && binding.kind@ != "none"@ && binding.kind@.len() > 0 ==> binding_text(Some(binding))
            == "bound to    : "@ + binding.kind@ + "\n"@,
        binding_text(None) == "bound to    : not reported -- check with --enrollment-keys\n"@,
{
    reveal_strlit("oidc");
    reveal_strlit("none");
    reveal_strlit("");
    assert("oidc"@[0] == 'o' && "none"@[0] == 'n');
    if binding.kind@.len() == 0 {
        assert(binding.kind@ =~= ""@);
    }
}

/// A key that was issued is shown before anything else, and what was not
/// reported of it leaves the rest as it is.
pub proof fn law_issued_key_is_shown_first(issued: IssuedEnrollmentKey)
    ensures
        ("\nPut this in the job's secret store as ISEKAI_ENROLLMENT_KEY:\n\n  "@ + issued.key@ + "\n\n"@).is_prefix_of(
            issued_text(issued),
        ),
        issued.key_id is None && issued.expires_at is None && issued.permissions@.len() == 0 && issued.protocols@.len() == 0
            && issued.max_live_endpoints is None && issued.warnings@.len() == 0 ==> issued_text(issued)
            == "\nPut this in the job's secret store as ISEKAI_ENROLLMENT_KEY:\n\n  "@ + issued.key@ + "\n\n"@
            + "key id      : not reported -- --enrollment-keys will list it\n"@ + binding_text(issued.binding)
            + "\nThe job also needs a Provisioning Key from the server side --\nportal-server --provisioning-key. They are different objects issued\nby different servers, and revoked at different ones.\n"@,
{
    let head = "\nPut this in the job's secret store as ISEKAI_ENROLLMENT_KEY:\n\n  "@ + issued.key@ + "\n\n"@;
    let t = match issued.key_id {
        Some(id) => head + "key id      : "@ + id@ + "  (--revoke-enrollment-key takes this)\n"@,
        None => head + "key id      : not reported -- --enrollment-keys will list it\n"@,
    };
    lemma_begins(head, head, "key id      : "@, issued.key_id->0@, "  (--revoke-enrollment-key takes this)\n"@);
    lemma_begins(head, head, "key id      : not reported -- --enrollment-keys will list it\n"@, seq![], seq![]);
    lemma_begins(head, t, "expires at  : "@, issued.expires_at->0@, "\n"@);
    let t = match issued.expires_at {
        Some(at) => t + "expires at  : "@ + at@ + "\n"@,
        None => t,
    };
    lemma_begins(head, t, "permissions : "@, join_spec(views(issued.permissions@), ", "@), "\n"@);
    let t = if issued.permissions@.len() > 0 {
        t + "permissions : "@ + join_spec(views(issued.permissions@), ", "@) + "\n"@
    } else {
        t
    };
    lemma_begins(head, t, "protocols   : "@, join_spec(views(issued.protocols@), ", "@), "\n"@);
    let t = if issued.protocols@.len() > 0 {
        t + "protocols   : "@ + join_spec(views(issued.protocols@), ", "@) + "\n"@
    } else {
        t
    };
    lemma_begins(
        head,
        t,
        "slots       : "@,
        signed_decimal_spec(issued.max_live_endpoints->0 as int),
        " Endpoints alive at once\n"@,
    );
    let t = match issued.max_live_endpoints {
        Some(slots) => t + "slots       : "@ + signed_decimal_spec(slots as int) + " Endpoints alive at once\n"@,
        None => t,
    };
    lemma_begins(
        head,
        t,
        binding_text(issued.binding),
        lines(views(issued.warnings@), "warning     : "@, "\n"@),
        "\nThe job also needs a Provisioning Key from the server side --\nportal-server --provisioning-key. They are different objects issued\nby different servers, and revoked at different ones.\n"@,
    );
    if issued.key_id is None && issued.expires_at is None && issued.permissions@.len() == 0 && issued.protocols@.len() == 0
        && issued.max_live_endpoints is None && issued.warnings@.len() == 0 {
        let t = head + "key id      : not reported -- --enrollment-keys will list it\n"@ + binding_text(issued.binding);
        assert(t + Seq::<char>::empty() =~= t);
    }
}

proof fn lemma_begins(head: Seq<char>, t: Seq<char>, a: Seq<char>, b: Seq<char>, c: Seq<char>)
    requires
        head.is_prefix_of(t),
    ensures
        head.is_prefix_of(t + a),
        head.is_prefix_of(t + a + b + c),
{
    assert((t + a).take(head.len() as int) =~= head);
    assert((t + a + b + c).take(head.len() as int) =~= head);
}

/// Everything that was reported of a key that was issued is printed, each thing
/// once and in this order.
pub proof fn law_issued_key_is_told_of_in_full(issued: IssuedEnrollmentKey, id: String, at: String, slots: i64)
    requires
        issued.key_id == Some(id),
        issued.expires_at == Some(at),
        issued.permissions@.len() > 0,
        issued.protocols@.len() > 0,
        issued.max_live_endpoints == Some(slots),
    ensures
        issued_text(issued) == "\nPut this in the job's secret store as ISEKAI_ENROLLMENT_KEY:\n\n  "@ + issued.key@ + "\n\n"@
            + "key id      : "@ + id@ + "  (--revoke-enrollment-key takes this)\n"@ + "expires at  : "@ + at@ + "\n"@
            + "permissions : "@ + join_spec(views(issued.permissions@), ", "@) + "\n"@ + "protocols   : "@ + join_spec(
            views(issued.protocols@),
            ", "@,
        ) + "\n"@ + "slots       : "@ + signed_decimal_spec(slots as int) + " Endpoints alive at once\n"@ + binding_text(
            issued.binding,
        ) + lines(views(issued.warnings@), "warning     : "@, "\n"@)
            + "\nThe job also needs a Provisioning Key from the server side --\nportal-server --provisioning-key. They are different objects issued\nby different servers, and revoked at different ones.\n"@,
{
}

/// A thing that was taken down is counted exactly where there was one; what is
/// counted is said with its number and its own name, in a fixed order.
pub proof fn law_only_what_was_there_is_counted(e: RevokeEffects)
    ensures
        counts(e).len() == 0 <==> !(e.revoked_tokens matches Some(n) && n > 0) && !(e.deleted_peer_listeners matches Some(n) && n > 0)
            && !(e.deleted_public_listeners matches Some(n) && n > 0) && !(e.deleted_grants matches Some(n) && n > 0) && !(
        e.deleted_capabilities matches Some(n) && n > 0) && !(e.closed_connections matches Some(n) && n > 0) && !(
        e.deleted_pairing_codes matches Some(n) && n > 0) && !(e.revoked_policy_leases matches Some(n) && n > 0),
        counts(e) == count_of(e.revoked_tokens, "tokens"@) + count_of(e.deleted_peer_listeners, "peer listeners"@) + count_of(
            e.deleted_public_listeners,
            "public listeners"@,
        ) + count_of(e.deleted_grants, "grants"@) + count_of(e.deleted_capabilities, "capabilities"@) + count_of(
            e.closed_connections,
            "connections"@,
        ) + count_of(e.deleted_pairing_codes, "pairing codes"@) + count_of(e.revoked_policy_leases, "policy leases"@),
{
    lemma_count(seq![], e.revoked_tokens, "tokens"@);
    let a = count_of(e.revoked_tokens, "tokens"@);
    assert(Seq::<Seq<char>>::empty() + a =~= a);
    lemma_count(a, e.deleted_peer_listeners, "peer listeners"@);
    let b = a + count_of(e.deleted_peer_listeners, "peer listeners"@);
    lemma_count(b, e.deleted_public_listeners, "public listeners"@);
    let c = b + count_of(e.deleted_public_listeners, "public listeners"@);
    lemma_count(c, e.deleted_grants, "grants"@);
    let d = c + count_of(e.deleted_grants, "grants"@);
    lemma_count(d, e.deleted_capabilities, "capabilities"@);
    let f = d + count_of(e.deleted_capabilities, "capabilities"@);
    lemma_count(f, e.closed_connections, "connections"@);
    let g = f + count_of(e.closed_connections, "connections"@);
    lemma_count(g, e.deleted_pairing_codes, "pairing codes"@);
    let h = g + count_of(e.deleted_pairing_codes, "pairing codes"@);
    lemma_count(h, e.revoked_policy_leases, "policy leases"@);
}

/// A number of things, where there are any.
pub open spec fn count_of(n: Option<i64>, label: Seq<char>) -> Seq<Seq<char>> {
    if n is Some && n->0 > 0 {
        seq![decimal_spec(n->0 as nat) + " "@ + label]
    } else {
        seq![]
    }
}

proof fn lemma_count(list: Seq<Seq<char>>, n: Option<i64>, label: Seq<char>)
    ensures
        with_count(list, n, label) == list + count_of(n, label),
{
    assert(with_count(list, n, label) =~= list + count_of(n, label));
}

/// What is printed of what was taken down: nothing where nothing was reported,
/// the counts where there are any, and else that there was nothing to remove;
/// that nothing changed is added exactly where that was reported.
pub proof fn law_effects_are_printed_as_reported(e: RevokeEffects)
    ensures
        effects_text(None).len() == 0,
        e.newly_revoked != Some(false) && counts(e).len() > 0 ==> effects_text(Some(e)) == "torn down   : "@ + join_spec(
            counts(e),
            ", "@,
        ) + "\n"@,
        e.newly_revoked != Some(false) && counts(e).len() == 0 ==> effects_text(Some(e))
            == "torn down   : nothing was there to remove\n"@,
        e.newly_revoked == Some(false) ==> effects_text(Some(e)) == effects_text(
            Some(RevokeEffects { newly_revoked: None, ..e }),
        ) + "note        : it was already revoked; this call changed nothing at Identity\n"@,
{
    assert(counts(RevokeEffects { newly_revoked: None, ..e }) == counts(e));
}

/// That the proxy enforces a revocation is said exactly where it was delivered.
pub proof fn law_proxy_is_said_to_enforce_only_when_told(word: String)
    ensures
        word@ == "delivered"@ ==> notification_text(Some(word)) == "proxy       : told, and enforcing it\n"@,
        word@ == "partial"@ ==> notification_text(Some(word))
            == "proxy       : TOLD BUT NOT ENFORCING -- its revocation set is full, and this Endpoint keeps getting through until it restarts\n"@,
        word@ == "failed"@ ==> notification_text(Some(word))
            == "proxy       : NOT TOLD -- its grants and listeners for this Endpoint stand. Repeat this once the proxy is reachable; it is idempotent\n"@,
        word@ == "disabled"@ ==> notification_text(Some(word))
            == "proxy       : not told -- this deployment has no PROXY_INTERNAL_URL, so nothing there has changed\n"@,
        word@ != "delivered"@ && word@ != "partial"@ && word@ != "failed"@ && word@ != "disabled"@ ==> notification_text(Some(word))
            == "proxy       : "@ + word@ + "\n"@,
        notification_text(None) == "proxy       : not reported\n"@,
{
    reveal_strlit("delivered");
    reveal_strlit("partial");
    reveal_strlit("failed");
    reveal_strlit("disabled");
    assert("delivered"@.len() == 9 && "partial"@.len() == 7 && "failed"@.len() == 6 && "disabled"@.len() == 8);
}

/// What is said of a key that is shared: that it still works, with every other
/// Endpoint that can be named, each once; and that they cannot be named exactly
/// where none can.
pub proof fn law_every_sharer_is_named(sharing: KeySharing, why: String)
    ensures
        sharing.siblings@.len() > 0 ==> sharing_text(Ok(sharing))
            == "\nTHE KEY STILL WORKS. Another Endpoint shares it, so revoking this row\nstopped a name and not a credential.\n"@
            + lines(views(sharing.siblings@), "  still live : "@, "\n"@),
        sharing.siblings@.len() == 0 && sharing.duplicate_key ==> sharing_text(Ok(sharing))
            == "\nTHE KEY STILL WORKS. Another Endpoint shares it, so revoking this row\nstopped a name and not a credential.\n"@
            + "  (the other rows are not in this tenant, so they are not named)\n"@,
        sharing.siblings@.len() == 0 && !sharing.duplicate_key ==> sharing_text(Ok(sharing)).len() == 0,
        sharing_text(Err(why)) == "\ncould not check whether another Endpoint shares this key: "@ + why@
            + "\nLook it up with --endpoints before trusting that the key is stopped.\n"@,
{
    let t =
        "\nTHE KEY STILL WORKS. Another Endpoint shares it, so revoking this row\nstopped a name and not a credential.\n"@;
    assert(t + Seq::<char>::empty() =~= t);
}

/// The report of a retired Endpoint begins with its id, ends with what is said
/// of its key, and has the parts that were reported in between.
pub proof fn law_retired_endpoint_is_reported_in_full(
    revoked: RevokedEndpoint,
    before: Result<KeySharing, String>,
    at: String,
    detail: String,
)
    ensures
        revoked.revoked_at is None && revoked.proxy_notification_detail is None ==> revoked_endpoint_text(revoked, before)
            == "revoked     : "@ + revoked.endpoint_id@ + "\n"@ + effects_text(revoked.effects) + notification_text(
            revoked.proxy_notification,
        ) + sharing_text(before),
        revoked.revoked_at == Some(at) && revoked.proxy_notification_detail is None ==> revoked_endpoint_text(revoked, before)
            == "revoked     : "@ + revoked.endpoint_id@ + "\n"@ + "at          : "@ + at@ + "\n"@ + effects_text(revoked.effects)
            + notification_text(revoked.proxy_notification) + sharing_text(before),
        revoked.revoked_at is None && revoked.proxy_notification_detail == Some(detail) ==> revoked_endpoint_text(revoked, before)
            == "revoked     : "@ + revoked.endpoint_id@ + "\n"@ + effects_text(revoked.effects) + notification_text(
            revoked.proxy_notification,
        ) + "              ("@ + detail@ + ")\n"@ + sharing_text(before),
        revoked.revoked_at == Some(at) && revoked.proxy_notification_detail == Some(detail) ==> revoked_endpoint_text(revoked, before)
            == "revoked     : "@ + revoked.endpoint_id@ + "\n"@ + "at          : "@ + at@ + "\n"@ + effects_text(revoked.effects)
            + notification_text(revoked.proxy_notification) + "              ("@ + detail@ + ")\n"@ + sharing_text(before),
{
}

/// What there is to note of an Endpoint is noted exactly where it holds; that
/// it shares its key is noted first.
pub proof fn law_endpoint_is_noted_as_it_is(e: EndpointSummary)
    ensures
        notes_spec(e).len() == (if e.duplicate_key {
            1int
        } else {
            0
        }) + (if e.ephemeral {
            1int
        } else {
            0
        }) + (if e.enrollment_key_id is Some {
            1int
        } else {
            0
        }) + (if e.revoke_reason is Some {
            1int
        } else {
            0
        }),
        e.duplicate_key ==> notes_spec(e)[0] == "SHARES ITS KEY"@,
        e.ephemeral ==> notes_spec(e)[if e.duplicate_key {
            1int
        } else {
            0
        }] == "ephemeral"@,
        e.revoke_reason matches Some(reason) ==> notes_spec(e).last() == reason@,
        e.enrollment_key_id matches Some(key) ==> notes_spec(e)[notes_spec(e).len() - (if e.revoke_reason is Some {
            2int
        } else {
            1
        })] == "from "@ + key@,
{
}

/// The line about an Endpoint has its id, its status and its name, each in its
/// place and marked where it is not known, and then its notes, where there are
/// any.
pub proof fn law_endpoint_line_names_it(e: EndpointSummary, status: String, name: String)
    ensures
        e.status == Some(status) && e.device_name == Some(name) && notes_spec(e).len() == 0 ==> endpoint_text(e) == "endpoint    : "@
            + e.endpoint_id@ + "  "@ + status@ + "  "@ + name@ + "\n"@,
        e.status == Some(status) && e.device_name == Some(name) && notes_spec(e).len() > 0 ==> endpoint_text(e) == "endpoint    : "@
            + e.endpoint_id@ + "  "@ + status@ + "  "@ + name@ + "  ("@ + join_spec(notes_spec(e), ", "@) + ")\n"@,
        e.status is None && e.device_name is None && notes_spec(e).len() == 0 ==> endpoint_text(e) == "endpoint    : "@
            + e.endpoint_id@ + "  "@ + "?"@ + "  "@ + "(no name)"@ + "\n"@,
{
}

/// Listings have one line for each row, in order.
pub proof fn law_listings_have_a_line_for_each_row(
    items: Seq<EndpointSummary>,
    item: EndpointSummary,
    keys: Seq<EnrollmentKeyRecord>,
    key: EnrollmentKeyRecord,
    rows: Seq<EnrollmentRecord>,
    row: EnrollmentRecord,
)
    ensures
        endpoints_text(items.push(item)) == endpoints_text(items) + endpoint_text(item),
        keys_text(keys.push(key)) == keys_text(keys) + key_text(key),
        enrollments_text(rows.push(row)) == enrollments_text(rows) + enrollment_text(row),
        endpoints_text(Seq::<EndpointSummary>::empty()).len() == 0,
        keys_text(Seq::<EnrollmentKeyRecord>::empty()).len() == 0,
        enrollments_text(Seq::<EnrollmentRecord>::empty()).len() == 0,
{
    assert(items.push(item).drop_last() =~= items);
    assert(keys.push(key).drop_last() =~= keys);
    assert(rows.push(row).drop_last() =~= rows);
}

/// At the end of a listing it is said that there are no Endpoints exactly where
/// none was shown, how many were left out where that is known, and that there
/// are more exactly where there are.
pub proof fn law_listing_says_what_it_left_out(pages: EndpointPages, hidden: i64)
    ensures
        pages.shown && pages.hidden is None && !pages.truncated ==> pages.footer_text().len() == 0,
        !pages.shown && pages.hidden is None && !pages.truncated ==> pages.footer_text() == "No endpoints.\n"@,
        pages.hidden == Some(hidden) ==> pages.footer_text() == (EndpointPages { hidden: None, truncated: false, ..pages }).footer_text()
            + "\n"@ + signed_decimal_spec(hidden as int) + " revoked endpoint(s) not shown -- --endpoint-status all\n"@ + (
        EndpointPages { hidden: None, shown: true, ..pages }).footer_text(),
        pages.shown && pages.hidden is None && pages.truncated ==> pages.footer_text()
            == "Stopped after 100 pages; there are more rows than this shows.\n"@,
{
    let stop = "Stopped after 100 pages; there are more rows than this shows.\n"@;
    assert(Seq::<char>::empty() + stop =~= stop);
    if pages.hidden == Some(hidden) {
        let t = (EndpointPages { hidden: None, truncated: false, ..pages }).footer_text() + "\n"@ + signed_decimal_spec(
            hidden as int,
        ) + " revoked endpoint(s) not shown -- --endpoint-status all\n"@;
        assert(t + Seq::<char>::empty() =~= t);
    }
}

/// The slots of a key are how many are taken of how many, where both are known;
/// and a key is pointed out as unbound exactly where it is bound to nothing.
pub proof fn law_slots_and_binding_are_shown(live: i64, max: Option<i64>, kind: String)
    ensures
        max matches Some(most) ==> slots_text(Some(live), max) == signed_decimal_spec(live as int) + "/"@ + signed_decimal_spec(
            most as int,
        ) + " slots"@,
        max is None ==> slots_text(Some(live), max) == signed_decimal_spec(live as int) + " live"@,
        slots_text(None, max) == "slots unknown"@,
        bound_text(None) == "UNBOUND"@,
        kind@ == "none"@ || kind@.len() == 0 ==> bound_text(Some(kind)) == "UNBOUND"@,
        kind@ != "none"@ && kind@.len() > 0 ==> bound_text(Some(kind)) == kind@,
{
    reveal_strlit("");
    if kind@.len() == 0 {
        assert(kind@ =~= ""@);
    }
}

/// The line about a key has its id, binding, slots and status, in this order,
/// and its label at the end where it has one.
pub proof fn law_key_line_names_it(key: EnrollmentKeyRecord, status: String, label: String)
    ensures
        key.status == Some(status) && key.label is None ==> key_text(key) == "key         : "@ + key.key_id@ + "  "@ + bound_text(
            key.binding,
        ) + ", "@ + slots_text(key.live_endpoints, key.max_live_endpoints) + ", "@ + status@ + "\n"@,
        key.status == Some(status) && key.label == Some(label) ==> key_text(key) == "key         : "@ + key.key_id@ + "  "@ + bound_text(
            key.binding,
        ) + ", "@ + slots_text(key.live_endpoints, key.max_live_endpoints) + ", "@ + status@ + ", "@ + label@ + "\n"@,
        key.status is None && key.label is None ==> key_text(key) == "key         : "@ + key.key_id@ + "  "@ + bound_text(key.binding)
            + ", "@ + slots_text(key.live_endpoints, key.max_live_endpoints) + ", "@ + "?"@ + "\n"@,
{
}

/// The line about what registered with a key has the Endpoint, as whom it
/// registered where that is known, and how it ended where it did; only where it
/// did not, its status.
pub proof fn law_enrolment_line_says_how_it_ended(row: EnrollmentRecord, subject: String, reason: String, status: String)
    ensures
        row.binding_subject == Some(subject) && row.revoke_reason == Some(reason) ==> enrollment_text(row) == "registered  : "@
            + row.endpoint_id@ + "  as "@ + subject@ + "  ended "@ + reason@ + "\n"@,
        row.binding_subject is None && row.revoke_reason == Some(reason) ==> enrollment_text(row) == "registered  : "@ + row.endpoint_id@
            + "  ended "@ + reason@ + "\n"@,
        row.binding_subject == Some(subject) && row.revoke_reason is None && row.status == Some(status) ==> enrollment_text(row)
            == "registered  : "@ + row.endpoint_id@ + "  as "@ + subject@ + "  "@ + status@ + "\n"@,
        row.binding_subject is None && row.revoke_reason is None && row.status is None ==> enrollment_text(row) == "registered  : "@
            + row.endpoint_id@ + "\n"@,
{
}

} // verus!
