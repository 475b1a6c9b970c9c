//! Who may use the tunnel gateway, and for what.

use vstd::prelude::*;
use vstd::string::StringExecFns;
use vstd::utf8::encode_utf8;

use crate::candidate::{EndpointId, KeyError};
use crate::services::ServiceMap;
use crate::text::{join3, quote, split_once};
use crate::tunnel::{RefuseStep, TunnelStatus};

verus! {

/// One access rule parsed from `ID` or `ID=SERVICE`.
#[derive(Debug)]
pub struct AllowRule {
    pub endpoint: EndpointId,
    /// None = every configured service.
    pub service: Option<String>,
}

/// An [`AllowRule`] as plain values.
#[verifier::ext_equal]
pub struct RuleView {
    pub endpoint: Seq<u8>,
    pub service: Option<Seq<char>>,
}

impl View for AllowRule {
    type V = RuleView;

    open spec fn view(&self) -> RuleView {
        RuleView {
            endpoint: self.endpoint@,
            service: match self.service {
                Some(s) => Some(s@),
                None => None,
            },
        }
    }
}

/// Why an access rule is refused: its endpoint id does not parse.
#[derive(Debug, Clone)]
pub struct RuleError {
    pub raw: String,
    pub cause: KeyError,
}

impl RuleError {
    /// The diagnostic, causes included.
    pub open spec fn text(self) -> Seq<char> {
        "invalid EndpointId in "@ + crate::text::quoted(self.raw@) + ": "@ + self.cause.text()
    }

    pub fn to_string(&self) -> (res: String)
        ensures
            res@ == self.text(),
    {
        let raw = quote(self.raw.as_str());
        let mut out = join3("invalid EndpointId in ", raw.as_str(), ": ");
        let cause = self.cause.to_string();
        out.append(cause.as_str());
        out
    }
}

/// The endpoint part and the service part of a rule.
pub open spec fn rule_parts(raw: Seq<char>) -> (Seq<char>, Option<Seq<char>>) {
    match crate::text::split_first(raw, '=') {
        Some((id, service)) => (id, Some(service)),
        None => (raw, None),
    }
}

/// What a rule says, given what its endpoint part reads as.
pub open spec fn rule_of(service: Option<Seq<char>>, id: Result<Seq<u8>, KeyError>) -> Result<
    RuleView,
    KeyError,
> {
    match id {
        Ok(endpoint) => Ok(RuleView { endpoint, service }),
        Err(e) => Err(e),
    }
}

/// Parse one access rule.
pub fn parse_allow_rule(raw: &str) -> (res: Result<AllowRule, RuleError>)
    ensures
        ({
            let (id, service) = rule_parts(raw@);
            let outcome = rule_of(service, crate::candidate::endpoint_id_of(id));
            match res {
                Ok(rule) => outcome == Ok::<RuleView, KeyError>(rule@),
                Err(e) => e.raw@ == raw@ && outcome == Err::<RuleView, KeyError>(e.cause),
            }
        }),
{
    match split_once(raw, '=') {
        Some((id, service)) => {
            let endpoint = EndpointId::parse(id.as_str());
            make_rule(raw, endpoint, Some(service))
        },
        None => make_rule(raw, EndpointId::parse(raw), None),
    }
}

/// The rule for an endpoint id that was parsed.
pub fn make_rule(raw: &str, endpoint: Result<EndpointId, KeyError>, service: Option<String>) -> (res:
    Result<AllowRule, RuleError>)
    ensures
        match (res, endpoint) {
            (Ok(rule), Ok(id)) => rule.endpoint == id && rule.service == service,
            (Err(e), Err(cause)) => e.raw@ == raw@ && e.cause == cause,
            _ => false,
        },
{
    match endpoint {
        Ok(endpoint) => Ok(AllowRule { endpoint, service }),
        Err(cause) => Err(RuleError { raw: raw.to_owned(), cause }),
    }
}

/// The routing table that a gateway starts with: at least one service.
pub fn configure(specs: &[String]) -> (res: Result<ServiceMap, String>)
    ensures
        match crate::services::specs_map(specs@) {
            Ok(services) => if services.len() > 0 {
                res matches Ok(map) && map@ == services
            } else {
                res matches Err(e) && e@ == "at least one --service is required"@
            },
            Err(error) => res matches Err(e) && e@ == error.text(),
        },
{
    match ServiceMap::from_specs(specs) {
        Err(e) => Err(e.to_string()),
        Ok(services) => {
            if services.is_empty() {
                return Err("at least one --service is required".to_owned());
            }
            Ok(services)
        },
    }
}

/// Whether some rule lets the endpoint use this service.
pub open spec fn grants(rules: Seq<AllowRule>, remote: Seq<u8>, service: Seq<char>) -> bool {
    exists|i: int|
        0 <= i < rules.len() && (#[trigger] rules[i])@ == (RuleView {
            endpoint: remote,
            service: Some(service),
        })
}

/// Whether some rule lets the endpoint use every service.
pub open spec fn grants_all(rules: Seq<AllowRule>, remote: Seq<u8>) -> bool {
    exists|i: int|
        0 <= i < rules.len() && (#[trigger] rules[i])@ == (RuleView {
            endpoint: remote,
            service: None,
        })
}

/// Whether some rule is about the endpoint.
pub open spec fn mentions(rules: Seq<AllowRule>, remote: Seq<u8>) -> bool {
    exists|i: int| 0 <= i < rules.len() && (#[trigger] rules[i])@.endpoint == remote
}

/// The services among these that rules grant to an endpoint.
pub open spec fn granted(
    rules: Seq<AllowRule>,
    remote: Seq<u8>,
    services: Map<Seq<char>, Seq<char>>,
) -> Map<Seq<char>, Seq<char>> {
    services.restrict(
        services.dom().filter(|name: Seq<char>| grants(rules, remote, name)),
    )
}

/// The services that the connecting endpoint may request. Without any rule,
/// that is all of them; an endpoint that no rule mentions is rejected.
pub open spec fn scope(
    rules: Seq<AllowRule>,
    remote: Seq<u8>,
    services: Map<Seq<char>, Seq<char>>,
) -> Option<Map<Seq<char>, Seq<char>>> {
    if rules.len() == 0 || grants_all(rules, remote) {
        Some(services)
    } else if mentions(rules, remote) {
        Some(granted(rules, remote, services))
    } else {
        None
    }
}

/// Services the connecting endpoint may request. `None` rejects the
/// connection; an empty map accepts the connection but no service.
pub fn connection_scope(remote: &EndpointId, allow: &Vec<AllowRule>, services: &ServiceMap) -> (res:
    Option<ServiceMap>)
    ensures
        match res {
            Some(scoped) => scope(allow@, remote@, services@) == Some(scoped@),
            None => scope(allow@, remote@, services@) is None,
        },
{
    if allow.len() == 0 {
        return Some(services.clone());
    }
    let mut scoped = ServiceMap::new();
    let mut matched = false;
    let mut i: usize = 0;
    assert(scoped@ =~= granted(allow@.take(0), remote@, services@)) by {
        assert(granted(allow@.take(0), remote@, services@).dom() =~= Set::empty());
    }
    while i < allow.len()
        invariant
            i <= allow@.len(),
            allow@.len() > 0,
            scoped@ == granted(allow@.take(i as int), remote@, services@),
            matched == mentions(allow@.take(i as int), remote@),
            !grants_all(allow@.take(i as int), remote@),
        decreases allow@.len() - i,
    {
        let rule = &allow[i];
        let ghost before = allow@.take(i as int);
        let ghost after = allow@.take(i + 1);
        proof {
            lemma_one_more_rule(before, *rule, remote@, services@);
            assert(after =~= before.push(*rule));
        }
        if rule.endpoint == *remote {
            matched = true;
            match &rule.service {
                None => {
                    proof {
                        assert(allow@[i as int]@ == (RuleView {
                            endpoint: remote@,
                            service: None,
                        }));
                        assert(grants_all(allow@, remote@));
                    }
                    return Some(services.clone());
                },
                Some(name) => {
                    if let Some(addr) = services.get(name.as_str()) {
                        proof {
                            reveal_strlit("=");
                            assert("="@ =~= seq!['=']);
                            crate::services::law_spec_roundtrip(name@, addr@);
                        }
                        let spec = join3(name.as_str(), "=", addr);
                        if scoped.insert_spec(spec.as_str()).is_err() {
                            return None;
                        }
                    }
                },
            }
        }
        i = i + 1;
    }
    assert(allow@.take(i as int) =~= allow@);
    if matched {
        Some(scoped)
    } else {
        None
    }
}

/// What one more rule changes.
proof fn lemma_one_more_rule(
    rules: Seq<AllowRule>,
    rule: AllowRule,
    remote: Seq<u8>,
    services: Map<Seq<char>, Seq<char>>,
)
    ensures
        mentions(rules.push(rule), remote) <==> mentions(rules, remote) || rule@.endpoint
            == remote,
        grants_all(rules.push(rule), remote) <==> grants_all(rules, remote) || rule@
            == (RuleView { endpoint: remote, service: None }),
        granted(rules.push(rule), remote, services) == (match rule@.service {
            Some(name) => if rule@.endpoint == remote && services.contains_key(name) {
                granted(rules, remote, services).insert(name, services[name])
            } else {
                granted(rules, remote, services)
            },
            None => granted(rules, remote, services),
        }),
{
    let all = rules.push(rule);
    assert(all[rules.len() as int] == rule);
    assert forall|i: int| 0 <= i < rules.len() implies all[i] == #[trigger] rules[i] by {}
    if mentions(rules, remote) {
        let i = choose|i: int| 0 <= i < rules.len() && (#[trigger] rules[i])@.endpoint == remote;
        assert(all[i]@.endpoint == remote);
    }
    if mentions(all, remote) {
        let i = choose|i: int| 0 <= i < all.len() && (#[trigger] all[i])@.endpoint == remote;
        if i < rules.len() {
            assert(rules[i]@.endpoint == remote);
        }
    }
    if grants_all(rules, remote) {
        let i = choose|i: int|
            0 <= i < rules.len() && (#[trigger] rules[i])@ == (RuleView {
                endpoint: remote,
                service: None,
            });
        assert(all[i]@ == rules[i]@);
    }
    if grants_all(all, remote) {
        let i = choose|i: int|
            0 <= i < all.len() && (#[trigger] all[i])@ == (RuleView {
                endpoint: remote,
                service: None,
            });
        if i < rules.len() {
            assert(rules[i]@ == all[i]@);
        }
    }
    assert forall|name: Seq<char>| grants(all, remote, name) == (grants(rules, remote, name)
        || rule@ == (RuleView { endpoint: remote, service: Some(name) })) by {
        if grants(rules, remote, name) {
            let i = choose|i: int|
                0 <= i < rules.len() && (#[trigger] rules[i])@ == (RuleView {
                    endpoint: remote,
                    service: Some(name),
                });
            assert(all[i]@ == rules[i]@);
        }
        if grants(all, remote, name) {
            let i = choose|i: int|
                0 <= i < all.len() && (#[trigger] all[i])@ == (RuleView {
                    endpoint: remote,
                    service: Some(name),
                });
            if i < rules.len() {
                assert(rules[i]@ == all[i]@);
            }
        }
    }
    let old_map = granted(rules, remote, services);
    let new_map = granted(all, remote, services);
    match rule@.service {
        Some(name) => if rule@.endpoint == remote && services.contains_key(name) {
            assert(new_map.dom() =~= old_map.insert(name, services[name]).dom());
            assert(new_map =~= old_map.insert(name, services[name]));
        } else {
            assert(new_map.dom() =~= old_map.dom());
            assert(new_map =~= old_map);
        },
        None => {
            assert(new_map.dom() =~= old_map.dom());
            assert(new_map =~= old_map);
        },
    }
}

// ---------------------------------------------------------------------------
// Laws
// ---------------------------------------------------------------------------

/// No endpoint ever reaches a service that is not configured, nor another
/// target than the configured one.
pub proof fn law_scope_within_services(
    rules: Seq<AllowRule>,
    remote: Seq<u8>,
    services: Map<Seq<char>, Seq<char>>,
)
    ensures
        scope(rules, remote, services) matches Some(scoped) ==> scoped.submap_of(services),
{
}

/// With rules in place, an endpoint reaches a service exactly when the service
/// is configured and a rule grants it, by name or as one of all.
pub proof fn law_scope_is_what_rules_grant(
    rules: Seq<AllowRule>,
    remote: Seq<u8>,
    services: Map<Seq<char>, Seq<char>>,
    name: Seq<char>,
)
    requires
        rules.len() > 0,
    ensures
        (scope(rules, remote, services) matches Some(scoped) && scoped.contains_key(name)) <==> (
        services.contains_key(name) && (grants_all(rules, remote) || grants(rules, remote, name))),
{
    if grants(rules, remote, name) {
        let i = choose|i: int|
            0 <= i < rules.len() && (#[trigger] rules[i])@ == (RuleView {
                endpoint: remote,
                service: Some(name),
            });
        assert(rules[i]@.endpoint == remote);
    }
}

/// With rules in place, an endpoint that none of them mentions is rejected.
pub proof fn law_unmentioned_endpoint_rejected(
    rules: Seq<AllowRule>,
    remote: Seq<u8>,
    services: Map<Seq<char>, Seq<char>>,
)
    requires
        rules.len() > 0,
    ensures
        scope(rules, remote, services) is None <==> !mentions(rules, remote),
{
    if grants_all(rules, remote) {
        let i = choose|i: int|
            0 <= i < rules.len() && (#[trigger] rules[i])@ == (RuleView {
                endpoint: remote,
                service: None,
            });
        assert(rules[i]@.endpoint == remote);
    }
}

/// With rules in place, an endpoint that none of them mentions has every whole
/// request answered as unauthorized, whatever service it asks for.
pub proof fn law_rejected_endpoint_is_told(
    rules: Seq<AllowRule>,
    remote: Seq<u8>,
    services: Map<Seq<char>, Seq<char>>,
    service_id: Seq<char>,
    rest: Seq<u8>,
    end: Option<Seq<char>>,
)
    requires
        rules.len() > 0,
        !mentions(rules, remote),
        encode_utf8(service_id).len() <= crate::tunnel::MAX_SERVICE_ID_LEN,
    ensures
        scope(rules, remote, services) is None,
        crate::tunnel::refuse_outcome(crate::tunnel::request_wire(service_id) + rest, end)
            == RefuseStep::Reply(TunnelStatus::Unauthorized),
{
    law_unmentioned_endpoint_rejected(rules, remote, services);
    crate::tunnel::law_rejection_tells_nothing(service_id, rest, Seq::empty(), end);
}

/// An access rule without an equals sign is the endpoint id alone; in one with
/// an equals sign the id ends at the first, and what follows names the
/// service. The endpoint is what the id reads as.
pub proof fn law_rule_parts(id: Seq<char>, service: Seq<char>, key: Seq<u8>, error: KeyError)
    requires
        !id.contains('='),
    ensures
        rule_parts(id) == (id, None::<Seq<char>>),
        rule_parts(id + seq!['='] + service) == (id, Some(service)),
        rule_of(Some(service), Ok(key)) == Ok::<RuleView, KeyError>(
            RuleView { endpoint: key, service: Some(service) },
        ),
        rule_of(None, Ok(key)) == Ok::<RuleView, KeyError>(
            RuleView { endpoint: key, service: None },
        ),
        rule_of(Some(service), Err(error)) == Err::<RuleView, KeyError>(error),
        rule_of(None, Err(error)) == Err::<RuleView, KeyError>(error),
{
    crate::text::lemma_split_absent(id, '=');
    crate::text::lemma_split_first(id, '=', service);
}

/// Who may use what, in terms of the rules themselves. Without rules everybody
/// may use everything. Otherwise an endpoint is let in exactly where a rule is
/// for it; it reaches everything where such a rule names no service, and else
/// exactly the configured services that such rules name, each at its
/// configured target.
pub proof fn law_access(
    rules: Seq<AllowRule>,
    remote: Seq<u8>,
    services: Map<Seq<char>, Seq<char>>,
    name: Seq<char>,
)
    ensures
        rules.len() == 0 ==> scope(rules, remote, services) == Some(services),
        rules.len() > 0 ==> ({
            let let_in = exists|i: int|
                0 <= i < rules.len() && (#[trigger] rules[i]).endpoint@ == remote;
            let all = exists|i: int|
                0 <= i < rules.len() && (#[trigger] rules[i]).endpoint@ == remote
                    && rules[i].service is None;
            let named = exists|i: int|
                0 <= i < rules.len() && (#[trigger] rules[i]).endpoint@ == remote && (
                rules[i].service matches Some(s) && s@ == name);
            &&& !let_in <==> scope(rules, remote, services) is None
            &&& scope(rules, remote, services) matches Some(scoped) ==> {
                &&& scoped.contains_key(name) <==> services.contains_key(name) && (all || named)
                &&& scoped.contains_key(name) ==> scoped[name] == services[name]
            }
        }),
{
    if exists|i: int| 0 <= i < rules.len() && (#[trigger] rules[i]).endpoint@ == remote {
        let i = choose|i: int| 0 <= i < rules.len() && (#[trigger] rules[i]).endpoint@ == remote;
        assert(rules[i]@.endpoint == remote);
    }
    if mentions(rules, remote) {
        let i = choose|i: int| 0 <= i < rules.len() && (#[trigger] rules[i])@.endpoint == remote;
        assert(rules[i].endpoint@ == remote);
    }
    if grants_all(rules, remote) {
        let i = choose|i: int|
            0 <= i < rules.len() && (#[trigger] rules[i])@ == (RuleView {
                endpoint: remote,
                service: None,
            });
        assert(rules[i].endpoint@ == remote && rules[i].service is None);
    }
    if exists|i: int|
        0 <= i < rules.len() && (#[trigger] rules[i]).endpoint@ == remote
            && rules[i].service is None {
        let i = choose|i: int|
            0 <= i < rules.len() && (#[trigger] rules[i]).endpoint@ == remote
                && rules[i].service is None;
        assert(rules[i]@ == (RuleView { endpoint: remote, service: None }));
    }
    if grants(rules, remote, name) {
        let i = choose|i: int|
            0 <= i < rules.len() && (#[trigger] rules[i])@ == (RuleView {
                endpoint: remote,
                service: Some(name),
            });
        assert(rules[i].endpoint@ == remote && (rules[i].service matches Some(s) && s@ == name));
    }
    if exists|i: int|
        0 <= i < rules.len() && (#[trigger] rules[i]).endpoint@ == remote && (
        rules[i].service matches Some(s) && s@ == name) {
        let i = choose|i: int|
            0 <= i < rules.len() && (#[trigger] rules[i]).endpoint@ == remote && (
            rules[i].service matches Some(s) && s@ == name);
        assert(rules[i]@ == (RuleView { endpoint: remote, service: Some(name) }));
    }
}

} // verus!
