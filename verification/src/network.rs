//! Identities and addresses of endpoints.

use vstd::prelude::*;

use std::str::FromStr;

use crate::config::SubsonicConfig;
use crate::error::{Error, ErrorModel};
use crate::path::same_bytes;
use crate::text::{after_prefix, is_blank, law_prefix, push_text, strip_prefix, trimmed};

verus! {

/// What `SecretKey::from_str` says of a text: that it is a secret key, or in words why it is none.
pub uninterp spec fn secret_key_of(text: Seq<char>) -> Result<(), Seq<char>>;

/// What `RelayUrl::from_str` makes of a text, in its normal form.
pub uninterp spec fn relay_url_of(text: Seq<char>) -> Option<Seq<char>>;

/// What `EndpointId::from_str` makes of a text, as bytes, or in words why it is no id.
pub uninterp spec fn endpoint_id_of(text: Seq<char>) -> Result<Seq<u8>, Seq<char>>;

/// What `EndpointTicket::from_str` makes of a text on a machine with words of `word_bits` bits: the
/// bytes of the endpoint's id and the routes to the endpoint as texts, or in words why the text is no
/// ticket.
pub uninterp spec fn ticket_address(text: Seq<char>, word_bits: u32) -> Result<
    (Seq<u8>, Seq<Seq<char>>),
    Seq<char>,
>;

/// `SecretKey::from_str`: whether the text is a secret key, and else its error in words. Both depend
/// on nothing but the text; what they are is left to the name.
#[verifier::external_body]
fn parse_secret(text: &str) -> (r: Result<(), String>)
    ensures
        match r {
            Ok(_) => secret_key_of(text@) is Ok,
            Err(reason) => secret_key_of(text@) is Err && secret_key_of(text@)->Err_0 == reason@,
        },
{
    match iroh::SecretKey::from_str(text) {
        Ok(_) => Ok(()),
        Err(error) => Err(error.to_string()),
    }
}

/// What the error of `RelayUrl::from_str` says.
pub open spec fn relay_error() -> Seq<char> {
    "Failed to parse relay URL"@
}

/// `RelayUrl::from_str` and the text of what it gives: the address of a relay in its normal form,
/// which is left to the name, or an error, which says the same of every text that is no address.
#[verifier::external_body]
fn parse_relay_url(text: &str) -> (r: Result<String, String>)
    ensures
        match r {
            Ok(url) => relay_url_of(text@) == Some(url@),
            Err(reason) => relay_url_of(text@) is None && reason@ == relay_error(),
        },
{
    match iroh::RelayUrl::from_str(text) {
        Ok(url) => Ok(url.to_string()),
        Err(error) => Err(error.to_string()),
    }
}

/// `EndpointId::from_str` and the bytes of what it gives: the id of an endpoint, or its error in
/// words. Both depend on nothing but the text; what they are is left to the name.
#[verifier::external_body]
fn parse_endpoint_id(text: &str) -> (r: Result<Vec<u8>, String>)
    ensures
        match r {
            Ok(id) => endpoint_id_of(text@) is Ok && endpoint_id_of(text@)->Ok_0 == id@
                && id@.len() == 32,
            Err(reason) => endpoint_id_of(text@) is Err && endpoint_id_of(text@)->Err_0 == reason@,
        },
{
    match iroh::EndpointId::from_str(text) {
        Ok(id) => Ok(id.as_bytes().to_vec()),
        Err(error) => Err(error.to_string()),
    }
}

/// `EndpointTicket::from_str` and the parts of what it gives: the bytes of the endpoint's id and the
/// text of each of its routes, or its error in words. Both depend on the text, and on how many bits a
/// `usize` has: lengths in a ticket are read as such a number. What they are is left to the name.
#[verifier::external_body]
fn parse_ticket(text: &str) -> (r: Result<(Vec<u8>, Vec<String>), String>)
    ensures
        match r {
            Ok(parts) => ticket_address(text@, usize::BITS) is Ok
                && ticket_address(text@, usize::BITS)->Ok_0 == (parts.0@, parts.1.deep_view())
                && parts.0@.len() == 32,
            Err(reason) => ticket_address(text@, usize::BITS) is Err
                && ticket_address(text@, usize::BITS)->Err_0 == reason@,
        },
{
    match iroh_tickets::endpoint::EndpointTicket::from_str(text) {
        Ok(ticket) => {
            let addr = iroh::EndpointAddr::from(ticket);
            let routes = addr.addrs.iter().map(|route| route.to_string()).collect();
            Ok((addr.id.as_bytes().to_vec(), routes))
        },
        Err(error) => Err(error.to_string()),
    }
}

/// The error for a flag with a value that makes no sense.
pub open spec fn flag_error(flag: Seq<char>, reason: Seq<char>) -> ErrorModel {
    ErrorModel::InvalidRequest("invalid "@ + flag + ": "@ + reason)
}

/// The error for a flag with a value that makes no sense.
pub fn invalid_flag(flag: &str, reason: &str) -> (r: Error)
    ensures
        r.deep_view() == flag_error(flag@, reason@),
{
    let mut s = "invalid ".to_owned();
    push_text(&mut s, flag);
    push_text(&mut s, ": ");
    push_text(&mut s, reason);
    Error::InvalidRequest(s)
}

/// Checks the value of `--secret`.
pub fn check_secret(secret: &Option<String>) -> (r: Result<(), Error>)
    ensures
        match secret {
            Some(secret) => match secret_key_of(secret@) {
                Ok(()) => r is Ok,
                Err(reason) => r matches Err(error) && error.deep_view() == flag_error(
                    "--secret"@,
                    reason,
                ),
            },
            None => r is Ok,
        },
{
    match secret {
        Some(secret) => match parse_secret(secret) {
            Ok(()) => Ok(()),
            Err(reason) => Err(invalid_flag("--secret", &reason)),
        },
        None => Ok(()),
    }
}

/// The address that `--relay` gives, in its normal form.
pub fn parse_relay(relay: &Option<String>) -> (r: Result<Option<String>, Error>)
    ensures
        match r {
            Ok(url) => match relay {
                Some(relay) => url is Some && relay_url_of(relay@) == url.deep_view(),
                None => url is None,
            },
            Err(error) => relay matches Some(relay) && relay_url_of(relay@) is None
                && error.deep_view() == flag_error("--relay"@, relay_error()),
        },
{
    match relay {
        Some(relay) => match parse_relay_url(relay) {
            Ok(url) => Ok(Some(url)),
            Err(reason) => Err(invalid_flag("--relay", &reason)),
        },
        None => Ok(None),
    }
}

/// Whether the `i`-th value of `--peer` is the first that is no id, for the reason given.
pub open spec fn first_bad_peer(peers: Seq<Seq<char>>, i: int, reason: Seq<char>) -> bool {
    &&& 0 <= i < peers.len()
    &&& forall|j: int| 0 <= j < i ==> endpoint_id_of(#[trigger] peers[j]) is Ok
    &&& endpoint_id_of(peers[i]) == Err::<Seq<u8>, Seq<char>>(reason)
}

/// The ids that the values of `--peer` give, or why the first that is no id is none.
pub fn parse_peers(peers: &Vec<String>) -> (r: Result<Vec<Vec<u8>>, Error>)
    ensures
        match r {
            Ok(ids) => ids@.len() == peers@.len() && forall|i: int|
                0 <= i < peers@.len() ==> endpoint_id_of((#[trigger] peers@[i])@) == Ok::<
                    Seq<u8>,
                    Seq<char>,
                >(ids@[i]@),
            Err(error) => exists|i: int, reason: Seq<char>| #[trigger]
                first_bad_peer(peers.deep_view(), i, reason) && error.deep_view() == flag_error(
                    "--peer"@,
                    reason,
                ),
        },
{
    let total: usize = peers.len();
    let mut ids: Vec<Vec<u8>> = Vec::new();
    let mut i: usize = 0;
    while i < total
        invariant
            i <= total,
            total == peers@.len(),
            ids@.len() == i,
            forall|j: int|
                0 <= j < i ==> endpoint_id_of((#[trigger] peers@[j])@) == Ok::<
                    Seq<u8>,
                    Seq<char>,
                >(ids@[j]@),
        decreases total - i,
    {
        match parse_endpoint_id(&peers[i]) {
            Ok(id) => {
                ids.push(id);
            },
            Err(reason) => {
                proof {
                    let texts = peers.deep_view();
                    assert forall|j: int| 0 <= j < i implies endpoint_id_of(
                        #[trigger] texts[j],
                    ) is Ok by {
                        assert(texts[j] == peers@[j]@);
                    }
                    assert(first_bad_peer(texts, i as int, reason@));
                }
                return Err(invalid_flag("--peer", &reason));
            },
        }
        i = i + 1;
    }
    Ok(ids)
}

/// Whether a peer may use the backend: everybody may where nobody is listed.
pub open spec fn is_allowed(allowed: Seq<Seq<u8>>, peer: Seq<u8>) -> bool {
    allowed.len() == 0 || allowed.contains(peer)
}

/// Whether a peer may use the backend.
pub fn peer_allowed(allowed: &Vec<Vec<u8>>, peer: &Vec<u8>) -> (r: bool)
    ensures
        r == is_allowed(allowed.deep_view(), peer@),
{
    let total: usize = allowed.len();
    if total == 0 {
        return true;
    }
    assert(peer.deep_view() =~= peer@);
    let mut i: usize = 0;
    while i < total
        invariant
            i <= total,
            total == allowed@.len(),
            total > 0,
            forall|j: int| 0 <= j < i ==> allowed.deep_view()[j] != peer@,
        decreases total - i,
    {
        assert(allowed@[i as int].deep_view() =~= allowed@[i as int]@);
        assert(allowed.deep_view()[i as int] == allowed@[i as int]@);
        if same_bytes(&allowed[i], peer) {
            return true;
        }
        i = i + 1;
    }
    false
}

/// Where the backend is reached: the bytes of its id, and the routes to it. A route through a relay
/// is `relay:` and the address of the relay.
pub struct BackendAddress {
    pub id: Vec<u8>,
    pub routes: Vec<String>,
}

/// Whether a route goes through a relay.
pub open spec fn is_relay_route(route: Seq<char>) -> bool {
    after_prefix(route, "relay:"@) is Some
}

/// Routes with a relay in place of those that they go through, where one is given.
pub open spec fn routes_with(routes: Seq<Seq<char>>, relay: Option<Seq<char>>) -> Seq<Seq<char>> {
    match relay {
        Some(url) => routes.filter(|route: Seq<char>| !is_relay_route(route)).push("relay:"@ + url),
        None => routes,
    }
}

/// Puts a relay in place of those that the routes go through, where one is given.
pub fn override_relay(routes: Vec<String>, relay: Option<String>) -> (r: Vec<String>)
    ensures
        r.deep_view() == routes_with(routes.deep_view(), relay.deep_view()),
{
    let url = match relay {
        Some(url) => url,
        None => {
            return routes;
        },
    };
    let ghost all = routes.deep_view();
    let ghost direct = |route: Seq<char>| !is_relay_route(route);
    let total: usize = routes.len();
    let mut kept: Vec<String> = Vec::new();
    let mut i: usize = 0;
    proof {
        reveal(Seq::filter);
        assert(all.take(0).filter(direct) =~= seq![]);
        assert(kept.deep_view() =~= seq![]);
    }
    while i < total
        invariant
            i <= total,
            total == routes@.len(),
            all == routes.deep_view(),
            direct == (|route: Seq<char>| !is_relay_route(route)),
            kept.deep_view() == all.take(i as int).filter(direct),
        decreases total - i,
    {
        let ghost before = kept.deep_view();
        proof {
            assert(all.take(i + 1) =~= all.take(i as int).push(all[i as int]));
            all.take(i as int).lemma_filter_push(all[i as int], direct);
        }
        if strip_prefix(&routes[i], "relay:").is_none() {
            kept.push(routes[i].clone());
            assert(kept.deep_view() =~= before.push(all[i as int]));
        }
        i = i + 1;
    }
    assert(all.take(total as int) =~= all);
    let ghost before = kept.deep_view();
    let mut route = "relay:".to_owned();
    push_text(&mut route, &url);
    kept.push(route);
    assert(kept.deep_view() =~= before.push("relay:"@ + url@));
    kept
}

/// The ticket that the settings give: one that is blank is none.
pub open spec fn given_ticket(ticket: Option<Seq<char>>) -> Option<Seq<char>> {
    match ticket {
        Some(ticket) => if trimmed(ticket).len() > 0 {
            Some(ticket)
        } else {
            None
        },
        None => None,
    }
}

/// Where the settings say that the backend is reached: where their ticket says, if they give one,
/// or else the endpoint they name; and through the relay that they name, if they name one.
pub fn backend_addr_from_config(config: &SubsonicConfig, relay: Option<String>) -> (r: Result<
    BackendAddress,
    Error,
>)
    ensures
        match given_ticket(config.ticket.deep_view()) {
            Some(ticket) => match (ticket_address(ticket, usize::BITS), r) {
                (Ok((id, routes)), Ok(address)) => address.id@ == id
                    && address.routes.deep_view() == routes_with(routes, relay.deep_view()),
                (Err(reason), Err(error)) => error.deep_view() == flag_error("--ticket"@, reason),
                _ => false,
            },
            None => match (endpoint_id_of(config.endpoint@), r) {
                (Ok(id), Ok(address)) => address.id@ == id && address.routes.deep_view()
                    == routes_with(seq![], relay.deep_view()),
                (Err(reason), Err(error)) => error.deep_view() == flag_error("--endpoint"@, reason),
                _ => false,
            },
        },
{
    if let Some(ticket) = &config.ticket {
        if !is_blank(ticket) {
            return match parse_ticket(ticket) {
                Ok((id, routes)) => Ok(
                    BackendAddress { id, routes: override_relay(routes, relay) },
                ),
                Err(reason) => Err(invalid_flag("--ticket", &reason)),
            };
        }
    }
    match parse_endpoint_id(&config.endpoint) {
        Ok(id) => {
            let none: Vec<String> = Vec::new();
            assert(none.deep_view() =~= seq![]);
            Ok(BackendAddress { id, routes: override_relay(none, relay) })
        },
        Err(reason) => Err(invalid_flag("--endpoint", &reason)),
    }
}

/// The relays of routes, separated by commas.
pub open spec fn joined_relays(routes: Seq<Seq<char>>) -> Seq<char>
    decreases routes.len(),
{
    if routes.len() == 0 {
        seq![]
    } else {
        let before = joined_relays(routes.drop_last());
        match after_prefix(routes.last(), "relay:"@) {
            Some(url) => if before.len() == 0 {
                url
            } else {
                before + ","@ + url
            },
            None => before,
        }
    }
}

/// The relays through which the backend is reached, in words.
pub fn relays_for_log(address: &BackendAddress) -> (r: String)
    ensures
        r@ == (if joined_relays(address.routes.deep_view()).len() == 0 {
            "<none>"@
        } else {
            joined_relays(address.routes.deep_view())
        }),
{
    let ghost all = address.routes.deep_view();
    let total: usize = address.routes.len();
    let mut out = String::new();
    let mut i: usize = 0;
    assert(all.take(0) =~= seq![]);
    assert(out@ =~= seq![]);
    while i < total
        invariant
            i <= total,
            total == address.routes@.len(),
            all == address.routes.deep_view(),
            out@ == joined_relays(all.take(i as int)),
        decreases total - i,
    {
        let ghost before = out@;
        assert(all.take(i + 1).drop_last() =~= all.take(i as int));
        assert(all.take(i + 1).last() == address.routes@[i as int]@);
        if let Some(url) = strip_prefix(&address.routes[i], "relay:") {
            if out.as_str().unicode_len() == 0 {
                out = url;
            } else {
                push_text(&mut out, ",");
                push_text(&mut out, &url);
            }
        }
        i = i + 1;
    }
    assert(all.take(total as int) =~= all);
    if out.as_str().unicode_len() == 0 {
        "<none>".to_owned()
    } else {
        out
    }
}

/// A relay that is given overrides those of the ticket: it is the only relay that is left, and no
/// other route is lost.
pub proof fn law_relay_overrides(routes: Seq<Seq<char>>, url: Seq<char>, route: Seq<char>)
    ensures
        routes_with(routes, Some(url)).contains(route) <==> route == "relay:"@ + url || (
        routes.contains(route) && !is_relay_route(route)),
{
    let direct = |route: Seq<char>| !is_relay_route(route);
    let kept = routes.filter(direct);
    let all = routes_with(routes, Some(url));
    if all.contains(route) {
        let i = choose|i: int| 0 <= i < all.len() && all[i] == route;
        if i < kept.len() {
            assert(kept[i] == route);
            routes.lemma_filter_pred(direct, i);
            routes.lemma_filter_contains_rev(direct, route);
        }
    }
    if route == "relay:"@ + url {
        assert(all[kept.len() as int] == route);
    }
    if routes.contains(route) && !is_relay_route(route) {
        let k = choose|k: int| 0 <= k < routes.len() && routes[k] == route;
        routes.lemma_filter_contains(direct, k);
        let i = choose|i: int| 0 <= i < kept.len() && kept[i] == route;
        assert(all[i] == route);
    }
}

/// Without a list of peers everybody may use the backend; with one, only those on it.
pub proof fn law_access_is_open_or_listed(allowed: Seq<Seq<u8>>, peer: Seq<u8>)
    ensures
        allowed.len() == 0 ==> is_allowed(allowed, peer),
        allowed.len() > 0 ==> is_allowed(allowed, peer) == allowed.contains(peer),
{
}

/// A route through a relay is `relay:` and its address; the relays of routes are shown in their order, with a
/// comma between them, and no other route is.
pub proof fn law_relays_are_shown(routes: Seq<Seq<char>>, url: Seq<char>, other: Seq<char>)
    requires
        forall|rest: Seq<char>| other != #[trigger] ("relay:"@ + rest),
    ensures
        is_relay_route("relay:"@ + url),
        !is_relay_route(other),
        joined_relays(Seq::<Seq<char>>::empty()).len() == 0,
        joined_relays(routes.push(other)) == joined_relays(routes),
        joined_relays(routes).len() == 0 ==> joined_relays(routes.push("relay:"@ + url)) == url,
        joined_relays(routes).len() > 0 ==> joined_relays(routes.push("relay:"@ + url))
            == joined_relays(routes) + ","@ + url,
{
    law_prefix("relay:"@, url);
    law_prefix("relay:"@, other);
    assert(routes.push(other).drop_last() =~= routes);
    assert(routes.push("relay:"@ + url).drop_last() =~= routes);
}

/// Routes stay in their order, with the relay that is given behind them; where none is given, they stay
/// as they are.
pub proof fn law_routes_stay_in_order(routes: Seq<Seq<char>>, route: Seq<char>, url: Seq<char>)
    ensures
        routes_with(routes, None) == routes,
        routes_with(routes, Some(url)).last() == "relay:"@ + url,
        routes_with(Seq::<Seq<char>>::empty(), Some(url)) == seq!["relay:"@ + url],
        (forall|rest: Seq<char>| route != #[trigger] ("relay:"@ + rest)) ==> routes_with(
            routes.push(route),
            Some(url),
        ) == routes_with(routes, Some(url)).drop_last().push(route).push("relay:"@ + url),
        routes_with(routes.push("relay:"@ + route), Some(url)) == routes_with(routes, Some(url)),
{
    reveal(Seq::filter);
    law_prefix("relay:"@, route);
    assert(routes.push(route).drop_last() =~= routes);
    assert(routes.push("relay:"@ + route).drop_last() =~= routes);
    let direct = |route: Seq<char>| !is_relay_route(route);
    assert(routes_with(routes, Some(url)).drop_last() =~= routes.filter(direct));
    assert(Seq::<Seq<char>>::empty().filter(direct) =~= Seq::<Seq<char>>::empty());
    assert(routes_with(Seq::<Seq<char>>::empty(), Some(url)) =~= seq!["relay:"@ + url]);
}

/// A ticket of nothing but white space is none.
pub proof fn law_blank_ticket_is_none(ticket: Seq<char>)
    ensures
        trimmed(ticket).len() > 0 ==> given_ticket(Some(ticket)) == Some(ticket),
        trimmed(ticket).len() == 0 ==> given_ticket(Some(ticket)) is None,
        given_ticket(None) is None,
{
}

/// A value that makes no sense is refused by the name of its flag, and for the reason given.
pub proof fn law_flag_is_named(flag: Seq<char>, reason: Seq<char>)
    ensures
        flag_error(flag, reason) == ErrorModel::InvalidRequest("invalid "@ + flag + ": "@ + reason),
{
}

} // verus!
