//! The route on which a client's disconnection is asked for.
use crate::net::{IpAddr, IpSet};
use vstd::prelude::*;

verus! {

/// The answer to a request to disconnect a client.
#[derive(Clone, Copy, Debug)]
pub enum DisconnectReply {
    /// The status 403.
    Forbidden,
    /// A redirection to this path.
    Redirect(&'static str),
}

/// The pending requests after one more: only this machine may ask, and only for what is
/// an address.
pub open spec fn requests_after(
    requests: Set<IpAddr>,
    addr: IpAddr,
    ip: Option<IpAddr>,
) -> Set<IpAddr> {
    if addr.loopback() && ip is Some {
        requests.insert(ip->0)
    } else {
        requests
    }
}

/// Notes a request to disconnect a client. `ip` is the address that the form names, if
/// it names one.
pub fn disconnect_handler(
    addr: IpAddr,
    ip: Option<IpAddr>,
    disconnect_requests: &mut IpSet,
) -> (reply: DisconnectReply)
    ensures
        final(disconnect_requests)@ == requests_after(old(disconnect_requests)@, addr, ip),
        addr.loopback() && ip is Some ==> final(disconnect_requests)@ == old(
            disconnect_requests,
        )@.insert(ip->0),
        !addr.loopback() || ip is None ==> final(disconnect_requests)@ == old(
            disconnect_requests,
        )@,
        match reply {
            DisconnectReply::Forbidden => !addr.loopback(),
            DisconnectReply::Redirect(path) => addr.loopback() && path@ == "/status"@,
        },
{
    if !addr.is_loopback() {
        return DisconnectReply::Forbidden;
    }
    if let Some(ip) = ip {
        disconnect_requests.insert(ip);
    }
    DisconnectReply::Redirect("/status")
}

/// A request ends the named client's session at its next frame and no other client's,
/// and is then used up.
pub proof fn law_request_disconnects_once(
    requests: Set<IpAddr>,
    addr: IpAddr,
    ip: IpAddr,
    other: IpAddr,
)
    requires
        addr.loopback(),
        other != ip,
    ensures
        crate::session::stops_on_frame(requests_after(requests, addr, Some(ip)), ip),
        crate::session::stops_on_frame(requests_after(requests, addr, Some(ip)), other)
            == crate::session::stops_on_frame(requests, other),
        !crate::session::stops_on_frame(
            crate::session::requests_after_frame(requests_after(requests, addr, Some(ip)), ip),
            ip,
        ),
        crate::session::requests_after_frame(requests_after(requests, addr, Some(ip)), ip)
            == requests.remove(ip),
{
    assert(requests.insert(ip).remove(ip) =~= requests.remove(ip));
}

/// A request from this machine adds the address that it names to those pending, and
/// nothing else.
pub proof fn law_request_is_noted(
    requests: Set<IpAddr>,
    addr: IpAddr,
    ip: IpAddr,
    other: IpAddr,
)
    requires
        addr.loopback(),
    ensures
        requests_after(requests, addr, Some(ip)).contains(ip),
        other != ip ==> requests_after(requests, addr, Some(ip)).contains(other)
            == requests.contains(other),
        requests_after(requests, addr, None) == requests,
{
}

/// Another machine cannot disconnect anyone.
pub proof fn law_remote_request_has_no_effect(
    requests: Set<IpAddr>,
    addr: IpAddr,
    ip: Option<IpAddr>,
)
    requires
        !addr.loopback(),
    ensures
        requests_after(requests, addr, ip) == requests,
{
}

} // verus!
