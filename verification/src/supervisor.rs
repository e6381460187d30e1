//! From the entries of a mapping file to the forwarders that serve them.

use crate::mapping_rule::{MappingRule, Protocol};
use crate::tcp_proxy::TcpProxy;
use crate::udp_proxy::UdpProxy;
use vstd::prelude::*;

verus! {

/// The forwarder of one entry.
#[derive(Debug)]
pub enum Forwarder {
    Tcp(TcpProxy),
    Udp(UdpProxy),
}

/// The forwarder that serves `rule`: one of the rule's protocol, with the
/// rule's addresses. A UDP forwarder receives into buffers of
/// `udp_buffer_size` bytes.
pub fn forwarder(rule: MappingRule, udp_buffer_size: usize) -> (out: Forwarder)
    ensures
        match rule.protocol {
            Protocol::Tcp => out matches Forwarder::Tcp(proxy) && proxy.listen == rule.listen
                && proxy.upstream == rule.upstream,
            Protocol::Udp => out matches Forwarder::Udp(proxy) && proxy.listen == rule.listen
                && proxy.upstream == rule.upstream && proxy.buffer_size == udp_buffer_size,
        },
{
    match rule.protocol {
        Protocol::Tcp => Forwarder::Tcp(TcpProxy::new(rule.listen, rule.upstream)),
        Protocol::Udp => Forwarder::Udp(UdpProxy::new(rule.listen, rule.upstream, udp_buffer_size)),
    }
}

} // verus!
