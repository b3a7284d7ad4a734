//! Discovery bookkeeping: turns what the multicast service browser reports
//! into identity-keyed "found" and "lost" events.
//!
//! The browser reports a removal by service label only, so the tracker keeps
//! the identity last resolved under each label. Resolutions without a
//! `peer_id`, of this machine itself, or with no usable address are dropped;
//! IPv6 link-local addresses are never usable.
use vstd::prelude::*;
use vstd::string::*;
use crate::store::{entry_views, find_entry, lemma_lookup_without_key, lookup, without_entry, without_key, SettingView};
use crate::types::{PeerId, PeerInfo, PeerView, Timestamp};

verus! {

/// The service type that daemons advertise and browse.
pub const SERVICE_TYPE: &'static str = "_familycom._tcp.local.";

/// What discovery tells the daemon.
#[derive(Debug)]
pub enum DiscoveryEvent {
    /// A peer was resolved, or resolved again.
    PeerFound(PeerInfo),
    /// A peer left the network.
    PeerLost(PeerId),
}

/// Why discovery could not start.
#[derive(Debug)]
pub enum DiscoveryError {
    Mdns(String),
    Registration(String),
}

/// One step of restricting discovery to a network interface.
#[derive(Debug)]
pub enum InterfaceRule {
    DisableAll,
    EnableNamed(String),
    DisableIpv6,
}

/// The steps that restrict discovery to the interface `name`, in the order
/// they must be applied: the provider applies rules in order and the last
/// match wins, so everything is disabled, the named interface enabled, and
/// IPv6 disabled again. No restriction means no step.
pub fn interface_rules(name: &Option<String>) -> (r: Vec<InterfaceRule>)
    ensures
        match name {
            None => r@.len() == 0,
            Some(n) => {
                &&& r@.len() == 3
                &&& r@[0] is DisableAll
                &&& (r@[1] matches InterfaceRule::EnableNamed(m) && m@ == n@)
                &&& r@[2] is DisableIpv6
            },
        },
{
    let mut rules: Vec<InterfaceRule> = Vec::new();
    match name {
        Some(n) => {
            rules.push(InterfaceRule::DisableAll);
            rules.push(InterfaceRule::EnableNamed(n.clone()));
            rules.push(InterfaceRule::DisableIpv6);
        },
        None => {},
    }
    rules
}

/// An IP address as its octets or its 16-bit segments.
#[derive(Debug, Clone, Copy)]
pub enum IpAddress {
    V4([u8; 4]),
    V6([u16; 8]),
}

/// `ip` is an IPv6 link-local address (`fe80::/10`).
pub open spec fn link_local(ip: IpAddress) -> bool {
    match ip {
        IpAddress::V6(s) => s[0] & 0xffc0u16 == 0xfe80u16,
        IpAddress::V4(_) => false,
    }
}

/// Whether `ip` is an IPv6 link-local address.
pub fn is_ipv6_link_local(ip: &IpAddress) -> (r: bool)
    ensures
        r == link_local(*ip),
{
    match ip {
        IpAddress::V6(s) => s[0] & 0xffc0u16 == 0xfe80u16,
        IpAddress::V4(_) => false,
    }
}

/// One resolved address of a service, with its `host:port` text.
#[derive(Debug)]
pub struct Endpoint {
    pub ip: IpAddress,
    pub text: String,
}

/// A service instance as the browser resolved it.
#[derive(Debug)]
pub struct ResolvedService {
    /// The service label that removals name.
    pub fullname: String,
    /// The `peer_id` text attribute.
    pub peer_id: Option<String>,
    /// The `display_name` text attribute.
    pub display_name: Option<String>,
    pub endpoints: Vec<Endpoint>,
}

/// The texts of the endpoints that can be dialled, in order.
pub open spec fn usable(e: Seq<Endpoint>) -> Seq<Seq<char>>
    decreases e.len(),
{
    if e.len() == 0 {
        Seq::empty()
    } else if link_local(e.last().ip) {
        usable(e.drop_last())
    } else {
        usable(e.drop_last()).push(e.last().text@)
    }
}

/// The name shown for a peer that advertised none.
pub open spec fn unknown_name() -> Seq<char> {
    seq!['U', 'n', 'k', 'n', 'o', 'w', 'n']
}

/// The peer that a resolution of `svc` with identity `id` stands for.
pub open spec fn found_peer(svc: ResolvedService, id: Seq<char>, now: Timestamp) -> PeerView {
    PeerView {
        id,
        display_name: match svc.display_name {
            Some(n) => n@,
            None => unknown_name(),
        },
        addresses: usable(svc.endpoints@),
        last_seen_at: now.0,
        online: true,
    }
}

/// Tracks the identity resolved under each service label.
#[derive(Debug)]
pub struct PeerTracker {
    our_peer_id: PeerId,
    labels: Vec<(String, String)>,
}

impl PeerTracker {
    /// The identity of this machine, whose own advertisement is ignored.
    pub closed spec fn our_id(&self) -> Seq<char> {
        self.our_peer_id@
    }

    /// Label and identity pairs; the last pair of a label counts.
    pub closed spec fn labels_view(&self) -> Seq<SettingView> {
        entry_views(self.labels@)
    }

    /// A tracker that knows no label yet.
    pub fn new(our_peer_id: PeerId) -> (r: Self)
        ensures
            r.our_id() == our_peer_id@,
            r.labels_view().len() == 0,
    {
        let r = PeerTracker { our_peer_id, labels: Vec::new() };
        assert(r.labels_view() =~= Seq::<SettingView>::empty());
        r
    }

    /// The identity of this machine.
    pub fn peer_id(&self) -> (r: &PeerId)
        ensures
            r@ == self.our_id(),
    {
        &self.our_peer_id
    }

    /// The event for a resolved service: `PeerFound` for a peer with an
    /// identity other than this machine's and at least one usable address,
    /// whose label is then remembered; nothing otherwise.
    pub fn on_resolved(&mut self, svc: ResolvedService, now: Timestamp) -> (r: Option<DiscoveryEvent>)
        ensures
            final(self).our_id() == old(self).our_id(),
            match svc.peer_id {
                Some(id) if id@ != old(self).our_id() && usable(svc.endpoints@).len() > 0 => {
                    &&& r matches Some(DiscoveryEvent::PeerFound(p)) && p@ == found_peer(
                        svc,
                        id@,
                        now,
                    )
                    &&& final(self).labels_view() == without_key(
                        old(self).labels_view(),
                        svc.fullname@,
                    ).push((svc.fullname@, id@))
                },
                _ => r is None && final(self).labels_view() == old(self).labels_view(),
            },
    {
        let id = match &svc.peer_id {
            Some(id) => id,
            None => return None,
        };
        if crate::text::text_eq(id.as_str(), self.our_peer_id.as_str()) {
            return None;
        }
        let ghost ev = svc.endpoints@;
        let mut addresses: Vec<String> = Vec::new();
        let mut i: usize = 0;
        assert(ev.subrange(0, 0) =~= Seq::<Endpoint>::empty());
        while i < svc.endpoints.len()
            invariant
                i <= ev.len(),
                ev == svc.endpoints@,
                crate::types::texts(addresses@) == usable(ev.subrange(0, i as int)),
            decreases ev.len() - i,
        {
            let e = &svc.endpoints[i];
            assert(ev.subrange(0, i as int + 1).drop_last() =~= ev.subrange(0, i as int));
            if !is_ipv6_link_local(&e.ip) {
                let ghost before = addresses@;
                addresses.push(e.text.clone());
                assert(crate::types::texts(addresses@) =~= crate::types::texts(before).push(
                    e.text@,
                ));
            }
            i = i + 1;
        }
        assert(ev.subrange(0, i as int) =~= ev);
        if addresses.len() == 0 {
            return None;
        }
        let display_name = match &svc.display_name {
            Some(n) => n.clone(),
            None => {
                proof {
                    reveal_strlit("Unknown");
                }
                assert("Unknown"@ =~= unknown_name());
                String::from_str("Unknown")
            },
        };
        let ghost lv = self.labels_view();
        let mut labels = without_entry(&self.labels, svc.fullname.as_str());
        let ghost before = labels@;
        labels.push((svc.fullname.clone(), id.clone()));
        assert(entry_views(labels@) =~= entry_views(before).push((svc.fullname@, id@)));
        self.labels = labels;
        let peer = PeerInfo {
            id: PeerId::new(id.as_str()),
            display_name,
            addresses,
            last_seen_at: now,
            online: true,
        };
        Some(DiscoveryEvent::PeerFound(peer))
    }

    /// The event for a removed service: `PeerLost` with the identity last
    /// resolved under `fullname`, which is then forgotten; nothing for a
    /// label never resolved.
    pub fn on_removed(&mut self, fullname: &str) -> (r: Option<DiscoveryEvent>)
        ensures
            final(self).our_id() == old(self).our_id(),
            match lookup(old(self).labels_view(), fullname@) {
                Some(id) => {
                    &&& r matches Some(DiscoveryEvent::PeerLost(p)) && p@ == id
                    &&& final(self).labels_view() == without_key(old(self).labels_view(), fullname@)
                    &&& lookup(final(self).labels_view(), fullname@) is None
                },
                None => r is None && final(self).labels_view() == old(self).labels_view(),
            },
    {
        match find_entry(&self.labels, fullname) {
            Some(id) => {
                proof {
                    lemma_lookup_without_key(self.labels_view(), fullname@, fullname@);
                }
                self.labels = without_entry(&self.labels, fullname);
                Some(DiscoveryEvent::PeerLost(PeerId::new(id.as_str())))
            },
            None => None,
        }
    }
}

} // verus!
