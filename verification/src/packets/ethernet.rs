//! EtherType values and Ethernet frame sizes.

use vstd::prelude::*;
use vstd::string::*;

use crate::text::{decimal, push_decimal};

verus! {

/// The number of bytes in an Ethernet (MAC) address.
pub const ETHER_ADDR_LEN: usize = 6;

/// The number of bytes in the type field.
pub const ETHER_TYPE_LEN: usize = 2;

/// The number of bytes in the trailing CRC field.
pub const ETHER_CRC_LEN: usize = 4;

/// The length of the combined header.
pub const ETHER_HDR_LEN: usize = ETHER_ADDR_LEN * 2 + ETHER_TYPE_LEN;

/// The minimum packet length.
pub const ETHER_MIN_LEN: usize = 64;

/// The maximum packet length.
pub const ETHER_MAX_LEN: usize = 1518;

/// The protocol that an EtherType value names.
#[derive(Debug, Clone, Copy, PartialEq, Eq, Structural)]
pub enum EtherType {
    /// PUP protocol.
    Pup,
    /// IP protocol.
    IP,
    /// Address resolution protocol.
    ARP,
    /// Reverse address resolution protocol.
    Revarp,
    /// IEEE 802.1Q VLAN tagging.
    Vlan,
    /// IPv6.
    IPv6,
    /// EAPOL PAE/802.1x.
    Pae,
    /// WAI Authentication Protocol.
    Wai,
    /// 802.11i / RSN Pre-Authentication.
    RsnPreauth,
    /// IEEE 1588 Precision Time Protocol.
    Ptp,
    /// Used to test interfaces.
    Loopback,
    /// Any other value.
    Unknown(u16),
}

/// The EtherType that `typ` names.
pub open spec fn spec_ether_type(typ: u16) -> EtherType {
    match typ {
        0x0200 => EtherType::Pup,
        0x0800 => EtherType::IP,
        0x0806 => EtherType::ARP,
        0x8035 => EtherType::Revarp,
        0x8100 => EtherType::Vlan,
        0x86dd => EtherType::IPv6,
        0x888e => EtherType::Pae,
        0x88b4 => EtherType::Wai,
        0x88c7 => EtherType::RsnPreauth,
        0x88f7 => EtherType::Ptp,
        0x9000 => EtherType::Loopback,
        other => EtherType::Unknown(other),
    }
}

/// The text of an EtherType.
pub open spec fn ether_type_text(t: EtherType) -> Seq<char> {
    match t {
        EtherType::Pup => "PUP"@,
        EtherType::IP => "IPv4"@,
        EtherType::ARP => "ARP"@,
        EtherType::Revarp => "RARP"@,
        EtherType::Vlan => "802.1Q VLAN"@,
        EtherType::IPv6 => "IPv6"@,
        EtherType::Pae => "EAPOL"@,
        EtherType::Wai => "WAI"@,
        EtherType::RsnPreauth => "RSN Pre-Authentication"@,
        EtherType::Ptp => "PTP"@,
        EtherType::Loopback => "Loopback"@,
        EtherType::Unknown(c) => "Unknown("@ + decimal(c as nat) + ")"@,
    }
}

impl From<u16> for EtherType {
    fn from(typ: u16) -> (r: Self) {
        match typ {
            0x0200 => EtherType::Pup,
            0x0800 => EtherType::IP,
            0x0806 => EtherType::ARP,
            0x8035 => EtherType::Revarp,
            0x8100 => EtherType::Vlan,
            0x86dd => EtherType::IPv6,
            0x888e => EtherType::Pae,
            0x88b4 => EtherType::Wai,
            0x88c7 => EtherType::RsnPreauth,
            0x88f7 => EtherType::Ptp,
            0x9000 => EtherType::Loopback,
            other => EtherType::Unknown(other),
        }
    }
}

impl vstd::std_specs::convert::FromSpecImpl<u16> for EtherType {
    open spec fn obeys_from_spec() -> bool {
        true
    }

    open spec fn from_spec(typ: u16) -> Self {
        spec_ether_type(typ)
    }
}

impl EtherType {
    /// The protocol's short name, or `Unknown(n)` with the value in decimal.
    pub fn to_string(&self) -> (r: String)
        ensures
            r@ == ether_type_text(*self),
    {
        let mut s = String::new();
        match self {
            EtherType::Pup => {
                proof {
                    reveal_strlit("PUP");
                }
                s.append("PUP");
            },
            EtherType::IP => {
                proof {
                    reveal_strlit("IPv4");
                }
                s.append("IPv4");
            },
            EtherType::ARP => {
                proof {
                    reveal_strlit("ARP");
                }
                s.append("ARP");
            },
            EtherType::Revarp => {
                proof {
                    reveal_strlit("RARP");
                }
                s.append("RARP");
            },
            EtherType::Vlan => {
                proof {
                    reveal_strlit("802.1Q VLAN");
                }
                s.append("802.1Q VLAN");
            },
            EtherType::IPv6 => {
                proof {
                    reveal_strlit("IPv6");
                }
                s.append("IPv6");
            },
            EtherType::Pae => {
                proof {
                    reveal_strlit("EAPOL");
                }
                s.append("EAPOL");
            },
            EtherType::Wai => {
                proof {
                    reveal_strlit("WAI");
                }
                s.append("WAI");
            },
            EtherType::RsnPreauth => {
                proof {
                    reveal_strlit("RSN Pre-Authentication");
                }
                s.append("RSN Pre-Authentication");
            },
            EtherType::Ptp => {
                proof {
                    reveal_strlit("PTP");
                }
                s.append("PTP");
            },
            EtherType::Loopback => {
                proof {
                    reveal_strlit("Loopback");
                }
                s.append("Loopback");
            },
            EtherType::Unknown(c) => {
                s.append("Unknown(");
                push_decimal(&mut s, *c as u64);
                s.append(")");
            },
        }
        s
    }
}

/// Law of EtherType names: each named EtherType is what exactly its
/// assigned value maps to (ARP is 0x0806, RARP 0x8035, IPv4 0x0800, IPv6
/// 0x86dd, and so on), and every other value is kept as `Unknown` of itself.
pub proof fn law_ether_type_values(t: u16)
    ensures
        (<EtherType as vstd::std_specs::convert::FromSpec<u16>>::from_spec(t) == EtherType::Pup) <==> t == 0x0200,
        (<EtherType as vstd::std_specs::convert::FromSpec<u16>>::from_spec(t) == EtherType::IP) <==> t == 0x0800,
        (<EtherType as vstd::std_specs::convert::FromSpec<u16>>::from_spec(t) == EtherType::ARP) <==> t == 0x0806,
        (<EtherType as vstd::std_specs::convert::FromSpec<u16>>::from_spec(t) == EtherType::Revarp) <==> t == 0x8035,
        (<EtherType as vstd::std_specs::convert::FromSpec<u16>>::from_spec(t) == EtherType::Vlan) <==> t == 0x8100,
        (<EtherType as vstd::std_specs::convert::FromSpec<u16>>::from_spec(t) == EtherType::IPv6) <==> t == 0x86dd,
        (<EtherType as vstd::std_specs::convert::FromSpec<u16>>::from_spec(t) == EtherType::Pae) <==> t == 0x888e,
        (<EtherType as vstd::std_specs::convert::FromSpec<u16>>::from_spec(t) == EtherType::Wai) <==> t == 0x88b4,
        (<EtherType as vstd::std_specs::convert::FromSpec<u16>>::from_spec(t) == EtherType::RsnPreauth) <==> t == 0x88c7,
        (<EtherType as vstd::std_specs::convert::FromSpec<u16>>::from_spec(t) == EtherType::Ptp) <==> t == 0x88f7,
        (<EtherType as vstd::std_specs::convert::FromSpec<u16>>::from_spec(t) == EtherType::Loopback) <==> t == 0x9000,
        (t != 0x0200 && t != 0x0800 && t != 0x0806 && t != 0x8035 && t != 0x8100 && t != 0x86dd && t != 0x888e && t != 0x88b4 && t != 0x88c7 && t != 0x88f7 && t != 0x9000) ==> <EtherType as vstd::std_specs::convert::FromSpec<u16>>::from_spec(t) == EtherType::Unknown(t),
        <EtherType as vstd::std_specs::convert::FromSpec<u16>>::from_spec(t) matches EtherType::Unknown(x) ==> x == t,
{
}

} // verus!
