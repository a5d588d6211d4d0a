//! Network addresses as plain numbers.

use vstd::prelude::*;
use vstd::string::StringExecFns;
use crate::text::{decimal, decimal_string, hex_string, hexadecimal};

verus! {

/// An IP address: the four octets of version 4, or the eight groups of
/// version 6.
#[derive(Clone, Copy, Debug, PartialEq, Eq, Structural, Hash)]
pub enum IpAddr {
    V4(u8, u8, u8, u8),
    V6(u16, u16, u16, u16, u16, u16, u16, u16),
}

/// An IP address and a port.
#[derive(Clone, Copy, Debug, PartialEq, Eq, Structural, Hash)]
pub struct SocketAddr {
    pub ip: IpAddr,
    pub port: u16,
}

impl IpAddr {
    /// The address as text: dotted decimal for version 4; for version 6
    /// all eight groups in hexadecimal, none left out.
    pub open spec fn text(self) -> Seq<char> {
        match self {
            IpAddr::V4(a, b, c, d) => decimal(a as nat) + "."@ + decimal(b as nat) + "."@
                + decimal(c as nat) + "."@ + decimal(d as nat),
            IpAddr::V6(a, b, c, d, e, f, g, h) => hexadecimal(a as nat) + ":"@ + hexadecimal(
                b as nat,
            ) + ":"@ + hexadecimal(c as nat) + ":"@ + hexadecimal(d as nat) + ":"@ + hexadecimal(
                e as nat,
            ) + ":"@ + hexadecimal(f as nat) + ":"@ + hexadecimal(g as nat) + ":"@ + hexadecimal(
                h as nat,
            ),
        }
    }

    /// The address as text.
    pub fn to_text(&self) -> (s: String)
        ensures
            s@ == self.text(),
    {
        match *self {
            IpAddr::V4(a, b, c, d) => {
                let mut s = decimal_string(a as u64);
                s.append(".");
                s.append(decimal_string(b as u64).as_str());
                s.append(".");
                s.append(decimal_string(c as u64).as_str());
                s.append(".");
                s.append(decimal_string(d as u64).as_str());
                s
            },
            IpAddr::V6(a, b, c, d, e, f, g, h) => {
                let mut s = hex_string(a as u64);
                s.append(":");
                s.append(hex_string(b as u64).as_str());
                s.append(":");
                s.append(hex_string(c as u64).as_str());
                s.append(":");
                s.append(hex_string(d as u64).as_str());
                s.append(":");
                s.append(hex_string(e as u64).as_str());
                s.append(":");
                s.append(hex_string(f as u64).as_str());
                s.append(":");
                s.append(hex_string(g as u64).as_str());
                s.append(":");
                s.append(hex_string(h as u64).as_str());
                s
            },
        }
    }
}

impl SocketAddr {
    /// The address `a.b.c.d` of version 4 with the given port.
    pub fn v4(a: u8, b: u8, c: u8, d: u8, port: u16) -> (addr: SocketAddr)
        ensures
            addr == (SocketAddr { ip: IpAddr::V4(a, b, c, d), port }),
    {
        SocketAddr { ip: IpAddr::V4(a, b, c, d), port }
    }

    /// The address as text: the IP address, in square brackets where it is
    /// of version 6, a colon and the port.
    pub open spec fn text(self) -> Seq<char> {
        match self.ip {
            IpAddr::V4(..) => self.ip.text() + ":"@ + decimal(self.port as nat),
            IpAddr::V6(..) => "["@ + self.ip.text() + "]:"@ + decimal(self.port as nat),
        }
    }

    /// The address as text.
    pub fn to_text(&self) -> (s: String)
        ensures
            s@ == self.text(),
    {
        match self.ip {
            IpAddr::V4(..) => {
                let mut s = self.ip.to_text();
                s.append(":");
                s.append(decimal_string(self.port as u64).as_str());
                s
            },
            IpAddr::V6(..) => {
                let mut s = String::from_str("[");
                s.append(self.ip.to_text().as_str());
                s.append("]:");
                s.append(decimal_string(self.port as u64).as_str());
                s
            },
        }
    }
}

} // verus!
