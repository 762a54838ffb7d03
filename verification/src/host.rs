//! A monitored host: its name, how it is reached, and its settings.

use vstd::prelude::*;
use crate::configuration::HostSetting;
use crate::error::{ErrorKind, LkError};
use crate::keyed::{deep_copy_vec, views_of};
use crate::text::{all_digits, append_decimal, append_text, chars_of, digits_value, split_on, split_on_char, alphanumeric_with,
    is_alphanumeric_with, decimal_text};

verus! {

/// An IP address: version 4 by its octets; version 6 (which only name
/// resolution yields) as the text the standard library writes for it.
#[derive(Debug)]
pub enum IpAddress {
    V4(u8, u8, u8, u8),
    V6(String),
}

/// The address that stands for none (0.0.0.0).
pub open spec fn unspecified_address() -> IpAddress {
    IpAddress::V4(0, 0, 0, 0)
}

/// Whether one dotted-decimal part is a valid octet: one to three digits,
/// no leading zero, at most 255.
pub open spec fn octet_ok(t: Seq<char>) -> bool {
    &&& 1 <= t.len() <= 3
    &&& all_digits(t)
    &&& (t.len() == 1 || t[0] != '0')
    &&& digits_value(t) <= 255
}

/// The address that a text in dotted-decimal notation gives (the notation
/// `Ipv4Addr`'s `FromStr` takes: four octets without leading zeros), if any.
pub open spec fn ipv4_of(s: Seq<char>) -> Option<IpAddress> {
    let parts = split_on(s, '.');
    if parts.len() == 4 && octet_ok(parts[0]) && octet_ok(parts[1]) && octet_ok(parts[2]) && octet_ok(parts[3]) {
        Some(
            IpAddress::V4(
                digits_value(parts[0]) as u8,
                digits_value(parts[1]) as u8,
                digits_value(parts[2]) as u8,
                digits_value(parts[3]) as u8,
            ),
        )
    } else {
        None
    }
}

/// Parses one octet.
fn parse_octet(t: &str) -> (r: Option<u8>)
    ensures
        r matches Some(v) ==> octet_ok(t@) && v == digits_value(t@),
        r is None ==> !octet_ok(t@),
{
    let cs = chars_of(t);
    if cs.len() == 0 || cs.len() > 3 {
        return None;
    }
    if cs.len() > 1 && cs[0] == '0' {
        return None;
    }
    let mut value: u32 = 0;
    let mut i: usize = 0;
    assert(cs@.subrange(0, 0) =~= Seq::<char>::empty());
    while i < cs.len()
        invariant
            cs@ == t@,
            1 <= cs.len() <= 3,
            i <= cs.len(),
            all_digits(cs@.subrange(0, i as int)),
            value == digits_value(cs@.subrange(0, i as int)),
            i == 0 ==> value == 0,
            i <= 1 ==> value < 10,
            i <= 2 ==> value < 100,
            value < 1000,
        decreases cs.len() - i,
    {
        let c = cs[i];
        if c < '0' || c > '9' {
            proof {
                assert(!('0' <= t@[i as int] && t@[i as int] <= '9'));
            }
            return None;
        }
        let ghost prefix = cs@.subrange(0, i as int);
        let ghost next = cs@.subrange(0, i + 1);
        assert(next.drop_last() =~= prefix);
        assert(next.last() == c);
        value = value * 10 + ((c as u32) - 48);
        i = i + 1;
    }
    assert(cs@.subrange(0, cs.len() as int) =~= t@);
    if value > 255 {
        None
    } else {
        Some(value as u8)
    }
}

/// Parses an address in dotted-decimal notation.
pub fn parse_ipv4(s: &str) -> (r: Option<IpAddress>)
    ensures
        r == ipv4_of(s@),
{
    let parts = split_on_char(s, '.');
    let ghost pv = parts@.map_values(|p: String| p@);
    if parts.len() != 4 {
        return None;
    }
    assert(parts@[0]@ == pv[0] && parts@[1]@ == pv[1] && parts@[2]@ == pv[2] && parts@[3]@ == pv[3]);
    let a = parse_octet(parts[0].as_str());
    let b = parse_octet(parts[1].as_str());
    let c = parse_octet(parts[2].as_str());
    let d = parse_octet(parts[3].as_str());
    match (a, b, c, d) {
        (Some(a), Some(b), Some(c), Some(d)) => Some(IpAddress::V4(a, b, c, d)),
        _ => None,
    }
}

/// A host that is monitored.
#[derive(Debug)]
pub struct Host {
    pub name: String,
    pub fqdn: String,
    pub ip_address: IpAddress,
    pub settings: Vec<HostSetting>,
}

/// The text of an address: dotted decimal for version 4.
pub open spec fn address_text(a: IpAddress) -> Seq<char> {
    match a {
        IpAddress::V4(x, y, z, w) => decimal_text(x as int) + "."@ + decimal_text(y as int) + "."@ + decimal_text(
            z as int,
        ) + "."@ + decimal_text(w as int),
        IpAddress::V6(t) => t@,
    }
}

impl Host {
    /// A host named `name` (letters, digits and `-` only), at the address
    /// `ip_address` in dotted decimal (0.0.0.0 when it is not one).
    pub fn new(name: &str, ip_address: &str, fqdn: &str, settings: &Vec<HostSetting>) -> (r: Result<Host, LkError>)
        ensures
            r is Err <==> !alphanumeric_with(name@, "-"@),
            r matches Err(e) ==> e.kind == ErrorKind::InvalidConfig && e.message@ == "Invalid host name"@
                && e.source_id@.len() == 0 && e.parameter is None,
            r matches Ok(h) ==> h.name@ == name@ && h.fqdn@ == fqdn@ && views_of(h.settings@) == views_of(settings@)
                && h.ip_address == match ipv4_of(ip_address@) {
                Some(a) => a,
                None => unspecified_address(),
            },
    {
        if !is_alphanumeric_with(name, "-") {
            return Err(LkError::new(ErrorKind::InvalidConfig, "Invalid host name"));
        }
        let address = match parse_ipv4(ip_address) {
            Some(a) => a,
            None => IpAddress::V4(0, 0, 0, 0),
        };
        Ok(Host { name: name.to_string(), fqdn: fqdn.to_string(), ip_address: address, settings: deep_copy_vec(settings) })
    }

    /// A host with only a name and settings.
    pub fn empty(name: &str, settings: &Vec<HostSetting>) -> (h: Host)
        ensures
            h.name@ == name@,
            h.fqdn@.len() == 0,
            h.ip_address == unspecified_address(),
            views_of(h.settings@) == views_of(settings@),
    {
        Host { name: name.to_string(), fqdn: String::new(), ip_address: IpAddress::V4(0, 0, 0, 0), settings: deep_copy_vec(settings) }
    }

    /// The address to connect to: the name in DNS when there is one,
    /// otherwise the IP address.
    pub fn get_address(&self) -> (r: String)
        ensures
            self.fqdn@.len() > 0 ==> r@ == self.fqdn@,
            self.fqdn@.len() == 0 ==> r@ == address_text(self.ip_address),
    {
        if !self.fqdn.as_str().is_empty() {
            return self.fqdn.clone();
        }
        match &self.ip_address {
            IpAddress::V4(x, y, z, w) => {
                let mut t = String::new();
                append_decimal(&mut t, *x as i64);
                append_text(&mut t, ".");
                append_decimal(&mut t, *y as i64);
                append_text(&mut t, ".");
                append_decimal(&mut t, *z as i64);
                append_text(&mut t, ".");
                append_decimal(&mut t, *w as i64);
                t
            },
            IpAddress::V6(t) => t.clone(),
        }
    }

    /// Whether the host's address has to be found by resolving its name:
    /// `Ok(true)` when it has none but a name to resolve, an error when it
    /// has neither.
    pub fn needs_resolving(&self) -> (r: Result<bool, String>)
        ensures
            self.ip_address != unspecified_address() ==> r == Ok::<bool, String>(false),
            self.ip_address == unspecified_address() && self.fqdn@.len() > 0 ==> r == Ok::<bool, String>(true),
            self.ip_address == unspecified_address() && self.fqdn@.len() == 0 ==> (r matches Err(e) && e@ == "Host "@
                + self.name@ + " does not have FQDN or IP address defined."@),
    {
        let unspecified = match &self.ip_address {
            IpAddress::V4(x, y, z, w) => *x == 0 && *y == 0 && *z == 0 && *w == 0,
            IpAddress::V6(_) => false,
        };
        if !unspecified {
            return Ok(false);
        }
        if self.fqdn.as_str().is_empty() {
            let mut t = "Host ".to_string();
            append_text(&mut t, self.name.as_str());
            append_text(&mut t, " does not have FQDN or IP address defined.");
            return Err(t);
        }
        Ok(true)
    }

    /// Takes the first address that resolving the host's name gave.
    pub fn set_resolved(&mut self, first_address: Option<IpAddress>) -> (r: Result<(), String>)
        ensures
            final(self).name == old(self).name,
            final(self).fqdn == old(self).fqdn,
            final(self).settings == old(self).settings,
            first_address matches Some(a) ==> r is Ok && final(self).ip_address == a,
            first_address is None ==> final(self).ip_address == old(self).ip_address && (r matches Err(e) && e@
                == "Failed to resolve "@ + old(self).fqdn@ + ": No addresses found."@),
    {
        match first_address {
            Some(a) => {
                self.ip_address = a;
                Ok(())
            },
            None => {
                let mut t = "Failed to resolve ".to_string();
                append_text(&mut t, self.fqdn.as_str());
                append_text(&mut t, ": No addresses found.");
                Err(t)
            },
        }
    }
}

} // verus!
