//! OUI / vendor lookup: maps the 24-bit MAC prefix to a vendor name and
//! flags locally-administered (randomized) MACs.

use vstd::prelude::*;

use crate::mac::{spec_is_locally_administered, spec_parse_mac, MacAddr};

verus! {

/// The view of an optional string.
pub open spec fn spec_opt_view(s: Option<String>) -> Option<Seq<char>> {
    match s {
        Some(v) => Some(v@),
        None => None,
    }
}

/// The embedded OUI table: vendor name for a 24-bit MAC prefix.
pub open spec fn spec_oui_vendor(o0: u8, o1: u8, o2: u8) -> Option<Seq<char>> {
    if o0 == 0x00 && o1 == 0x00 && o2 == 0x0C {
        Some("Cisco"@)
    } else if o0 == 0xAA && o1 == 0xBB && o2 == 0xCC {
        Some("TP-Link"@)
    } else if o0 == 0xF4 && o1 == 0xF2 && o2 == 0x6D {
        Some("TP-Link"@)
    } else if o0 == 0xA0 && o1 == 0x40 && o2 == 0xA0 {
        Some("Netgear"@)
    } else if o0 == 0x04 && o1 == 0xD9 && o2 == 0xF5 {
        Some("ASUS"@)
    } else if o0 == 0x24 && o1 == 0xA4 && o2 == 0x3C {
        Some("Ubiquiti"@)
    } else if o0 == 0x4C && o1 == 0x5E && o2 == 0x0C {
        Some("MikroTik"@)
    } else if o0 == 0x3C && o1 == 0xA6 && o2 == 0x2F {
        Some("AVM"@)
    } else if o0 == 0x00 && o1 == 0x17 && o2 == 0xF2 {
        Some("Apple"@)
    } else if o0 == 0xF0 && o1 == 0x18 && o2 == 0x98 {
        Some("Apple"@)
    } else if o0 == 0xA8 && o1 == 0x66 && o2 == 0x7F {
        Some("Apple"@)
    } else if o0 == 0x00 && o1 == 0x16 && o2 == 0x32 {
        Some("Samsung"@)
    } else if o0 == 0x8C && o1 == 0x77 && o2 == 0x12 {
        Some("Samsung"@)
    } else if o0 == 0x24 && o1 == 0x0A && o2 == 0xC4 {
        Some("Espressif"@)
    } else if o0 == 0x10 && o1 == 0x5A && o2 == 0x17 {
        Some("Tuya"@)
    } else if o0 == 0x00 && o1 == 0x0E && o2 == 0x58 {
        Some("Sonos"@)
    } else if o0 == 0x00 && o1 == 0x17 && o2 == 0x88 {
        Some("Signify"@)
    } else if o0 == 0xB8 && o1 == 0x27 && o2 == 0xEB {
        Some("Raspberry Pi"@)
    } else if o0 == 0x00 && o1 == 0x1B && o2 == 0x21 {
        Some("Intel"@)
    } else if o0 == 0x00 && o1 == 0x14 && o2 == 0x22 {
        Some("Dell"@)
    } else if o0 == 0x00 && o1 == 0x1E && o2 == 0x0B {
        Some("HP"@)
    } else {
        None
    }
}

/// Looks a 24-bit prefix up in the embedded OUI table.
pub fn oui_vendor(o0: u8, o1: u8, o2: u8) -> (r: Option<&'static str>)
    ensures
        (match r {
            Some(s) => Some(s@),
            None => None,
        }) == spec_oui_vendor(o0, o1, o2),
{
    if o0 == 0x00 && o1 == 0x00 && o2 == 0x0C {
        Some("Cisco")
    } else if o0 == 0xAA && o1 == 0xBB && o2 == 0xCC {
        Some("TP-Link")
    } else if o0 == 0xF4 && o1 == 0xF2 && o2 == 0x6D {
        Some("TP-Link")
    } else if o0 == 0xA0 && o1 == 0x40 && o2 == 0xA0 {
        Some("Netgear")
    } else if o0 == 0x04 && o1 == 0xD9 && o2 == 0xF5 {
        Some("ASUS")
    } else if o0 == 0x24 && o1 == 0xA4 && o2 == 0x3C {
        Some("Ubiquiti")
    } else if o0 == 0x4C && o1 == 0x5E && o2 == 0x0C {
        Some("MikroTik")
    } else if o0 == 0x3C && o1 == 0xA6 && o2 == 0x2F {
        Some("AVM")
    } else if o0 == 0x00 && o1 == 0x17 && o2 == 0xF2 {
        Some("Apple")
    } else if o0 == 0xF0 && o1 == 0x18 && o2 == 0x98 {
        Some("Apple")
    } else if o0 == 0xA8 && o1 == 0x66 && o2 == 0x7F {
        Some("Apple")
    } else if o0 == 0x00 && o1 == 0x16 && o2 == 0x32 {
        Some("Samsung")
    } else if o0 == 0x8C && o1 == 0x77 && o2 == 0x12 {
        Some("Samsung")
    } else if o0 == 0x24 && o1 == 0x0A && o2 == 0xC4 {
        Some("Espressif")
    } else if o0 == 0x10 && o1 == 0x5A && o2 == 0x17 {
        Some("Tuya")
    } else if o0 == 0x00 && o1 == 0x0E && o2 == 0x58 {
        Some("Sonos")
    } else if o0 == 0x00 && o1 == 0x17 && o2 == 0x88 {
        Some("Signify")
    } else if o0 == 0xB8 && o1 == 0x27 && o2 == 0xEB {
        Some("Raspberry Pi")
    } else if o0 == 0x00 && o1 == 0x1B && o2 == 0x21 {
        Some("Intel")
    } else if o0 == 0x00 && o1 == 0x14 && o2 == 0x22 {
        Some("Dell")
    } else if o0 == 0x00 && o1 == 0x1E && o2 == 0x0B {
        Some("HP")
    } else {
        None
    }
}

/// The vendor of a MAC address, by its OUI prefix.
pub fn lookup_vendor(mac: &MacAddr) -> (r: Option<String>)
    ensures
        spec_opt_view(r) == spec_oui_vendor(mac.o0, mac.o1, mac.o2),
{
    match oui_vendor(mac.o0, mac.o1, mac.o2) {
        Some(name) => Some(String::from_str(name)),
        None => None,
    }
}

/// What a vendor lookup on MAC text yields.
#[derive(Debug)]
pub struct VendorInfo {
    pub vendor: Option<String>,
    pub is_randomized: bool,
}

/// Vendor lookup and randomized-MAC flag for MAC address text.
///
/// `is_randomized` is computed purely from the MAC: true iff bit 0x02 of the
/// first octet is set. The flag is orthogonal to the vendor: a
/// locally-administered MAC may still have a table entry. Text that does not
/// parse as a MAC yields neither.
pub fn lookup_vendor_info(mac_text: &str) -> (r: VendorInfo)
    ensures
        match spec_parse_mac(mac_text@) {
            Some(m) => {
                &&& spec_opt_view(r.vendor) == spec_oui_vendor(m.o0, m.o1, m.o2)
                &&& r.is_randomized == spec_is_locally_administered(m)
            },
            None => {
                &&& r.vendor is None
                &&& r.is_randomized == false
            },
        },
{
    match crate::mac::parse_mac(mac_text) {
        Some(m) => VendorInfo {
            vendor: lookup_vendor(&m),
            is_randomized: crate::mac::is_locally_administered(&m),
        },
        None => VendorInfo { vendor: None, is_randomized: false },
    }
}

/// MAC vendor lookup result, echoing the queried MAC text.
#[derive(Debug)]
pub struct VendorLookupResult {
    pub mac: String,
    pub vendor: Option<String>,
    pub is_randomized: bool,
}

/// Looks up the vendor for MAC address text.
pub fn lookup_mac_vendor(mac: String) -> (r: Result<VendorLookupResult, String>)
    ensures
        r is Ok,
        r->Ok_0.mac@ == mac@,
        match spec_parse_mac(mac@) {
            Some(m) => {
                &&& spec_opt_view(r->Ok_0.vendor) == spec_oui_vendor(m.o0, m.o1, m.o2)
                &&& r->Ok_0.is_randomized == spec_is_locally_administered(m)
            },
            None => {
                &&& r->Ok_0.vendor is None
                &&& r->Ok_0.is_randomized == false
            },
        },
{
    let info = lookup_vendor_info(mac.as_str());
    Ok(VendorLookupResult { mac, vendor: info.vendor, is_randomized: info.is_randomized })
}

/// Vendors whose devices typically are routers or access points.
pub open spec fn spec_is_router_vendor(v: Seq<char>) -> bool {
    ||| v == "Cisco"@
    ||| v == "TP-Link"@
    ||| v == "Netgear"@
    ||| v == "ASUS"@
    ||| v == "Ubiquiti"@
    ||| v == "MikroTik"@
    ||| v == "AVM"@
}

/// Whether the vendor name is a known router vendor.
pub fn is_router_vendor(v: &str) -> (r: bool)
    ensures
        r == spec_is_router_vendor(v@),
{
    crate::text::str_eq(v, "Cisco") || crate::text::str_eq(v, "TP-Link") || crate::text::str_eq(
        v,
        "Netgear",
    ) || crate::text::str_eq(v, "ASUS") || crate::text::str_eq(v, "Ubiquiti")
        || crate::text::str_eq(v, "MikroTik") || crate::text::str_eq(v, "AVM")
}

/// Vendors whose OUIs mark mobile devices.
pub open spec fn spec_is_mobile_vendor(v: Seq<char>) -> bool {
    ||| v == "Apple"@
    ||| v == "Samsung"@
}

/// Whether the vendor name is a known mobile-device vendor.
pub fn is_mobile_vendor(v: &str) -> (r: bool)
    ensures
        r == spec_is_mobile_vendor(v@),
{
    crate::text::str_eq(v, "Apple") || crate::text::str_eq(v, "Samsung")
}

/// Vendors whose devices typically are IoT appliances.
pub open spec fn spec_is_iot_vendor(v: Seq<char>) -> bool {
    ||| v == "Espressif"@
    ||| v == "Tuya"@
    ||| v == "Sonos"@
    ||| v == "Signify"@
}

/// Whether the vendor name is a known IoT vendor.
pub fn is_iot_vendor(v: &str) -> (r: bool)
    ensures
        r == spec_is_iot_vendor(v@),
{
    crate::text::str_eq(v, "Espressif") || crate::text::str_eq(v, "Tuya") || crate::text::str_eq(
        v,
        "Sonos",
    ) || crate::text::str_eq(v, "Signify")
}

} // verus!
