//! What the receiver advertises over mDNS: the service type and the TXT
//! record key/value pairs.  Registration itself is left to the runtime.

use vstd::prelude::*;
use crate::ports::SIGNALING_PORT;
use crate::fmt::{ascii_to_string, decimal_string, hex_plain_bytes, lemma_hex_plain_ascii,
    parse_decimal_u64, spec_chars_of_bytes, spec_decimal_bytes, spec_hex_plain,
    spec_parse_decimal};

verus! {

/// The mDNS service type receivers register under.
pub fn service_type() -> (s: &'static str)
    ensures
        s@ == "_duallink._tcp.local."@,
{
    "_duallink._tcp.local."
}

/// The shortened fingerprint advertised in TXT: the first 16 hex characters
/// of the certificate fingerprint, which are the first 8 digest bytes.
pub fn fingerprint_short(digest: &[u8]) -> (s: String)
    requires
        digest@.len() >= 8,
    ensures
        s@ == spec_chars_of_bytes(spec_hex_plain(digest@.subrange(0, 8))),
{
    let prefix = vstd::slice::slice_subrange(digest, 0, 8);
    let hex = hex_plain_bytes(prefix);
    proof {
        lemma_hex_plain_ascii(prefix@);
    }
    ascii_to_string(hex)
}

/// The TXT record of a receiver advertisement: protocol version, display
/// count, base signaling port, advertised host address, and the shortened
/// certificate fingerprint.
pub fn txt_properties(display_count: u8, base_port: u16, host_ip: String, digest: &[u8]) -> (r:
    Vec<(String, String)>)
    requires
        digest@.len() >= 8,
    ensures
        r@.len() == 5,
        r@[0].0@ == "version"@ && r@[0].1@ == "1"@,
        r@[1].0@ == "displays"@ && r@[1].1@ == spec_chars_of_bytes(
            spec_decimal_bytes(display_count as nat),
        ),
        r@[2].0@ == "port"@ && r@[2].1@ == spec_chars_of_bytes(
            spec_decimal_bytes(base_port as nat),
        ),
        r@[3].0@ == "host"@ && r@[3].1@ == host_ip@,
        r@[4].0@ == "fp"@ && r@[4].1@ == spec_chars_of_bytes(
            spec_hex_plain(digest@.subrange(0, 8)),
        ),
{
    let mut r: Vec<(String, String)> = Vec::new();
    r.push((String::from_str("version"), String::from_str("1")));
    r.push((String::from_str("displays"), decimal_string(display_count as u64)));
    r.push((String::from_str("port"), decimal_string(base_port as u64)));
    r.push((String::from_str("host"), host_ip));
    r.push((String::from_str("fp"), fingerprint_short(digest)));
    r
}

/// The key/value pairs of a TXT record as character sequences.
pub open spec fn spec_txt_pairs(props: Seq<(String, String)>) -> Seq<(Seq<char>, Seq<char>)> {
    props.map_values(|p: (String, String)| (p.0@, p.1@))
}

/// The value under the first occurrence of `key`, if any.
pub open spec fn spec_txt_lookup(pairs: Seq<(Seq<char>, Seq<char>)>, key: Seq<char>) -> Option<
    Seq<char>,
>
    decreases pairs.len(),
{
    if pairs.len() == 0 {
        Option::None
    } else if pairs[0].0 == key {
        Option::Some(pairs[0].1)
    } else {
        spec_txt_lookup(pairs.drop_first(), key)
    }
}

/// Look a key up in a TXT record, first match wins.
pub fn txt_lookup<'a>(props: &'a Vec<(String, String)>, key: &String) -> (r: Option<&'a String>)
    ensures
        ({
            let pairs = spec_txt_pairs(props@);
            match r {
                Option::Some(v) => spec_txt_lookup(pairs, key@) == Option::Some(v@),
                Option::None => spec_txt_lookup(pairs, key@) is None,
            }
        }),
{
    let ghost pairs = spec_txt_pairs(props@);
    let n = props.len();
    proof {
        assert(pairs.skip(0) =~= pairs);
    }
    for i in 0..n
        invariant
            n == props@.len(),
            pairs == spec_txt_pairs(props@),
            spec_txt_lookup(pairs, key@) == spec_txt_lookup(
                pairs.skip(i as int),
                key@,
            ),
            forall|k: int| 0 <= k < i ==> (#[trigger] pairs[k]).0 != key@,
    {
        proof {
            assert(pairs.skip(i as int)[0] == pairs[i as int]);
            assert(pairs.skip(i as int).drop_first() =~= pairs.skip(i + 1));
        }
        if props[i].0.eq(key) {
            return Some(&props[i].1);
        }
    }
    proof {
        assert(pairs.skip(n as int) =~= Seq::<(Seq<char>, Seq<char>)>::empty());
    }
    None
}

/// A receiver found by browsing for the service.
#[derive(Debug, Clone, PartialEq, Eq)]
pub struct DiscoveredReceiver {
    pub name: String,
    pub host: String,
    pub port: u16,
    pub displays: u8,
}

/// The numeric value of a TXT entry, when present, parseable, and within
/// `max`; else `fallback`.
pub open spec fn spec_txt_number(
    pairs: Seq<(Seq<char>, Seq<char>)>,
    key: Seq<char>,
    max: int,
    fallback: int,
) -> int {
    match spec_txt_lookup(pairs, key) {
        Option::Some(v) => match spec_parse_decimal(v) {
            Option::Some(x) => if x <= max {
                x
            } else {
                fallback
            },
            Option::None => fallback,
        },
        Option::None => fallback,
    }
}

/// Read a discovered receiver out of its TXT record: the advertised host —
/// or `fallback_host` when absent — the signaling port (default 7879), and
/// the display count (default 1).
pub fn discovered_from_txt(
    name: String,
    fallback_host: String,
    props: &Vec<(String, String)>,
) -> (r: DiscoveredReceiver)
    ensures
        ({
            let pairs = spec_txt_pairs(props@);
            &&& r.name@ == name@
            &&& r.host@ == (match spec_txt_lookup(pairs, "host"@) {
                Option::Some(v) => v,
                Option::None => fallback_host@,
            })
            &&& r.port == spec_txt_number(pairs, "port"@, u16::MAX as int, SIGNALING_PORT as int)
            &&& r.displays == spec_txt_number(pairs, "displays"@, u8::MAX as int, 1)
        }),
{
    let host = match txt_lookup(props, &String::from_str("host")) {
        Some(v) => v.clone(),
        None => fallback_host,
    };
    let port: u16 = match txt_lookup(props, &String::from_str("port")) {
        Some(v) => match parse_decimal_u64(v.as_str()) {
            Some(x) => if x <= u16::MAX as u64 {
                x as u16
            } else {
                SIGNALING_PORT
            },
            None => SIGNALING_PORT,
        },
        None => SIGNALING_PORT,
    };
    let displays: u8 = match txt_lookup(props, &String::from_str("displays")) {
        Some(v) => match parse_decimal_u64(v.as_str()) {
            Some(x) => if x <= u8::MAX as u64 {
                x as u8
            } else {
                1
            },
            None => 1,
        },
        None => 1,
    };
    DiscoveredReceiver { name, host, port, displays }
}

} // verus!
