//! Commander lookup: classifying a commander's recent history
//! records, and building the lookup request path with the commander
//! name made URL-safe. The HTTP exchange itself lives outside this
//! crate.
use vstd::prelude::*;
use vstd::string::StrSliceExecFns;
use vstd::string::StringExecFns;
use vstd::string::StringSliceAdditionalSpecFns;

use crate::ascii::ci_contains;
use crate::ascii::ci_equal;
use crate::ascii::str_contains_ignore_case;
use crate::ascii::str_eq_ignore_case;
use crate::daystring::digit_char;

verus! {

/// From the commander's own point of view: did they kill, or die?
#[derive(Clone, Copy, PartialEq, Eq, Structural, Debug)]
pub enum HistoryEventType {
    Died,
    Killed,
}

/// One raw history record of a lookup reply.
pub struct HistoryEntryJson {
    pub timestamp: String,
    pub killer_name: String,
    pub killer_ship: String,
    pub killer_rank: String,
    pub victim_name: String,
    pub victim_ship: String,
    pub victim_rank: String,
    pub location: Option<String>,
}

/// One history row as presented: the event from the commander's
/// side, the other party, and the location if it is known.
pub struct HistoryEntry {
    pub event_type: HistoryEventType,
    pub other_cmdr: String,
    pub timestamp: String,
    pub location: Option<String>,
}

/// A location with any "unknown" marker (matched up to ASCII case)
/// treated as absent.
pub open spec fn normalized_location(location: Option<String>) -> Option<String> {
    match location {
        None => None,
        Some(v) => if ci_contains(v@, "unknown"@) {
            None
        } else {
            Some(v)
        },
    }
}

impl HistoryEntry {
    pub fn new(
        event_type: HistoryEventType,
        other_cmdr: String,
        timestamp: String,
        location: Option<String>,
    ) -> (r: Self)
        ensures
            r.event_type == event_type,
            r.other_cmdr == other_cmdr,
            r.timestamp == timestamp,
            r.location == location,
    {
        HistoryEntry { event_type, other_cmdr, timestamp, location }
    }

    /// Classify one raw history record from `self_cmdr`'s point of
    /// view: a kill when they are the killer, a death when they are
    /// the victim (names compared up to ASCII case), nothing when
    /// the record does not involve them at all.
    pub fn from_json(data: &HistoryEntryJson, self_cmdr: String) -> (r: Option<Self>)
        ensures
            ci_equal(self_cmdr@, data.killer_name@) ==> (r matches Some(h) && h.event_type
                == HistoryEventType::Killed && h.other_cmdr@ == data.victim_name@ && h.timestamp@
                == data.timestamp@ && h.location == normalized_location(data.location)),
            !ci_equal(self_cmdr@, data.killer_name@) && ci_equal(self_cmdr@, data.victim_name@)
                ==> (r matches Some(h) && h.event_type == HistoryEventType::Died && h.other_cmdr@
                == data.killer_name@ && h.timestamp@ == data.timestamp@ && h.location
                == normalized_location(data.location)),
            !ci_equal(self_cmdr@, data.killer_name@) && !ci_equal(self_cmdr@, data.victim_name@)
                ==> r is None,
    {
        let event_type: HistoryEventType;
        if str_eq_ignore_case(self_cmdr.as_str(), data.killer_name.as_str()) {
            event_type = HistoryEventType::Killed;
        } else if str_eq_ignore_case(self_cmdr.as_str(), data.victim_name.as_str()) {
            event_type = HistoryEventType::Died;
        } else {
            return None;
        }
        let other_cmdr = match event_type {
            HistoryEventType::Killed => data.victim_name.clone(),
            HistoryEventType::Died => data.killer_name.clone(),
        };
        let location: Option<String> = match &data.location {
            None => None,
            Some(val) => {
                if str_contains_ignore_case(val.as_str(), "unknown") {
                    None
                } else {
                    Some(val.clone())
                }
            },
        };
        Some(HistoryEntry::new(event_type, other_cmdr, data.timestamp.clone(), location))
    }
}

/// Is this byte left bare by URL encoding? ASCII alphanumerics and
/// `-`, `.`, `_`, `~` are; every other byte is percent-escaped.
pub open spec fn url_safe_byte(b: u8) -> bool {
    ||| 48 <= b <= 57
    ||| 65 <= b <= 90
    ||| 97 <= b <= 122
    ||| b == 45
    ||| b == 46
    ||| b == 95
    ||| b == 126
}

/// An upper-case hexadecimal digit.
pub open spec fn hex_upper_char(v: int) -> char {
    if v < 10 {
        digit_char(v)
    } else if v == 10 {
        'A'
    } else if v == 11 {
        'B'
    } else if v == 12 {
        'C'
    } else if v == 13 {
        'D'
    } else if v == 14 {
        'E'
    } else {
        'F'
    }
}

/// How URL encoding renders one byte.
pub open spec fn encoded_byte(b: u8) -> Seq<char> {
    if url_safe_byte(b) {
        seq![b as char]
    } else {
        seq!['%', hex_upper_char(b as int / 16), hex_upper_char(b as int % 16)]
    }
}

/// How URL encoding renders a byte string: each byte on its own,
/// safe bytes bare, the rest as `%` and two upper-case hex digits.
pub open spec fn url_encode_bytes(bytes: Seq<u8>) -> Seq<char>
    decreases bytes.len(),
{
    if bytes.len() == 0 {
        Seq::empty()
    } else {
        encoded_byte(bytes[0]) + url_encode_bytes(bytes.drop_first())
    }
}

/// Relies on urlencoding::encode: percent-encodes every byte of the
/// UTF-8 form of the string except ASCII alphanumerics and `-`, `.`,
/// `_`, `~`, using upper-case hexadecimal digits, byte by byte in
/// order.
#[verifier::external_body]
fn url_encode(s: &str) -> (r: String)
    ensures
        r@ == url_encode_bytes(s.spec_bytes()),
{
    urlencoding::encode(s).into_owned()
}

/// The request path for looking up a commander: the server address,
/// the fixed lookup route, and the commander's name URL-encoded so
/// that spaces and separators cannot break the path.
pub fn whois_request_path(server_address: &str, cmdr_name: &str) -> (r: String)
    ensures
        r@ == server_address@ + "/api/bot/user/"@ + url_encode_bytes(cmdr_name.spec_bytes()),
{
    let mut out = server_address.to_owned();
    out.append("/api/bot/user/");
    let encoded = url_encode(cmdr_name);
    out.append(encoded.as_str());
    assert(out@ =~= server_address@ + "/api/bot/user/"@ + url_encode_bytes(cmdr_name.spec_bytes()));
    out
}

} // verus!
