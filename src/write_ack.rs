use vstd::prelude::*;
use vstd::string::StrSliceExecFns;
use crate::events::{Height, IbcEvent, IbcEventWithHeight, Packet};
use crate::header::{all_digits, digits_value, str_eq};

verus! {

/// An event of a chain's transaction results: its type and its attributes.
#[derive(Clone, Debug)]
pub struct AbciEvent {
    pub type_str: String,
    pub attributes: Vec<(String, String)>,
}

/// A destination's `WriteAcknowledgement`: the packet and the
/// acknowledgement written for it.
#[derive(Clone, Debug)]
pub struct WriteAcknowledgementEvent {
    pub packet: Packet,
    pub ack: Vec<u8>,
}

/// The errors of reading a `WriteAcknowledgement`.
#[derive(Clone, Debug, PartialEq, Eq)]
pub enum WriteAckError {
    /// The event is of another type.
    MismatchEventType { expected: String, actual: String },
    /// A numeric attribute does not parse.
    InvalidAttribute(String),
}

/// The value of a decimal `u64`, as `str::parse` reads it: an optional `+`
/// and at least one digit.
pub open spec fn spec_parse_u64(s: Seq<char>) -> Option<u64> {
    let d = if s.len() > 0 && s[0] == '+' {
        s.drop_first()
    } else {
        s
    };
    if d.len() > 0 && all_digits(d) && digits_value(d) <= u64::MAX {
        Some(digits_value(d) as u64)
    } else {
        None
    }
}

/// Parses a decimal `u64`.
#[verifier::loop_isolation(false)]
pub fn parse_u64(s: &str) -> (r: Option<u64>)
    ensures
        r == spec_parse_u64(s@),
{
    let n = s.unicode_len();
    let start: usize = if n > 0 && s.get_char(0) == '+' {
        1
    } else {
        0
    };
    let ghost d = s@.subrange(start as int, n as int);
    proof {
        if start == 1 {
            assert(d =~= s@.drop_first());
        } else {
            assert(d =~= s@);
        }
    }
    if start == n {
        return None;
    }
    let mut v: u64 = 0;
    let mut i: usize = start;
    while i < n
        invariant
            start <= i <= n,
            n == s@.len(),
            d == s@.subrange(start as int, n as int),
            all_digits(s@.subrange(start as int, i as int)),
            v == digits_value(s@.subrange(start as int, i as int)),
        decreases n - i,
    {
        let c = s.get_char(i);
        let ghost p = s@.subrange(start as int, i + 1);
        proof {
            assert(p =~= d.subrange(0, i + 1 - start));
            assert(p.drop_last() =~= s@.subrange(start as int, i as int));
            assert(p.last() == c);
        }
        if c < '0' || c > '9' {
            proof {
                assert(d[i - start] == c);
            }
            return None;
        }
        proof {
            assert forall|j: int| 0 <= j < p.len() implies '0' <= #[trigger] p[j] && p[j] <= '9' by {
                if j < p.len() - 1 {
                    assert(p[j] == s@.subrange(start as int, i as int)[j]);
                }
            }
            if all_digits(d) {
                crate::header::lemma_digits_grow(d, i + 1 - start);
            }
        }
        let digit = (c as u32 - '0' as u32) as u64;
        let m = match v.checked_mul(10) {
            Some(m) => m,
            None => {
                return None;
            },
        };
        v = match m.checked_add(digit) {
            Some(x) => x,
            None => {
                return None;
            },
        };
        i = i + 1;
    }
    proof {
        assert(s@.subrange(start as int, i as int) =~= d);
    }
    Some(v)
}

/// The number of `-` in `s`.
pub open spec fn dash_count(s: Seq<char>) -> nat
    decreases s.len(),
{
    if s.len() == 0 {
        0
    } else {
        dash_count(s.drop_last()) + if s.last() == '-' {
            1nat
        } else {
            0nat
        }
    }
}

/// The index of the first `-` of `s`, or `-1`.
pub open spec fn first_dash(s: Seq<char>) -> int
    decreases s.len(),
{
    if s.len() == 0 {
        -1
    } else if first_dash(s.drop_last()) >= 0 {
        first_dash(s.drop_last())
    } else if s.last() == '-' {
        s.len() - 1
    } else {
        -1
    }
}

/// The height written as `{revision}-{height}`; a zero height means that
/// no timeout height is set.
pub open spec fn spec_parse_timeout_height(s: Seq<char>) -> Option<Height> {
    if dash_count(s) == 1 {
        let k = first_dash(s);
        match (spec_parse_u64(s.subrange(0, k)), spec_parse_u64(s.subrange(k + 1, s.len() as int))) {
            (Some(rn), Some(rh)) => if rh == 0 {
                Some(Height { revision_number: 0, revision_height: 0 })
            } else {
                Some(Height { revision_number: rn, revision_height: rh })
            },
            _ => None,
        }
    } else {
        None
    }
}

proof fn lemma_first_dash(s: Seq<char>)
    ensures
        -1 <= first_dash(s) < s.len(),
        dash_count(s) > 0 <==> first_dash(s) >= 0,
    decreases s.len(),
{
    if s.len() > 0 {
        lemma_first_dash(s.drop_last());
    }
}

/// Parses a timeout height.
pub fn parse_timeout_height(s: &str) -> (r: Option<Height>)
    ensures
        r == spec_parse_timeout_height(s@),
{
    let n = s.unicode_len();
    let mut dash: usize = n;
    let mut count: usize = 0;
    let mut i: usize = 0;
    while i < n
        invariant
            n == s@.len(),
            i <= n,
            count <= i,
            count == dash_count(s@.subrange(0, i as int)),
            count == 0 ==> dash == n,
            count > 0 ==> dash == first_dash(s@.subrange(0, i as int)),
        decreases n - i,
    {
        let c = s.get_char(i);
        proof {
            let p = s@.subrange(0, i + 1);
            assert(p.drop_last() =~= s@.subrange(0, i as int));
            assert(p.last() == c);
            lemma_first_dash(s@.subrange(0, i as int));
        }
        if c == '-' {
            if count == 0 {
                dash = i;
            }
            count = count + 1;
        }
        i = i + 1;
    }
    proof {
        assert(s@.subrange(0, n as int) =~= s@);
    }
    if count != 1 {
        return None;
    }
    proof {
        lemma_first_dash(s@);
    }
    let left = s.substring_char(0, dash);
    let right = s.substring_char(dash + 1, n);
    match (parse_u64(left), parse_u64(right)) {
        (Some(rn), Some(rh)) => {
            if rh == 0 {
                Some(Height { revision_number: 0, revision_height: 0 })
            } else {
                Some(Height { revision_number: rn, revision_height: rh })
            }
        },
        _ => None,
    }
}

/// The type of a `WriteAcknowledgement` event.
pub const WRITE_ACK_EVENT_TYPE: &'static str = "write_acknowledgement";

/// The fields read from the attributes of a `WriteAcknowledgement` event.
pub struct AckFields {
    pub sequence: u64,
    pub source_port: Seq<char>,
    pub source_channel: Seq<char>,
    pub destination_port: Seq<char>,
    pub destination_channel: Seq<char>,
    pub data: Seq<u8>,
    pub timeout_height: Height,
    pub timeout_timestamp: u64,
    pub ack: Seq<u8>,
}

pub open spec fn empty_ack_fields() -> AckFields {
    AckFields {
        sequence: 0,
        source_port: Seq::empty(),
        source_channel: Seq::empty(),
        destination_port: Seq::empty(),
        destination_channel: Seq::empty(),
        data: Seq::empty(),
        timeout_height: Height { revision_number: 0, revision_height: 0 },
        timeout_timestamp: 0,
        ack: Seq::empty(),
    }
}

/// `f` after the attribute `key = value`; `None` if a numeric value does
/// not parse. Unknown keys are skipped.
pub open spec fn apply_attribute(f: AckFields, key: Seq<char>, value: Seq<char>) -> Option<AckFields> {
    if key == "packet_src_port"@ {
        Some(AckFields { source_port: value, ..f })
    } else if key == "packet_src_channel"@ {
        Some(AckFields { source_channel: value, ..f })
    } else if key == "packet_dst_port"@ {
        Some(AckFields { destination_port: value, ..f })
    } else if key == "packet_dst_channel"@ {
        Some(AckFields { destination_channel: value, ..f })
    } else if key == "packet_sequence"@ {
        match spec_parse_u64(value) {
            Some(n) => Some(AckFields { sequence: n, ..f }),
            None => None,
        }
    } else if key == "packet_timeout_height"@ {
        match spec_parse_timeout_height(value) {
            Some(h) => Some(AckFields { timeout_height: h, ..f }),
            None => None,
        }
    } else if key == "packet_timeout_timestamp"@ {
        match spec_parse_u64(value) {
            Some(n) => Some(AckFields { timeout_timestamp: n, ..f }),
            None => None,
        }
    } else if key == "packet_data"@ {
        Some(AckFields { data: vstd::utf8::encode_utf8(value), ..f })
    } else if key == "packet_ack"@ {
        Some(AckFields { ack: vstd::utf8::encode_utf8(value), ..f })
    } else {
        Some(f)
    }
}

/// The fields read from the attributes, in order; a later attribute
/// overrides an earlier one of the same key.
pub open spec fn read_attributes(attrs: Seq<(Seq<char>, Seq<char>)>) -> Option<AckFields>
    decreases attrs.len(),
{
    if attrs.len() == 0 {
        Some(empty_ack_fields())
    } else {
        match read_attributes(attrs.drop_last()) {
            Some(f) => apply_attribute(f, attrs.last().0, attrs.last().1),
            None => None,
        }
    }
}

pub open spec fn attribute_views(attrs: Seq<(String, String)>) -> Seq<(Seq<char>, Seq<char>)> {
    attrs.map_values(|a: (String, String)| (a.0@, a.1@))
}

/// The fields of a packet, with no acknowledgement.
pub open spec fn packet_fields(p: Packet) -> AckFields {
    AckFields {
        sequence: p.sequence,
        source_port: p.source_port@,
        source_channel: p.source_channel@,
        destination_port: p.destination_port@,
        destination_channel: p.destination_channel@,
        data: p.data@,
        timeout_height: p.timeout_height,
        timeout_timestamp: p.timeout_timestamp,
        ack: Seq::empty(),
    }
}

pub open spec fn fields_of(e: WriteAcknowledgementEvent) -> AckFields {
    AckFields { ack: e.ack@, ..packet_fields(e.packet) }
}

/// The UTF-8 bytes of `s`.
fn utf8_bytes(s: &str) -> (r: Vec<u8>)
    ensures
        r@ == vstd::utf8::encode_utf8(s@),
{
    let b = s.as_bytes();
    let mut out: Vec<u8> = Vec::new();
    let mut i: usize = 0;
    while i < b.len()
        invariant
            i <= b@.len(),
            out@ == b@.subrange(0, i as int),
        decreases b@.len() - i,
    {
        out.push(b[i]);
        i = i + 1;
        proof {
            assert(out@ =~= b@.subrange(0, i as int));
        }
    }
    proof {
        assert(out@ =~= b@);
    }
    out
}

proof fn lemma_failure_persists(attrs: Seq<(Seq<char>, Seq<char>)>, n: int)
    requires
        0 <= n <= attrs.len(),
        read_attributes(attrs.subrange(0, n)) is None,
    ensures
        read_attributes(attrs) is None,
    decreases attrs.len() - n,
{
    if n < attrs.len() {
        assert(attrs.subrange(0, n + 1).drop_last() =~= attrs.subrange(0, n));
        lemma_failure_persists(attrs, n + 1);
    } else {
        assert(attrs.subrange(0, n) =~= attrs);
    }
}

/// Reads the packet and acknowledgement attributes of an event.
pub fn read_packet_attributes(attributes: &Vec<(String, String)>) -> (r: Result<WriteAcknowledgementEvent, WriteAckError>)
    ensures
        match read_attributes(attribute_views(attributes@)) {
            Some(f) => (r matches Ok(w) && fields_of(w) == f),
            None => (r matches Err(WriteAckError::InvalidAttribute(_))),
        },
{
    let ghost attrs = attribute_views(attributes@);
    let mut w = WriteAcknowledgementEvent {
        packet: Packet {
            sequence: 0,
            source_port: String::new(),
            source_channel: String::new(),
            destination_port: String::new(),
            destination_channel: String::new(),
            data: Vec::new(),
            timeout_height: Height { revision_number: 0, revision_height: 0 },
            timeout_timestamp: 0,
        },
        ack: Vec::new(),
    };
    proof {
        assert(w.packet.data@ =~= Seq::<u8>::empty());
        assert(w.ack@ =~= Seq::<u8>::empty());
        assert(attrs.subrange(0, 0) =~= Seq::<(Seq<char>, Seq<char>)>::empty());
    }
    let mut i: usize = 0;
    while i < attributes.len()
        invariant
            i <= attributes@.len(),
            attrs == attribute_views(attributes@),
            read_attributes(attrs.subrange(0, i as int)) == Some(fields_of(w)),
        decreases attributes@.len() - i,
    {
        let key = attributes[i].0.as_str();
        let value = attributes[i].1.as_str();
        proof {
            assert(attrs.subrange(0, i + 1).drop_last() =~= attrs.subrange(0, i as int));
            assert(attrs.subrange(0, i + 1).last() == (key@, value@));
        }
        let f0 = Ghost(fields_of(w));
        if str_eq(key, "packet_src_port") {
            w.packet.source_port = value.to_owned();
        } else if str_eq(key, "packet_src_channel") {
            w.packet.source_channel = value.to_owned();
        } else if str_eq(key, "packet_dst_port") {
            w.packet.destination_port = value.to_owned();
        } else if str_eq(key, "packet_dst_channel") {
            w.packet.destination_channel = value.to_owned();
        } else if str_eq(key, "packet_sequence") {
            match parse_u64(value) {
                Some(n) => {
                    w.packet.sequence = n;
                },
                None => {
                    proof {
                        lemma_failure_persists(attrs, i + 1);
                    }
                    return Err(WriteAckError::InvalidAttribute(key.to_owned()));
                },
            }
        } else if str_eq(key, "packet_timeout_height") {
            match parse_timeout_height(value) {
                Some(h) => {
                    w.packet.timeout_height = h;
                },
                None => {
                    proof {
                        lemma_failure_persists(attrs, i + 1);
                    }
                    return Err(WriteAckError::InvalidAttribute(key.to_owned()));
                },
            }
        } else if str_eq(key, "packet_timeout_timestamp") {
            match parse_u64(value) {
                Some(n) => {
                    w.packet.timeout_timestamp = n;
                },
                None => {
                    proof {
                        lemma_failure_persists(attrs, i + 1);
                    }
                    return Err(WriteAckError::InvalidAttribute(key.to_owned()));
                },
            }
        } else if str_eq(key, "packet_data") {
            w.packet.data = utf8_bytes(value);
        } else if str_eq(key, "packet_ack") {
            w.ack = utf8_bytes(value);
        }
        proof {
            assert(read_attributes(attrs.subrange(0, i + 1)) == Some(fields_of(w)));
        }
        i = i + 1;
    }
    proof {
        assert(attrs.subrange(0, i as int) =~= attrs);
    }
    Ok(w)
}

impl WriteAcknowledgementEvent {
    /// Reads a `WriteAcknowledgement` from a transaction event.
    pub fn try_from(event: AbciEvent) -> (r: Result<WriteAcknowledgementEvent, WriteAckError>)
        ensures
            event.type_str@ != WRITE_ACK_EVENT_TYPE@ ==> (r matches Err(
                WriteAckError::MismatchEventType { expected, actual },
            ) && expected@ == WRITE_ACK_EVENT_TYPE@ && actual@ == event.type_str@),
            event.type_str@ == WRITE_ACK_EVENT_TYPE@ ==> match read_attributes(
                attribute_views(event.attributes@),
            ) {
                Some(f) => (r matches Ok(w) && fields_of(w) == f),
                None => (r matches Err(WriteAckError::InvalidAttribute(_))),
            },
    {
        if !str_eq(event.type_str.as_str(), WRITE_ACK_EVENT_TYPE) {
            return Err(
                WriteAckError::MismatchEventType {
                    expected: WRITE_ACK_EVENT_TYPE.to_owned(),
                    actual: event.type_str,
                },
            );
        }
        read_packet_attributes(&event.attributes)
    }
}

/// The `WriteAcknowledgement` that `event` carries, if it is one and its
/// attributes parse.
pub fn try_extract_write_acknowledgement_event(event: AbciEvent) -> (r: Option<WriteAcknowledgementEvent>)
    ensures
        r is Some <==> (event.type_str@ == WRITE_ACK_EVENT_TYPE@ && read_attributes(
            attribute_views(event.attributes@),
        ) is Some),
        r matches Some(w) ==> read_attributes(attribute_views(event.attributes@)) == Some(fields_of(w)),
{
    match WriteAcknowledgementEvent::try_from(event) {
        Ok(w) => Some(w),
        Err(_) => None,
    }
}

/// The kind of IBC event that a transaction event type names: `1` sent,
/// `2` acknowledgement written, `3` acknowledged, `4` timed out, `0` none.
pub open spec fn event_kind(t: Seq<char>) -> u8 {
    if t == "send_packet"@ {
        1
    } else if t == WRITE_ACK_EVENT_TYPE@ {
        2
    } else if t == "acknowledge_packet"@ {
        3
    } else if t == "timeout_packet"@ {
        4
    } else {
        0
    }
}

/// The IBC event built from the fields of a transaction event of kind `k`.
pub open spec fn event_matches(e: IbcEvent, k: u8, f: AckFields) -> bool {
    match e {
        IbcEvent::SendPacket(p) => k == 1 && packet_fields(p)
            == AckFields { ack: Seq::empty(), ..f },
        IbcEvent::WriteAcknowledgement(p, ack) => k == 2 && AckFields { ack: ack@, ..packet_fields(p) } == f,
        IbcEvent::AcknowledgePacket(p) => k == 3 && packet_fields(p)
            == AckFields { ack: Seq::empty(), ..f },
        IbcEvent::TimeoutPacket(p) => k == 4 && packet_fields(p)
            == AckFields { ack: Seq::empty(), ..f },
        _ => false,
    }
}

/// The fields carry at least one timeout.
pub open spec fn fields_have_timeout(f: AckFields) -> bool {
    !(f.timeout_height.revision_number == 0 && f.timeout_height.revision_height == 0
        && f.timeout_timestamp == 0)
}

/// Whether a transaction event stands for an IBC event: a packet event
/// whose attributes parse and whose packet has a timeout.
pub open spec fn decodes(e: AbciEvent) -> bool {
    &&& event_kind(e.type_str@) != 0
    &&& read_attributes(attribute_views(e.attributes@)) is Some
    &&& fields_have_timeout(read_attributes(attribute_views(e.attributes@))->Some_0)
}

/// The IBC event that a transaction event stands for: sent, acknowledged
/// and timed-out packets and written acknowledgements; `None` for another
/// event, attributes that do not parse, or a packet without any timeout.
pub fn decode_ibc_event(event: AbciEvent) -> (r: Option<IbcEvent>)
    ensures
        r is Some <==> decodes(event),
        r matches Some(e) ==> event_matches(
            e,
            event_kind(event.type_str@),
            read_attributes(attribute_views(event.attributes@))->Some_0,
        ),
{
    proof {
        reveal_strlit("send_packet");
        reveal_strlit("write_acknowledgement");
        reveal_strlit("acknowledge_packet");
        reveal_strlit("timeout_packet");
        assert("send_packet"@.len() != WRITE_ACK_EVENT_TYPE@.len());
        assert("acknowledge_packet"@.len() != WRITE_ACK_EVENT_TYPE@.len());
        assert("acknowledge_packet"@.len() != "send_packet"@.len());
        assert("timeout_packet"@.len() != WRITE_ACK_EVENT_TYPE@.len());
        assert("timeout_packet"@.len() != "send_packet"@.len());
        assert("timeout_packet"@.len() != "acknowledge_packet"@.len());
    }
    let kind: u8 = if str_eq(event.type_str.as_str(), "send_packet") {
        1
    } else if str_eq(event.type_str.as_str(), WRITE_ACK_EVENT_TYPE) {
        2
    } else if str_eq(event.type_str.as_str(), "acknowledge_packet") {
        3
    } else if str_eq(event.type_str.as_str(), "timeout_packet") {
        4
    } else {
        0
    };
    if kind == 0 {
        return None;
    }
    match read_packet_attributes(&event.attributes) {
        Err(_) => None,
        Ok(w) => {
            if !w.packet.has_timeout() {
                return None;
            }
            proof {
                assert(w.ack@ == read_attributes(attribute_views(event.attributes@))->Some_0.ack);
            }
            if kind == 1 {
                Some(IbcEvent::SendPacket(w.packet))
            } else if kind == 2 {
                Some(IbcEvent::WriteAcknowledgement(w.packet, w.ack))
            } else if kind == 3 {
                Some(IbcEvent::AcknowledgePacket(w.packet))
            } else {
                Some(IbcEvent::TimeoutPacket(w.packet))
            }
        },
    }
}

/// The events of `s` that stand for an IBC event, in order.
pub open spec fn decodable(s: Seq<AbciEvent>) -> Seq<AbciEvent>
    decreases s.len(),
{
    if s.len() == 0 {
        Seq::empty()
    } else if decodes(s.last()) {
        decodable(s.drop_last()).push(s.last())
    } else {
        decodable(s.drop_last())
    }
}

/// The IBC events of a block's transaction events, all at `height`; events
/// that do not decode are dropped.
pub fn decode_tx_events(height: Height, events: Vec<AbciEvent>) -> (r: Vec<IbcEventWithHeight>)
    ensures
        r@.len() == decodable(events@).len(),
        forall|i: int|
            0 <= i < r@.len() ==> (#[trigger] r@[i]).height == height && event_matches(
                r@[i].event,
                event_kind(decodable(events@)[i].type_str@),
                read_attributes(attribute_views(decodable(events@)[i].attributes@))->Some_0,
            ),
{
    let mut out: Vec<IbcEventWithHeight> = Vec::new();
    let mut rest = events;
    let ghost all = rest@;
    let ghost mut done: int = 0;
    while rest.len() > 0
        invariant
            0 <= done <= all.len(),
            rest@ == all.subrange(done, all.len() as int),
            out@.len() == decodable(all.subrange(0, done)).len(),
            forall|i: int|
                0 <= i < out@.len() ==> (#[trigger] out@[i]).height == height && event_matches(
                    out@[i].event,
                    event_kind(decodable(all.subrange(0, done))[i].type_str@),
                    read_attributes(attribute_views(decodable(all.subrange(0, done))[i].attributes@))->Some_0,
                ),
        decreases rest.len(),
    {
        let e = rest.remove(0);
        proof {
            assert(e == all[done]);
            assert(all.subrange(0, done + 1).drop_last() =~= all.subrange(0, done));
            done = done + 1;
            assert(rest@ =~= all.subrange(done, all.len() as int));
        }
        match decode_ibc_event(e) {
            Some(event) => out.push(IbcEventWithHeight { event, height }),
            None => {},
        }
    }
    proof {
        assert(all.subrange(0, done) =~= all);
    }
    out
}

} // verus!
