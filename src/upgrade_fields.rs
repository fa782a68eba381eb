use itertools::Itertools;
use vstd::prelude::*;
use crate::identifier::{connection_id_error, ConnectionId, IdentifierError};

verus! {

/// The ordering of a channel.
#[derive(Clone, Copy, Debug, PartialEq, Eq, Structural)]
pub enum Ordering {
    NoneUnspecified,
    Unordered,
    Ordered,
}

pub open spec fn spec_ordering_from_i32(n: i32) -> Option<Ordering> {
    if n == 0 {
        Some(Ordering::NoneUnspecified)
    } else if n == 1 {
        Some(Ordering::Unordered)
    } else if n == 2 {
        Some(Ordering::Ordered)
    } else {
        None
    }
}

pub open spec fn spec_ordering_as_i32(o: Ordering) -> i32 {
    match o {
        Ordering::NoneUnspecified => 0,
        Ordering::Unordered => 1,
        Ordering::Ordered => 2,
    }
}

/// The errors of decoding channel records.
#[derive(Clone, Debug)]
pub enum ChannelError {
    UnknownOrderType(i32),
    /// Every connection hop that did not parse, with the reason.
    ParseConnectionHopsVector(Vec<(String, IdentifierError)>),
}

impl Ordering {
    pub fn from_i32(n: i32) -> (r: Result<Ordering, ChannelError>)
        ensures
            r is Ok <==> spec_ordering_from_i32(n) is Some,
            r matches Ok(o) ==> spec_ordering_from_i32(n) == Some(o),
            r matches Err(e) ==> e matches ChannelError::UnknownOrderType(m) && m == n,
    {
        if n == 0 {
            Ok(Ordering::NoneUnspecified)
        } else if n == 1 {
            Ok(Ordering::Unordered)
        } else if n == 2 {
            Ok(Ordering::Ordered)
        } else {
            Err(ChannelError::UnknownOrderType(n))
        }
    }

    pub fn as_i32(&self) -> (r: i32)
        ensures
            r == spec_ordering_as_i32(*self),
    {
        match self {
            Ordering::NoneUnspecified => 0,
            Ordering::Unordered => 1,
            Ordering::Ordered => 2,
        }
    }
}

/// The version string of a channel.
#[derive(Clone, Debug)]
pub struct Version {
    pub value: String,
}

/// The wire record of the fields of a channel upgrade.
#[derive(Clone, Debug)]
pub struct RawUpgradeFields {
    pub ordering: i32,
    pub connection_hops: Vec<String>,
    pub version: String,
}

/// The fields of a channel upgrade.
#[derive(Debug)]
pub struct UpgradeFields {
    ordering: Ordering,
    connection_hops: Vec<ConnectionId>,
    version: Version,
}

/// The characters of each string.
pub open spec fn string_views(s: Seq<String>) -> Seq<Seq<char>> {
    s.map_values(|x: String| x@)
}

/// The hops that parse as connection identifiers, in order.
pub open spec fn valid_hops(h: Seq<Seq<char>>) -> Seq<Seq<char>>
    decreases h.len(),
{
    if h.len() == 0 {
        Seq::empty()
    } else if connection_id_error(h.last()) is None {
        valid_hops(h.drop_last()).push(h.last())
    } else {
        valid_hops(h.drop_last())
    }
}

/// The hops that do not parse, in order.
pub open spec fn bad_hops(h: Seq<Seq<char>>) -> Seq<Seq<char>>
    decreases h.len(),
{
    if h.len() == 0 {
        Seq::empty()
    } else if connection_id_error(h.last()) is None {
        bad_hops(h.drop_last())
    } else {
        bad_hops(h.drop_last()).push(h.last())
    }
}

/// The value of upgrade fields: ordering, connection hops, version.
pub type UpgradeFieldsView = (Ordering, Seq<Seq<char>>, Seq<char>);

/// The value of a wire record: ordering number, connection hops, version.
pub type RawUpgradeFieldsView = (i32, Seq<Seq<char>>, Seq<char>);

/// Why decoding a wire record failed.
pub enum DecodeFailure {
    UnknownOrderType(i32),
    BadHops(Seq<Seq<char>>),
}

pub open spec fn spec_encode(u: UpgradeFieldsView) -> RawUpgradeFieldsView {
    (spec_ordering_as_i32(u.0), u.1, u.2)
}

pub open spec fn spec_decode(r: RawUpgradeFieldsView) -> Result<UpgradeFieldsView, DecodeFailure> {
    match spec_ordering_from_i32(r.0) {
        None => Err(DecodeFailure::UnknownOrderType(r.0)),
        Some(o) => if bad_hops(r.1).len() > 0 {
            Err(DecodeFailure::BadHops(bad_hops(r.1)))
        } else {
            Ok((o, r.1, r.2))
        },
    }
}

/// Every hop parses as a connection identifier.
pub open spec fn hops_valid(h: Seq<Seq<char>>) -> bool {
    forall|i: int| 0 <= i < h.len() ==> connection_id_error(#[trigger] h[i]) is None
}

/// `f` lists the hops `b`, each with the reason it does not parse.
pub open spec fn reports(f: Seq<(String, IdentifierError)>, b: Seq<Seq<char>>) -> bool {
    &&& f.map_values(|p: (String, IdentifierError)| p.0@) == b
    &&& forall|i: int| 0 <= i < f.len() ==> Some((#[trigger] f[i]).1) == connection_id_error(f[i].0@)
}

/// Relies on `Itertools::partition_result`: the `Ok` values in input order
/// on the left, the `Err` values in input order on the right.
#[verifier::external_body]
fn partition_hops(hops: &Vec<String>) -> (r: (Vec<ConnectionId>, Vec<(String, IdentifierError)>))
    ensures
        r.0@.map_values(|c: ConnectionId| c@) == valid_hops(string_views(hops@)),
        reports(r.1@, bad_hops(string_views(hops@))),
{
    hops.iter().map(parse_hop).partition_result()
}

/// Parses one hop, keeping the text of a hop that does not parse.
fn parse_hop(hop: &String) -> (r: Result<ConnectionId, (String, IdentifierError)>)
    ensures
        r is Ok <==> connection_id_error(hop@) is None,
        r matches Ok(c) ==> c@ == hop@,
        r matches Err(p) ==> p.0@ == hop@ && connection_id_error(hop@) == Some(p.1),
{
    match ConnectionId::parse(hop.as_str()) {
        Ok(c) => Ok(c),
        Err(e) => Err((hop.clone(), e)),
    }
}

impl UpgradeFields {
    pub closed spec fn view(&self) -> UpgradeFieldsView {
        (self.ordering, self.connection_hops@.map_values(|c: ConnectionId| c@), self.version.value@)
    }

    pub fn new(ordering: Ordering, connection_hops: Vec<ConnectionId>, version: Version) -> (r: Self)
        ensures
            r.view() == (ordering, connection_hops@.map_values(|c: ConnectionId| c@), version.value@),
    {
        UpgradeFields { ordering, connection_hops, version }
    }

    pub fn ordering(&self) -> (r: Ordering)
        ensures
            r == self.view().0,
    {
        self.ordering
    }

    pub fn connection_hops(&self) -> (r: &Vec<ConnectionId>)
        ensures
            r@.map_values(|c: ConnectionId| c@) == self.view().1,
    {
        &self.connection_hops
    }

    pub fn version(&self) -> (r: &Version)
        ensures
            r.value@ == self.view().2,
    {
        &self.version
    }

    /// Decodes a wire record. Fails on an unknown ordering, and then on
    /// hops that do not parse, listing every one of them.
    pub fn try_from(value: RawUpgradeFields) -> (r: Result<UpgradeFields, ChannelError>)
        ensures
            ({
                let raw = (value.ordering, string_views(value.connection_hops@), value.version@);
                match spec_decode(raw) {
                    Ok(u) => (r matches Ok(f) && f.view() == u),
                    Err(DecodeFailure::UnknownOrderType(n)) => (r matches Err(
                        ChannelError::UnknownOrderType(m),
                    ) && m == n),
                    Err(DecodeFailure::BadHops(b)) => (r matches Err(
                        ChannelError::ParseConnectionHopsVector(f),
                    ) && reports(f@, b)),
                }
            }),
    {
        let ordering = match Ordering::from_i32(value.ordering) {
            Ok(o) => o,
            Err(e) => {
                return Err(e);
            },
        };
        let (connection_hops, failures) = partition_hops(&value.connection_hops);
        if failures.len() > 0 {
            proof {
                assert(failures@.map_values(|p: (String, IdentifierError)| p.0@).len() > 0);
            }
            return Err(ChannelError::ParseConnectionHopsVector(failures));
        }
        proof {
            let h = string_views(value.connection_hops@);
            assert(failures@.map_values(|p: (String, IdentifierError)| p.0@).len() == 0);
            lemma_no_bad_hops(h);
        }
        Ok(UpgradeFields::new(ordering, connection_hops, Version { value: value.version }))
    }

    /// Encodes into a wire record, which decodes back to these fields.
    pub fn into_raw(self) -> (r: RawUpgradeFields)
        ensures
            (r.ordering, string_views(r.connection_hops@), r.version@) == spec_encode(self.view()),
            spec_decode((r.ordering, string_views(r.connection_hops@), r.version@)) == Ok::<
                UpgradeFieldsView,
                DecodeFailure,
            >(self.view()),
    {
        let ghost v = self.view();
        let mut hops: Vec<String> = Vec::new();
        let mut rest = self.connection_hops;
        let ghost all = v.1;
        while rest.len() > 0
            invariant
                hops@.len() + rest@.len() == all.len(),
                forall|i: int| 0 <= i < hops@.len() ==> (#[trigger] hops@[i])@ == all[i],
                forall|i: int| 0 <= i < hops@.len() ==> connection_id_error((#[trigger] hops@[i])@) is None,
                forall|i: int| 0 <= i < rest@.len() ==> (#[trigger] rest@[i])@ == all[hops@.len() + i],
            decreases rest.len(),
        {
            let ghost before = rest@;
            let c = rest.remove(0);
            hops.push(c.into_string());
            assert forall|i: int| 0 <= i < rest@.len() implies (#[trigger] rest@[i])@ == all[hops@.len() + i] by {
                assert(rest@[i] == before[i + 1]);
            }
        }
        proof {
            assert(string_views(hops@) =~= all);
            assert forall|i: int| 0 <= i < all.len() implies connection_id_error(#[trigger] all[i]) is None by {
                assert(hops@[i]@ == all[i]);
            }
            lemma_upgrade_fields_round_trip(v, spec_encode(v));
        }
        RawUpgradeFields { ordering: self.ordering.as_i32(), connection_hops: hops, version: self.version.value }
    }
}

proof fn lemma_no_bad_hops(h: Seq<Seq<char>>)
    requires
        bad_hops(h).len() == 0,
    ensures
        valid_hops(h) == h,
        hops_valid(h),
    decreases h.len(),
{
    if h.len() > 0 {
        let p = h.drop_last();
        lemma_no_bad_hops(p);
        assert(p.push(h.last()) =~= h);
        assert forall|i: int| 0 <= i < h.len() implies connection_id_error(#[trigger] h[i]) is None by {
            if i < h.len() - 1 {
                assert(h[i] == p[i]);
            }
        }
    }
}

proof fn lemma_bad_hops_complete(h: Seq<Seq<char>>)
    ensures
        forall|i: int|
            0 <= i < h.len() && connection_id_error(#[trigger] h[i]) is Some ==> bad_hops(h).contains(h[i]),
        forall|i: int| 0 <= i < bad_hops(h).len() ==> connection_id_error(#[trigger] bad_hops(h)[i]) is Some,
        hops_valid(h) ==> bad_hops(h).len() == 0,
    decreases h.len(),
{
    if h.len() > 0 {
        let p = h.drop_last();
        lemma_bad_hops_complete(p);
        assert forall|i: int|
            0 <= i < h.len() && connection_id_error(#[trigger] h[i]) is Some implies bad_hops(h).contains(h[i]) by {
            if i < h.len() - 1 {
                assert(h[i] == p[i]);
                let j = choose|j: int| 0 <= j < bad_hops(p).len() && bad_hops(p)[j] == p[i];
                assert(bad_hops(h)[j] == p[i]);
            } else {
                assert(bad_hops(h).last() == h[i]);
            }
        }
        if hops_valid(h) {
            assert forall|i: int| 0 <= i < p.len() implies connection_id_error(#[trigger] p[i]) is None by {
                assert(p[i] == h[i]);
            }
            assert(connection_id_error(h[h.len() - 1]) is None);
        }
    }
}

/// `b` holds every hop of `h` that does not parse, and no other.
pub open spec fn reports_exactly(h: Seq<Seq<char>>, b: Seq<Seq<char>>) -> bool {
    &&& forall|i: int| 0 <= i < h.len() && connection_id_error(#[trigger] h[i]) is Some ==> b.contains(h[i])
    &&& forall|i: int| 0 <= i < b.len() ==> connection_id_error(#[trigger] b[i]) is Some
}

/// Decoding the encoding of valid upgrade fields gives them back; decoding
/// a record with a known ordering and hops that do not parse fails and
/// reports every such hop, and only those.
pub proof fn lemma_upgrade_fields_round_trip(u: UpgradeFieldsView, raw: RawUpgradeFieldsView)
    ensures
        hops_valid(u.1) ==> spec_decode(spec_encode(u)) == Ok::<UpgradeFieldsView, DecodeFailure>(u),
        spec_ordering_from_i32(raw.0) is Some && !hops_valid(raw.1) ==> (spec_decode(raw) matches Err(
            DecodeFailure::BadHops(b),
        ) && reports_exactly(raw.1, b)),
{
    lemma_bad_hops_complete(u.1);
    lemma_bad_hops_complete(raw.1);
    if !hops_valid(raw.1) {
        let i = choose|i: int| 0 <= i < raw.1.len() && connection_id_error(#[trigger] raw.1[i]) is Some;
        assert(bad_hops(raw.1).contains(raw.1[i]));
    }
}

} // verus!
