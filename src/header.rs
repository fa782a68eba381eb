use ibc_proto::google::protobuf::Any as RawAny;
use prost::Message;
use subtle_encoding::hex;
use vstd::prelude::*;
use vstd::string::StrSliceExecFns;
use crate::events::Height;

verus! {

/// The type URL of a Tendermint light-client header.
pub const TENDERMINT_HEADER_TYPE_URL: &'static str = "/ibc.lightclients.tendermint.v1.Header";

/// The type URL of a mock light-client header.
pub const MOCK_HEADER_TYPE_URL: &'static str = "/ibc.mock.Header";

/// The kinds of light client.
#[derive(Clone, Copy, Debug, PartialEq, Eq, Structural)]
pub enum ClientType {
    Tendermint,
    Mock,
}

/// The errors of decoding client headers.
#[derive(Clone, Debug)]
pub enum ClientError {
    UnknownHeaderType(String),
    /// The header's bytes are not a header of its type.
    InvalidRawHeader,
    MissingHeight,
    InvalidHeight,
    InvalidTimestamp,
}

/// A protobuf `Any`: a type URL and the encoded value.
#[derive(Clone, Debug)]
pub struct ProtoAny {
    pub type_url: String,
    pub value: Vec<u8>,
}

/// The protobuf varint (LEB128) of `n`: seven bits per byte, low bits
/// first, the high bit set on every byte but the last.
pub open spec fn varint(n: nat) -> Seq<u8>
    decreases n,
{
    if n < 128 {
        seq![n as u8]
    } else {
        seq![((n % 128) + 128) as u8] + varint(n / 128)
    }
}

/// A length-delimited protobuf field with key byte `key`; proto3 leaves an
/// empty field out.
pub open spec fn length_delimited(key: u8, body: Seq<u8>) -> Seq<u8> {
    if body.len() == 0 {
        Seq::empty()
    } else {
        seq![key] + varint(body.len()) + body
    }
}

/// The protobuf encoding of an `Any`: field 1 the type URL in UTF-8,
/// field 2 the value.
pub open spec fn any_bytes(type_url: Seq<char>, value: Seq<u8>) -> Seq<u8> {
    length_delimited(0x0a, vstd::utf8::encode_utf8(type_url)) + length_delimited(0x12, value)
}

/// The fields of a mock header read from its protobuf encoding: the height
/// if present, and the timestamp; `None` if the bytes do not decode.
pub uninterp spec fn mock_header_parts(value: Seq<u8>) -> Option<(Option<(u64, u64)>, u64)>;

/// The fields of a Tendermint header read from its protobuf encoding: chain
/// id, block height, time in seconds and nanoseconds; `None` if the bytes do
/// not decode or lack a signed header or time.
pub uninterp spec fn tendermint_header_parts(value: Seq<u8>) -> Option<(Seq<char>, i64, i64, i32)>;

/// Relies on prost's `Message::encode_to_vec` for the protobuf `Any`, whose
/// derived encoder writes each non-empty field as key, varint length and
/// bytes, in field order.
#[verifier::external_body]
fn encode_any_bytes(type_url: &String, value: &Vec<u8>) -> (r: Vec<u8>)
    ensures
        r@ == any_bytes(type_url@, value@),
{
    RawAny { type_url: type_url.clone(), value: value.clone() }.encode_to_vec()
}

/// Relies on prost's `Message::decode` for `ibc.mock.Header`.
#[verifier::external_body]
fn decode_mock_header(value: &Vec<u8>) -> (r: Option<(Option<(u64, u64)>, u64)>)
    ensures
        r == mock_header_parts(value@),
{
    ibc_proto::ibc::mock::Header::decode(value.as_slice()).ok().map(
        |h| (h.height.map(|x| (x.revision_number, x.revision_height)), h.timestamp),
    )
}

/// Relies on prost's `Message::decode` for
/// `ibc.lightclients.tendermint.v1.Header`; moves out the chain id, height
/// and time of its signed header.
#[verifier::external_body]
fn decode_tendermint_header(value: &Vec<u8>) -> (r: Option<(String, i64, i64, i32)>)
    ensures
        r matches Some(p) ==> tendermint_header_parts(value@) == Some((p.0@, p.1, p.2, p.3)),
        r is None ==> tendermint_header_parts(value@) is None,
{
    let h = ibc_proto::ibc::lightclients::tendermint::v1::Header::decode(value.as_slice()).ok()?;
    let header = h.signed_header?.header?;
    let time = header.time?;
    Some((header.chain_id, header.height, time.seconds, time.nanos))
}

/// Lower-case hexadecimal digit of `d < 16`, as ASCII.
pub open spec fn hex_digit(d: u8) -> u8 {
    if d < 10 {
        (48 + d) as u8
    } else {
        (87 + d) as u8
    }
}

/// Two lower-case hexadecimal digits per byte, as ASCII.
pub open spec fn hex_lower(b: Seq<u8>) -> Seq<u8>
    decreases b.len(),
{
    if b.len() == 0 {
        Seq::empty()
    } else {
        hex_lower(b.drop_last()) + seq![hex_digit(b.last() / 16), hex_digit(b.last() % 16)]
    }
}

/// Relies on `subtle_encoding::hex::encode`: lower-case hexadecimal, two
/// digits per byte, as ASCII bytes.
#[verifier::external_body]
fn to_hex(b: &Vec<u8>) -> (r: Vec<u8>)
    ensures
        r@ == hex_lower(b@),
{
    hex::encode(b)
}

/// Relies on `String::from_utf8`, which accepts every ASCII byte sequence
/// and keeps each byte as one character.
#[verifier::external_body]
fn ascii_to_string(b: Vec<u8>) -> (r: String)
    requires
        forall|i: int| 0 <= i < b@.len() ==> #[trigger] b@[i] < 128,
    ensures
        r@ == b@.map_values(|c: u8| c as char),
{
    String::from_utf8(b).unwrap()
}

proof fn lemma_hex_ascii(b: Seq<u8>)
    ensures
        forall|i: int| 0 <= i < hex_lower(b).len() ==> #[trigger] hex_lower(b)[i] < 128,
    decreases b.len(),
{
    if b.len() > 0 {
        let p = b.drop_last();
        lemma_hex_ascii(p);
        let x = b.last();
        assert(x / 16 < 16 && x % 16 < 16) by (bit_vector);
        let tail = seq![hex_digit(x / 16), hex_digit(x % 16)];
        assert forall|i: int| 0 <= i < hex_lower(b).len() implies #[trigger] hex_lower(b)[i] < 128 by {
            if i < hex_lower(p).len() {
                assert(hex_lower(b)[i] == hex_lower(p)[i]);
            } else {
                assert(hex_lower(b)[i] == tail[i - hex_lower(p).len()]);
            }
        }
    }
}

/// The value of decimal digits.
pub open spec fn digits_value(s: Seq<char>) -> int
    decreases s.len(),
{
    if s.len() == 0 {
        0
    } else {
        digits_value(s.drop_last()) * 10 + (s.last() as int - '0' as int)
    }
}

pub open spec fn all_digits(s: Seq<char>) -> bool {
    forall|i: int| 0 <= i < s.len() ==> '0' <= #[trigger] s[i] && s[i] <= '9'
}

/// The index of the last `-` of `s`, or `-1`.
pub open spec fn last_dash(s: Seq<char>) -> int
    decreases s.len(),
{
    if s.len() == 0 {
        -1
    } else if s.last() == '-' {
        s.len() - 1
    } else {
        last_dash(s.drop_last())
    }
}

/// The revision of a chain id of the form `{name}-{revision}`, where the
/// name does not end in `-` and the revision has no leading zero; `0` for
/// any other chain id or a revision that does not fit in `u64`.
pub open spec fn chain_version(id: Seq<char>) -> u64 {
    let k = last_dash(id);
    let suffix = id.subrange(k + 1, id.len() as int);
    if k >= 1 && id[k - 1] != '-' && suffix.len() > 0 && all_digits(suffix) && suffix[0] != '0'
        && digits_value(suffix) <= u64::MAX {
        digits_value(suffix) as u64
    } else {
        0
    }
}

proof fn lemma_last_dash(s: Seq<char>)
    ensures
        -1 <= last_dash(s) < s.len(),
        last_dash(s) >= 0 ==> s[last_dash(s)] == '-',
        forall|i: int| last_dash(s) < i < s.len() ==> s[i] != '-',
    decreases s.len(),
{
    if s.len() > 0 {
        let p = s.drop_last();
        lemma_last_dash(p);
        assert forall|i: int| last_dash(s) < i < s.len() implies s[i] != '-' by {
            if i < s.len() - 1 {
                assert(s[i] == p[i]);
            }
        }
    }
}

pub(crate) proof fn lemma_digits_grow(s: Seq<char>, n: int)
    requires
        0 <= n <= s.len(),
        all_digits(s),
    ensures
        digits_value(s.subrange(0, n)) <= digits_value(s),
        0 <= digits_value(s.subrange(0, n)),
    decreases s.len() - n,
{
    if n < s.len() {
        lemma_digits_grow(s, n + 1);
        let p = s.subrange(0, n + 1);
        assert(p.drop_last() =~= s.subrange(0, n));
        assert(p.last() == s[n]);
    } else {
        assert(s.subrange(0, n) =~= s);
        lemma_digits_nonneg(s);
    }
}

proof fn lemma_digits_nonneg(s: Seq<char>)
    requires
        all_digits(s),
    ensures
        0 <= digits_value(s),
    decreases s.len(),
{
    if s.len() > 0 {
        let p = s.drop_last();
        assert forall|i: int| 0 <= i < p.len() implies '0' <= #[trigger] p[i] && p[i] <= '9' by {
            assert(p[i] == s[i]);
        }
        lemma_digits_nonneg(p);
    }
}

/// The revision number carried by a chain id.
#[verifier::loop_isolation(false)]
pub fn chain_id_version(id: &str) -> (r: u64)
    ensures
        r == chain_version(id@),
{
    let n = id.unicode_len();
    proof {
        lemma_last_dash(id@);
    }
    let mut k: usize = n;
    while k > 0 && id.get_char(k - 1) != '-'
        invariant
            n == id@.len(),
            k <= n,
            forall|i: int| k <= i < n ==> id@[i] != '-',
        decreases k,
    {
        k = k - 1;
    }
    if k == 0 {
        // no `-` at all, or a leading one
        proof {
            if last_dash(id@) >= 1 {
                assert(id@[last_dash(id@)] == '-');
            }
        }
        return 0;
    }
    let dash = k - 1;
    proof {
        assert(last_dash(id@) == dash as int) by {
            if last_dash(id@) > dash as int {
                assert(id@[last_dash(id@)] == '-');
            }
            if last_dash(id@) < dash as int {
                assert(id@[dash as int] == '-');
            }
        }
    }
    let ghost suffix = id@.subrange(k as int, n as int);
    if dash == 0 || id.get_char(dash - 1) == '-' || k == n || id.get_char(k) == '0' {
        return 0;
    }
    let mut v: u64 = 0;
    let mut i: usize = k;
    while i < n
        invariant
            n == id@.len(),
            k < n,
            k <= i <= n,
            suffix == id@.subrange(k as int, n as int),
            all_digits(id@.subrange(k as int, i as int)),
            v == digits_value(id@.subrange(k as int, i as int)),
        decreases n - i,
    {
        let c = id.get_char(i);
        let ghost p = id@.subrange(k as int, i + 1);
        proof {
            assert(p =~= suffix.subrange(0, i + 1 - k));
            assert(p.drop_last() =~= id@.subrange(k as int, i as int));
            assert(p.last() == c);
        }
        if c < '0' || c > '9' {
            proof {
                assert(suffix[i - k] == c);
                assert(!all_digits(suffix));
            }
            return 0;
        }
        let d = (c as u32 - '0' as u32) as u64;
        let m = match v.checked_mul(10) {
            Some(m) => m,
            None => {
                proof {
                    assert forall|j: int| 0 <= j < p.len() implies '0' <= #[trigger] p[j] && p[j] <= '9' by {
                        if j < p.len() - 1 {
                            assert(p[j] == id@.subrange(k as int, i as int)[j]);
                        }
                    }
                    lemma_value_overflow(suffix, p, (i + 1 - k) as int);
                }
                return 0;
            },
        };
        v = match m.checked_add(d) {
            Some(x) => x,
            None => {
                proof {
                    assert forall|j: int| 0 <= j < p.len() implies '0' <= #[trigger] p[j] && p[j] <= '9' by {
                        if j < p.len() - 1 {
                            assert(p[j] == id@.subrange(k as int, i as int)[j]);
                        }
                    }
                    lemma_value_overflow(suffix, p, (i + 1 - k) as int);
                }
                return 0;
            },
        };
        proof {
            assert forall|j: int| 0 <= j < p.len() implies '0' <= #[trigger] p[j] && p[j] <= '9' by {
                if j < p.len() - 1 {
                    assert(p[j] == id@.subrange(k as int, i as int)[j]);
                }
            }
        }
        i = i + 1;
    }
    proof {
        assert(id@.subrange(k as int, i as int) =~= suffix);
    }
    v
}

/// A prefix of digits worth more than `u64::MAX` makes the whole number
/// too large, or the number has a character that is not a digit.
proof fn lemma_value_overflow(suffix: Seq<char>, p: Seq<char>, n: int)
    requires
        0 < n <= suffix.len(),
        p == suffix.subrange(0, n),
        all_digits(p),
        digits_value(p) > u64::MAX,
    ensures
        !all_digits(suffix) || digits_value(suffix) > u64::MAX,
{
    if all_digits(suffix) {
        lemma_digits_grow(suffix, n);
    }
}

/// A copy of the bytes.
pub fn copy_bytes(b: &Vec<u8>) -> (r: Vec<u8>)
    ensures
        r@ == b@,
{
    let mut out: Vec<u8> = Vec::new();
    let mut i: usize = 0;
    while i < b.len()
        invariant
            i <= b@.len(),
            out@ == b@.subrange(0, i as int),
        decreases b@.len() - i,
    {
        out.push(b[i]);
        i = i + 1;
        proof {
            assert(out@ =~= b@.subrange(0, i as int));
        }
    }
    proof {
        assert(out@ =~= b@);
    }
    out
}

/// Whether two strings hold the same characters.
pub fn str_eq(a: &str, b: &str) -> (r: bool)
    ensures
        r == (a@ == b@),
{
    let n = a.unicode_len();
    if n != b.unicode_len() {
        return false;
    }
    let mut i: usize = 0;
    while i < n
        invariant
            n == a@.len(),
            n == b@.len(),
            i <= n,
            forall|j: int| 0 <= j < i ==> a@[j] == b@[j],
        decreases n - i,
    {
        if a.get_char(i) != b.get_char(i) {
            return false;
        }
        i = i + 1;
    }
    proof {
        assert(a@ =~= b@);
    }
    true
}

/// The height and timestamp of the mock header encoded by `value`.
pub open spec fn spec_mock_fields(value: Seq<u8>) -> Result<(Height, u64), ClientError> {
    match mock_header_parts(value) {
        None => Err(ClientError::InvalidRawHeader),
        Some((None, _)) => Err(ClientError::MissingHeight),
        Some((Some((rn, rh)), ts)) => if rh == 0 {
            Err(ClientError::InvalidHeight)
        } else {
            Ok((Height { revision_number: rn, revision_height: rh }, ts))
        },
    }
}

/// The height and timestamp (nanoseconds) of the Tendermint header encoded
/// by `value`: the revision comes from the chain id.
pub open spec fn spec_tendermint_fields(value: Seq<u8>) -> Result<(Height, u64), ClientError> {
    match tendermint_header_parts(value) {
        None => Err(ClientError::InvalidRawHeader),
        Some((chain, h, secs, nanos)) => if h <= 0 {
            Err(ClientError::InvalidHeight)
        } else if secs < 0 || nanos < 0 || nanos >= 1_000_000_000 || secs * 1_000_000_000 + nanos
            > u64::MAX {
            Err(ClientError::InvalidTimestamp)
        } else {
            Ok(
                (
                    Height { revision_number: chain_version(chain), revision_height: h as u64 },
                    (secs * 1_000_000_000 + nanos) as u64,
                ),
            )
        },
    }
}

/// A light-client header, as the relay core reads it.
pub trait Header {
    spec fn spec_client_type(&self) -> ClientType;

    spec fn spec_height(&self) -> Height;

    spec fn spec_timestamp(&self) -> u64;

    fn client_type(&self) -> (r: ClientType)
        ensures
            r == self.spec_client_type(),
    ;

    fn height(&self) -> (r: Height)
        ensures
            r == self.spec_height(),
    ;

    /// Nanoseconds since the Unix epoch.
    fn timestamp(&self) -> (r: u64)
        ensures
            r == self.spec_timestamp(),
    ;
}

/// A mock header, kept with its encoding.
#[derive(Clone, Debug)]
pub struct MockHeader {
    value: Vec<u8>,
    height: Height,
    timestamp: u64,
}

/// A Tendermint header, kept with its encoding.
#[derive(Clone, Debug)]
pub struct TendermintHeader {
    value: Vec<u8>,
    height: Height,
    timestamp: u64,
}

impl MockHeader {
    pub closed spec fn encoding(&self) -> Seq<u8> {
        self.value@
    }

    pub closed spec fn wf(&self) -> bool {
        spec_mock_fields(self.value@) == Ok::<(Height, u64), ClientError>((self.height, self.timestamp))
    }

    /// Decodes the protobuf encoding of a mock header.
    pub fn decode(value: Vec<u8>) -> (r: Result<MockHeader, ClientError>)
        ensures
            match spec_mock_fields(value@) {
                Ok(f) => (r matches Ok(h) && h.wf() && h.encoding() == value@ && h.spec_height() == f.0
                    && h.spec_timestamp() == f.1),
                Err(e) => r == Err::<MockHeader, ClientError>(e),
            },
    {
        match decode_mock_header(&value) {
            None => Err(ClientError::InvalidRawHeader),
            Some((None, _)) => Err(ClientError::MissingHeight),
            Some((Some((rn, rh)), ts)) => {
                if rh == 0 {
                    Err(ClientError::InvalidHeight)
                } else {
                    Ok(MockHeader { value, height: Height { revision_number: rn, revision_height: rh }, timestamp: ts })
                }
            },
        }
    }

    pub fn encoded(&self) -> (r: &Vec<u8>)
        ensures
            r@ == self.encoding(),
    {
        &self.value
    }
}

impl Header for MockHeader {
    open spec fn spec_client_type(&self) -> ClientType {
        ClientType::Mock
    }

    closed spec fn spec_height(&self) -> Height {
        self.height
    }

    closed spec fn spec_timestamp(&self) -> u64 {
        self.timestamp
    }

    fn client_type(&self) -> (r: ClientType) {
        ClientType::Mock
    }

    fn height(&self) -> (r: Height) {
        self.height
    }

    fn timestamp(&self) -> (r: u64) {
        self.timestamp
    }
}

impl TendermintHeader {
    pub closed spec fn encoding(&self) -> Seq<u8> {
        self.value@
    }

    pub closed spec fn wf(&self) -> bool {
        spec_tendermint_fields(self.value@) == Ok::<(Height, u64), ClientError>(
            (self.height, self.timestamp),
        )
    }

    /// Decodes the protobuf encoding of a Tendermint header.
    pub fn decode(value: Vec<u8>) -> (r: Result<TendermintHeader, ClientError>)
        ensures
            match spec_tendermint_fields(value@) {
                Ok(f) => (r matches Ok(h) && h.wf() && h.encoding() == value@ && h.spec_height() == f.0
                    && h.spec_timestamp() == f.1),
                Err(e) => r == Err::<TendermintHeader, ClientError>(e),
            },
    {
        match decode_tendermint_header(&value) {
            None => Err(ClientError::InvalidRawHeader),
            Some((chain, h, secs, nanos)) => {
                if h <= 0 {
                    return Err(ClientError::InvalidHeight);
                }
                if secs < 0 || nanos < 0 || nanos >= 1_000_000_000 {
                    return Err(ClientError::InvalidTimestamp);
                }
                let ts = match (secs as u64).checked_mul(1_000_000_000) {
                    Some(x) => match x.checked_add(nanos as u64) {
                        Some(t) => t,
                        None => {
                            return Err(ClientError::InvalidTimestamp);
                        },
                    },
                    None => {
                        return Err(ClientError::InvalidTimestamp);
                    },
                };
                let revision = chain_id_version(chain.as_str());
                Ok(TendermintHeader { value, height: Height { revision_number: revision, revision_height: h as u64 }, timestamp: ts })
            },
        }
    }

    pub fn encoded(&self) -> (r: &Vec<u8>)
        ensures
            r@ == self.encoding(),
    {
        &self.value
    }
}

impl Header for TendermintHeader {
    open spec fn spec_client_type(&self) -> ClientType {
        ClientType::Tendermint
    }

    closed spec fn spec_height(&self) -> Height {
        self.height
    }

    closed spec fn spec_timestamp(&self) -> u64 {
        self.timestamp
    }

    fn client_type(&self) -> (r: ClientType) {
        ClientType::Tendermint
    }

    fn height(&self) -> (r: Height) {
        self.height
    }

    fn timestamp(&self) -> (r: u64) {
        self.timestamp
    }
}

/// A header of any of the registered client types.
#[derive(Clone, Debug)]
pub enum AnyHeader {
    Tendermint(TendermintHeader),
    Mock(MockHeader),
}

/// The type URL registered for a client type.
pub open spec fn type_url_of(t: ClientType) -> Seq<char> {
    match t {
        ClientType::Tendermint => TENDERMINT_HEADER_TYPE_URL@,
        ClientType::Mock => MOCK_HEADER_TYPE_URL@,
    }
}

/// How an `Any` decodes: the client type that its URL names and the fields
/// of its value, an error of that type's decoding, or `None` for a URL that
/// names no registered type.
pub open spec fn spec_decode_any(url: Seq<char>, value: Seq<u8>) -> Option<
    (ClientType, Result<(Height, u64), ClientError>),
> {
    if url == TENDERMINT_HEADER_TYPE_URL@ {
        Some((ClientType::Tendermint, spec_tendermint_fields(value)))
    } else if url == MOCK_HEADER_TYPE_URL@ {
        Some((ClientType::Mock, spec_mock_fields(value)))
    } else {
        None
    }
}

impl AnyHeader {
    pub open spec fn wf(&self) -> bool {
        match self {
            AnyHeader::Tendermint(h) => h.wf(),
            AnyHeader::Mock(h) => h.wf(),
        }
    }

    /// The encoding of the header itself.
    pub open spec fn encoding(&self) -> Seq<u8> {
        match self {
            AnyHeader::Tendermint(h) => h.encoding(),
            AnyHeader::Mock(h) => h.encoding(),
        }
    }

    /// Decodes an `Any` by its type URL; a URL that names no registered
    /// header type fails with `UnknownHeaderType`.
    pub fn try_from(raw: ProtoAny) -> (r: Result<AnyHeader, ClientError>)
        ensures
            match spec_decode_any(raw.type_url@, raw.value@) {
                None => (r matches Err(ClientError::UnknownHeaderType(u)) && u@ == raw.type_url@),
                Some((_, Err(e))) => r == Err::<AnyHeader, ClientError>(e),
                Some((t, Ok(f))) => (r matches Ok(h) && h.wf() && h.spec_client_type() == t
                    && h.encoding() == raw.value@ && h.spec_height() == f.0 && h.spec_timestamp()
                    == f.1),
            },
    {
        if str_eq(raw.type_url.as_str(), TENDERMINT_HEADER_TYPE_URL) {
            match TendermintHeader::decode(raw.value) {
                Ok(h) => Ok(AnyHeader::Tendermint(h)),
                Err(e) => Err(e),
            }
        } else if str_eq(raw.type_url.as_str(), MOCK_HEADER_TYPE_URL) {
            match MockHeader::decode(raw.value) {
                Ok(h) => Ok(AnyHeader::Mock(h)),
                Err(e) => Err(e),
            }
        } else {
            Err(ClientError::UnknownHeaderType(raw.type_url))
        }
    }

    /// The `Any` that carries this header.
    pub fn into_any(self) -> (r: ProtoAny)
        ensures
            r.type_url@ == type_url_of(self.spec_client_type()),
            r.value@ == self.encoding(),
    {
        match self {
            AnyHeader::Tendermint(h) => ProtoAny {
                type_url: TENDERMINT_HEADER_TYPE_URL.to_owned(),
                value: h.value,
            },
            AnyHeader::Mock(h) => ProtoAny { type_url: MOCK_HEADER_TYPE_URL.to_owned(), value: h.value },
        }
    }

    /// The hexadecimal text of the protobuf encoding of this header's `Any`.
    pub fn encode_to_string(&self) -> (r: String)
        ensures
            r@ == hex_lower(any_bytes(type_url_of(self.spec_client_type()), self.encoding())).map_values(
                |c: u8| c as char,
            ),
    {
        let (url, value) = match self {
            AnyHeader::Tendermint(h) => (TENDERMINT_HEADER_TYPE_URL.to_owned(), h.encoded()),
            AnyHeader::Mock(h) => (MOCK_HEADER_TYPE_URL.to_owned(), h.encoded()),
        };
        let bytes = encode_any_bytes(&url, value);
        let digits = to_hex(&bytes);
        proof {
            lemma_hex_ascii(bytes@);
        }
        ascii_to_string(digits)
    }
}

impl Header for AnyHeader {
    open spec fn spec_client_type(&self) -> ClientType {
        match self {
            AnyHeader::Tendermint(h) => h.spec_client_type(),
            AnyHeader::Mock(h) => h.spec_client_type(),
        }
    }

    open spec fn spec_height(&self) -> Height {
        match self {
            AnyHeader::Tendermint(h) => h.spec_height(),
            AnyHeader::Mock(h) => h.spec_height(),
        }
    }

    open spec fn spec_timestamp(&self) -> u64 {
        match self {
            AnyHeader::Tendermint(h) => h.spec_timestamp(),
            AnyHeader::Mock(h) => h.spec_timestamp(),
        }
    }

    fn client_type(&self) -> (r: ClientType) {
        match self {
            AnyHeader::Tendermint(h) => h.client_type(),
            AnyHeader::Mock(h) => h.client_type(),
        }
    }

    fn height(&self) -> (r: Height) {
        match self {
            AnyHeader::Tendermint(h) => h.height(),
            AnyHeader::Mock(h) => h.height(),
        }
    }

    fn timestamp(&self) -> (r: u64) {
        match self {
            AnyHeader::Tendermint(h) => h.timestamp(),
            AnyHeader::Mock(h) => h.timestamp(),
        }
    }
}

/// The two registered type URLs differ.
proof fn lemma_type_urls_differ()
    ensures
        TENDERMINT_HEADER_TYPE_URL@ != MOCK_HEADER_TYPE_URL@,
{
    reveal_strlit("/ibc.lightclients.tendermint.v1.Header");
    reveal_strlit("/ibc.mock.Header");
    assert(TENDERMINT_HEADER_TYPE_URL@.len() != MOCK_HEADER_TYPE_URL@.len());
}

/// Decoding the `Any` of a header gives back a header of the same type,
/// encoding, height and timestamp; an `Any` whose URL names no registered
/// type does not decode.
pub proof fn lemma_any_header_round_trip(h: AnyHeader, url: Seq<char>, value: Seq<u8>)
    requires
        h.wf(),
    ensures
        spec_decode_any(type_url_of(h.spec_client_type()), h.encoding()) == Some(
            (h.spec_client_type(), Ok::<(Height, u64), ClientError>((h.spec_height(), h.spec_timestamp()))),
        ),
        url != TENDERMINT_HEADER_TYPE_URL@ && url != MOCK_HEADER_TYPE_URL@ ==> spec_decode_any(url, value)
            is None,
{
    lemma_type_urls_differ();
    match h {
        AnyHeader::Tendermint(t) => {
            assert(t.wf());
        },
        AnyHeader::Mock(m) => {
            assert(m.wf());
        },
    }
}

} // verus!
