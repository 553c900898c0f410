//! Constrained Application Protocol (RFC 7252): message codec.
use vstd::prelude::*;
use vstd::slice::slice_subrange;
use vstd::string::*;
use crate::text::{concat, dec_chars, decimal, join3, owned};
use crate::wire::{be16_at, copy_range, lemma_u16_roundtrip, push_all, push_u16, read_u16, to_vec, u16_bytes};

verus! {

pub const COAP_UDP_PORT: u16 = 5683;
pub const COAPS_UDP_PORT: u16 = 5684;
pub const COAP_HEADER_LEN: usize = 4;
pub const COAP_PAYLOAD_MARKER: u8 = 0xFF;

pub const COAP_TYPE_CON: u8 = 0;
pub const COAP_TYPE_NON: u8 = 1;
pub const COAP_TYPE_ACK: u8 = 2;
pub const COAP_TYPE_RST: u8 = 3;

pub const COAP_CODE_GET: u8 = 1;
pub const COAP_CODE_POST: u8 = 2;
pub const COAP_CODE_PUT: u8 = 3;
pub const COAP_CODE_DELETE: u8 = 4;

pub const COAP_CODE_205_CONTENT: u8 = 69;
pub const COAP_CODE_404_NOT_FOUND: u8 = 132;

pub const COAP_OPT_URI_PATH: u16 = 11;
pub const COAP_OPT_CONTENT_FORMAT: u16 = 12;

#[derive(Debug, Clone, PartialEq, Eq)]
pub struct CoapOption {
    pub number: u16,
    pub value: Vec<u8>,
}

/// The mathematical content of an option.
pub struct OptModel {
    pub number: u16,
    pub value: Seq<u8>,
}

impl View for CoapOption {
    type V = OptModel;

    open spec fn view(&self) -> OptModel {
        OptModel { number: self.number, value: self.value@ }
    }
}

#[derive(Debug, Clone, PartialEq, Eq)]
pub struct CoapPacket {
    pub version: u8,
    pub msg_type: u8,
    pub code: u8,
    pub message_id: u16,
    pub token: Vec<u8>,
    pub options: Vec<CoapOption>,
    pub payload: Vec<u8>,
}

/// The mathematical content of a packet.
pub struct CoapModel {
    pub version: u8,
    pub msg_type: u8,
    pub code: u8,
    pub message_id: u16,
    pub token: Seq<u8>,
    pub options: Seq<OptModel>,
    pub payload: Seq<u8>,
}

pub open spec fn opt_models(opts: Seq<CoapOption>) -> Seq<OptModel> {
    opts.map_values(|o: CoapOption| o@)
}

impl View for CoapPacket {
    type V = CoapModel;

    open spec fn view(&self) -> CoapModel {
        CoapModel {
            version: self.version,
            msg_type: self.msg_type,
            code: self.code,
            message_id: self.message_id,
            token: self.token@,
            options: opt_models(self.options@),
            payload: self.payload@,
        }
    }
}

#[derive(Debug, Clone, Copy, PartialEq, Eq, Structural)]
pub enum CoapError {
    PacketTooShort(usize),
    InvalidVersion(u8),
    InvalidTokenLength(u8),
    EmptyPayloadMarker,
    OptionNumberOverflow,
    InvalidOptionEncoding,
}

impl CoapError {
    /// The human-readable description of the error.
    pub open spec fn description(self) -> Seq<char> {
        match self {
            CoapError::PacketTooShort(l) => "CoAP packet too short ("@ + dec_chars(l as nat)
                + " bytes)"@,
            CoapError::InvalidVersion(v) => "Invalid CoAP version: "@ + dec_chars(v as nat),
            CoapError::InvalidTokenLength(t) => "Invalid CoAP token length: "@ + dec_chars(
                t as nat,
            ) + " (max 8)"@,
            CoapError::EmptyPayloadMarker => "CoAP payload marker must be followed by payload data"@,
            CoapError::OptionNumberOverflow => "CoAP option number exceeds 16-bit range"@,
            CoapError::InvalidOptionEncoding => "Malformed CoAP option delta/length"@,
        }
    }

    /// Renders the error as text.
    pub fn to_string(&self) -> (r: String)
        ensures
            r@ == self.description(),
    {
        match self {
            CoapError::PacketTooShort(l) => join3(
                "CoAP packet too short (",
                decimal(*l as u64).as_str(),
                " bytes)",
            ),
            CoapError::InvalidVersion(v) => concat("Invalid CoAP version: ", decimal(*v as u64).as_str()),
            CoapError::InvalidTokenLength(t) => join3(
                "Invalid CoAP token length: ",
                decimal(*t as u64).as_str(),
                " (max 8)",
            ),
            CoapError::EmptyPayloadMarker => owned("CoAP payload marker must be followed by payload data"),
            CoapError::OptionNumberOverflow => owned("CoAP option number exceeds 16-bit range"),
            CoapError::InvalidOptionEncoding => owned("Malformed CoAP option delta/length"),
        }
    }
}

/// The 4-bit field and optional extension octet that encode an option delta or length:
/// values below 13 in the nibble itself, values below 269 as 13 plus one octet, larger ones
/// as nibble 14 followed by the single octet 255.
pub open spec fn nibble_encode(val: int) -> (u8, Option<u8>) {
    if val < 13 {
        (val as u8, None)
    } else if val < 269 {
        (13u8, Some((val - 13) as u8))
    } else {
        (14u8, Some(255u8))
    }
}

/// Decoding of a 4-bit delta/length field whose extension octets start `rest`: the value and
/// what follows the extension.
pub open spec fn nibble_decode(nibble: u8, rest: Seq<u8>) -> Result<(int, Seq<u8>), CoapError> {
    if nibble <= 12 {
        Ok((nibble as int, rest))
    } else if nibble == 13 {
        if rest.len() < 1 {
            Err(CoapError::InvalidOptionEncoding)
        } else {
            Ok((rest[0] + 13, rest.skip(1)))
        }
    } else if nibble == 14 {
        if rest.len() < 2 {
            Err(CoapError::InvalidOptionEncoding)
        } else {
            Ok((be16_at(rest, 0) + 269, rest.skip(2)))
        }
    } else {
        Err(CoapError::InvalidOptionEncoding)
    }
}

pub open spec fn opt_octet(x: Option<u8>) -> Seq<u8> {
    match x {
        Some(b) => seq![b],
        None => Seq::empty(),
    }
}

/// The encoding of one option whose number follows `last`; a number below `last` is written
/// with delta 0.
pub open spec fn option_bytes(o: OptModel, last: u16) -> Seq<u8> {
    let delta: int = if o.number >= last {
        o.number - last
    } else {
        0
    };
    let (dn, dx) = nibble_encode(delta);
    let (ln, lx) = nibble_encode(o.value.len() as int);
    seq![((dn << 4u8) | ln) as u8] + opt_octet(dx) + opt_octet(lx) + o.value
}

/// The encoding of `opts`, each number written as its delta from the previous one (`last`
/// for the first).
pub open spec fn options_bytes(opts: Seq<OptModel>, last: u16) -> Seq<u8>
    decreases opts.len(),
{
    if opts.len() == 0 {
        Seq::empty()
    } else {
        option_bytes(opts[0], last) + options_bytes(opts.skip(1), opts[0].number)
    }
}

/// The serialized packet.
pub open spec fn coap_bytes(p: CoapModel) -> Seq<u8> {
    let b0 = ((p.version << 6u8) | ((p.msg_type & 3u8) << 4u8) | ((p.token.len() % 16) as u8)) as u8;
    seq![b0, p.code] + u16_bytes(p.message_id) + p.token + options_bytes(p.options, 0) + if p.payload.len()
        == 0 {
        Seq::empty()
    } else {
        seq![COAP_PAYLOAD_MARKER] + p.payload
    }
}

/// Decoding of the options in `rest` (numbers continuing from `cur`): the options and the
/// payload octets after them.
pub open spec fn options_parse(rest: Seq<u8>, cur: u16) -> Result<(Seq<OptModel>, Seq<u8>), CoapError>
    decreases rest.len(),
{
    if rest.len() == 0 {
        Ok((Seq::empty(), rest))
    } else if rest[0] == COAP_PAYLOAD_MARKER {
        if rest.len() < 2 {
            Err(CoapError::EmptyPayloadMarker)
        } else {
            Ok((Seq::empty(), rest.skip(1)))
        }
    } else {
        let h = rest[0];
        match nibble_decode(h >> 4u8, rest.skip(1)) {
            Err(e) => Err(e),
            Ok((delta, r1)) => match nibble_decode(h & 0x0Fu8, r1) {
                Err(e) => Err(e),
                Ok((len, r2)) => if len > r2.len() {
                    Err(CoapError::InvalidOptionEncoding)
                } else if delta > 0xFFFF || cur + delta > 0xFFFF {
                    Err(CoapError::OptionNumberOverflow)
                } else if r2.len() >= rest.len() {
                    Err(CoapError::InvalidOptionEncoding)
                } else {
                    match options_parse(r2.skip(len), (cur + delta) as u16) {
                        Err(e) => Err(e),
                        Ok((opts, payload)) => Ok(
                            (
                                seq![OptModel { number: (cur + delta) as u16, value: r2.take(len) }]
                                    + opts,
                                payload,
                            ),
                        ),
                    }
                },
            },
        }
    }
}

/// Decoding of a packet.
pub open spec fn coap_parse(s: Seq<u8>) -> Result<CoapModel, CoapError> {
    if s.len() < 4 {
        Err(CoapError::PacketTooShort(s.len() as usize))
    } else if s[0] >> 6u8 != 1 {
        Err(CoapError::InvalidVersion(s[0] >> 6u8))
    } else if s[0] & 0x0Fu8 > 8 {
        Err(CoapError::InvalidTokenLength(s[0] & 0x0Fu8))
    } else {
        let tkl = (s[0] & 0x0Fu8) as int;
        if s.len() < 4 + tkl {
            Err(CoapError::PacketTooShort(s.len() as usize))
        } else {
            match options_parse(s.skip(4 + tkl), 0) {
                Err(e) => Err(e),
                Ok((options, payload)) => Ok(
                    CoapModel {
                        version: s[0] >> 6u8,
                        msg_type: (s[0] >> 4u8) & 3u8,
                        code: s[1],
                        message_id: be16_at(s, 2) as u16,
                        token: s.subrange(4, 4 + tkl),
                        options,
                        payload,
                    },
                ),
            }
        }
    }
}


/// An option the encoder writes faithfully after `last`: its number does not go down and
/// its delta and length fit the one-octet extension.
pub open spec fn option_encodable(o: OptModel, last: u16) -> bool {
    o.number >= last && o.number - last < 269 && o.value.len() < 269
}

pub open spec fn options_encodable(opts: Seq<OptModel>, last: u16) -> bool
    decreases opts.len(),
{
    opts.len() == 0 || (option_encodable(opts[0], last) && options_encodable(
        opts.skip(1),
        opts[0].number,
    ))
}

proof fn lemma_nibble_roundtrip(v: int, rest: Seq<u8>)
    requires
        0 <= v < 269,
    ensures
        nibble_encode(v).0 <= 13,
        nibble_decode(nibble_encode(v).0, opt_octet(nibble_encode(v).1) + rest) == Ok::<(int, Seq<u8>), CoapError>((v, rest)),
{
    if v < 13 {
        assert(opt_octet(nibble_encode(v).1) + rest =~= rest);
    } else {
        assert((opt_octet(nibble_encode(v).1) + rest).skip(1) =~= rest);
    }
}

proof fn lemma_header_nibbles(a: u8, b: u8)
    requires
        a <= 13,
        b <= 13,
    ensures
        (((a << 4u8) | b) as u8) >> 4u8 == a,
        (((a << 4u8) | b) as u8) & 0x0Fu8 == b,
        ((a << 4u8) | b) as u8 != 0xFFu8,
{
    assert((((a << 4u8) | b) as u8) >> 4u8 == a && (((a << 4u8) | b) as u8) & 0x0Fu8 == b && ((a
        << 4u8) | b) as u8 != 0xFFu8) by (bit_vector)
        requires
            a <= 13,
            b <= 13,
    ;
}

#[verifier::rlimit(100)]
proof fn lemma_options_roundtrip(opts: Seq<OptModel>, last: u16, tail: Seq<u8>)
    requires
        options_encodable(opts, last),
        tail.len() == 0 || (tail[0] == COAP_PAYLOAD_MARKER && tail.len() >= 2),
    ensures
        options_parse(options_bytes(opts, last) + tail, last) == Ok::<(Seq<OptModel>, Seq<u8>), CoapError>(
            (opts, if tail.len() == 0 {
                tail
            } else {
                tail.skip(1)
            }),
        ),
    decreases opts.len(),
{
    if opts.len() == 0 {
        assert(options_bytes(opts, last) + tail =~= tail);
        assert(opts =~= Seq::<OptModel>::empty());
    } else {
        let o = opts[0];
        let delta = o.number - last;
        let (dn, dx) = nibble_encode(delta);
        let (ln, lx) = nibble_encode(o.value.len() as int);
        let later = options_bytes(opts.skip(1), o.number) + tail;
        lemma_options_roundtrip(opts.skip(1), o.number, tail);
        let r2 = o.value + later;
        let r1 = opt_octet(lx) + r2;
        lemma_nibble_roundtrip(delta, r1);
        lemma_nibble_roundtrip(o.value.len() as int, o.value + later);
        let h = ((dn << 4u8) | ln) as u8;
        lemma_header_nibbles(dn, ln);
        let all = options_bytes(opts, last) + tail;
        assert(all =~= seq![h] + (opt_octet(dx) + r1));
        assert(all[0] == h);
        assert(all.skip(1) =~= opt_octet(dx) + r1);
        assert(r2.take(o.value.len() as int) =~= o.value);
        assert(r2.skip(o.value.len() as int) =~= later);
        assert(nibble_decode(h >> 4u8, all.skip(1)) == Ok::<(int, Seq<u8>), CoapError>((delta, r1)));
        assert(nibble_decode(h & 0x0Fu8, r1) == Ok::<(int, Seq<u8>), CoapError>((o.value.len() as int, r2)));
        assert(r2.len() < all.len());
        assert(last + delta == o.number);
        let rest_opts = options_parse(later, o.number).unwrap().0;
        assert(rest_opts == opts.skip(1));
        assert(seq![o] + rest_opts =~= opts);
        assert(all[0] != COAP_PAYLOAD_MARKER);
        assert(all.len() != 0);
    }
}

/// Law: a version-1 packet whose type fits two bits, whose token has at most eight octets and
/// whose options come in nondecreasing order with deltas and lengths below 269 decodes from
/// its own serialization to itself.
pub proof fn lemma_coap_roundtrip(p: CoapModel)
    requires
        p.version == 1,
        p.msg_type < 4,
        p.token.len() <= 8,
        options_encodable(p.options, 0),
    ensures
        coap_parse(coap_bytes(p)) == Ok::<CoapModel, CoapError>(p),
{
    let s = coap_bytes(p);
    let k = (p.token.len() % 16) as u8;
    let t = p.msg_type;
    assert(k == p.token.len());
    assert(((1u8 << 6u8) | ((t & 3u8) << 4u8) | k) as u8 >> 6u8 == 1u8 && ((1u8 << 6u8) | ((t & 3u8)
        << 4u8) | k) as u8 & 0x0Fu8 == k && ((((1u8 << 6u8) | ((t & 3u8) << 4u8) | k) as u8 >> 4u8)
        & 3u8) == t) by (bit_vector)
        requires
            t < 4,
            k <= 8,
    ;
    let tail = if p.payload.len() == 0 {
        Seq::<u8>::empty()
    } else {
        seq![COAP_PAYLOAD_MARKER] + p.payload
    };
    lemma_options_roundtrip(p.options, 0, tail);
    lemma_u16_roundtrip(p.message_id);
    let tk = p.token.len() as int;
    assert(s.skip(4 + tk) =~= options_bytes(p.options, 0) + tail);
    assert(s.subrange(4, 4 + tk) =~= p.token);
    assert(s[2] == u16_bytes(p.message_id)[0] && s[3] == u16_bytes(p.message_id)[1]);
    if p.payload.len() == 0 {
        assert(tail =~= p.payload);
    } else {
        assert(tail.skip(1) =~= p.payload);
    }
}

fn encode_nibble(val: usize) -> (r: (u8, Option<u8>))
    ensures
        r == nibble_encode(val as int),
{
    if val < 13 {
        (val as u8, None)
    } else if val < 269 {
        (13, Some((val - 13) as u8))
    } else {
        (14, Some(255))
    }
}

fn decode_nibble(nibble: u8, data: &[u8], offset: usize) -> (r: Result<(usize, usize), CoapError>)
    requires
        offset <= data@.len(),
    ensures
        match r {
            Ok((v, o)) => o <= data@.len() && nibble_decode(nibble, data@.skip(offset as int)) == Ok::<(int, Seq<u8>), CoapError>((v as int, data@.skip(o as int))),
            Err(e) => nibble_decode(nibble, data@.skip(offset as int)) == Err::<(int, Seq<u8>), CoapError>(e),
        },
{
    let ghost rest = data@.skip(offset as int);
    if nibble <= 12 {
        Ok((nibble as usize, offset))
    } else if nibble == 13 {
        if offset >= data.len() {
            return Err(CoapError::InvalidOptionEncoding);
        }
        let val = data[offset] as usize + 13;
        assert(rest.skip(1) =~= data@.skip(offset + 1));
        Ok((val, offset + 1))
    } else if nibble == 14 {
        if data.len() - offset < 2 {
            return Err(CoapError::InvalidOptionEncoding);
        }
        let val = read_u16(data, offset) as usize + 269;
        assert(rest.skip(2) =~= data@.skip(offset + 2));
        assert(be16_at(rest, 0) == be16_at(data@, offset as int));
        Ok((val, offset + 2))
    } else {
        Err(CoapError::InvalidOptionEncoding)
    }
}

fn push_option(buf: &mut Vec<u8>, opt: &CoapOption, last: u16)
    ensures
        final(buf)@ == old(buf)@ + option_bytes(opt@, last),
{
    let delta: u16 = if opt.number >= last {
        opt.number - last
    } else {
        0
    };
    let (d_nibble, d_ext) = encode_nibble(delta as usize);
    let (l_nibble, l_ext) = encode_nibble(opt.value.len());
    let ghost before = buf@;
    buf.push((d_nibble << 4) | l_nibble);
    match d_ext {
        Some(ext) => buf.push(ext),
        None => {},
    }
    match l_ext {
        Some(ext) => buf.push(ext),
        None => {},
    }
    push_all(buf, opt.value.as_slice());
    assert(buf@ =~= before + option_bytes(opt@, last));
}

impl CoapOption {
    fn copy(&self) -> (r: Self)
        ensures
            r@ == self@,
    {
        CoapOption { number: self.number, value: to_vec(self.value.as_slice()) }
    }
}

impl CoapPacket {
    /// A confirmable GET with the path as its single Uri-Path option.
    pub fn build_get(message_id: u16, path: &str, token: &[u8]) -> (r: Self)
        ensures
            r@ == (CoapModel {
                version: 1,
                msg_type: COAP_TYPE_CON,
                code: COAP_CODE_GET,
                message_id,
                token: token@,
                options: seq![OptModel { number: COAP_OPT_URI_PATH, value: path.spec_bytes() }],
                payload: Seq::empty(),
            }),
    {
        let mut options: Vec<CoapOption> = Vec::new();
        options.push(CoapOption { number: COAP_OPT_URI_PATH, value: to_vec(path.as_bytes()) });
        let r = CoapPacket {
            version: 1,
            msg_type: COAP_TYPE_CON,
            code: COAP_CODE_GET,
            message_id,
            token: to_vec(token),
            options,
            payload: Vec::new(),
        };
        assert(r@.options =~= seq![OptModel { number: COAP_OPT_URI_PATH, value: path.spec_bytes() }]);
        r
    }

    /// An acknowledgement carrying `payload` as text/plain, echoing the request's message ID
    /// and token.
    pub fn build_response(req: &CoapPacket, code: u8, payload: &[u8]) -> (r: Self)
        ensures
            r@ == (CoapModel {
                version: 1,
                msg_type: COAP_TYPE_ACK,
                code,
                message_id: req.message_id,
                token: req.token@,
                options: seq![OptModel { number: COAP_OPT_CONTENT_FORMAT, value: seq![0u8] }],
                payload: payload@,
            }),
    {
        let mut options: Vec<CoapOption> = Vec::new();
        let mut v: Vec<u8> = Vec::new();
        v.push(0);
        options.push(CoapOption { number: COAP_OPT_CONTENT_FORMAT, value: v });
        let r = CoapPacket {
            version: 1,
            msg_type: COAP_TYPE_ACK,
            code,
            message_id: req.message_id,
            token: to_vec(req.token.as_slice()),
            options,
            payload: to_vec(payload),
        };
        assert(r@.options =~= seq![OptModel { number: COAP_OPT_CONTENT_FORMAT, value: seq![0u8] }]);
        r
    }

    pub fn serialize(&self) -> (r: Vec<u8>)
        ensures
            r@ == coap_bytes(self@),
    {
        let mut buf: Vec<u8> = Vec::new();
        let tkl = (self.token.len() % 16) as u8;
        let b0 = (self.version << 6) | ((self.msg_type & 0x03) << 4) | tkl;
        buf.push(b0);
        buf.push(self.code);
        push_u16(&mut buf, self.message_id);
        push_all(&mut buf, self.token.as_slice());
        let ghost head = buf@;
        let ghost written = Seq::<u8>::empty();
        let mut last_opt_num: u16 = 0;
        let mut i: usize = 0;
        assert(self@.options.skip(0) =~= self@.options);
        assert(written + options_bytes(self@.options, 0) =~= options_bytes(self@.options, 0));
        assert(buf@ =~= head + written);
        while i < self.options.len()
            invariant
                i <= self.options@.len(),
                buf@ == head + written,
                written + options_bytes(self@.options.skip(i as int), last_opt_num) == options_bytes(
                    self@.options,
                    0,
                ),
            decreases self.options@.len() - i,
        {
            let opt = &self.options[i];
            proof {
                let os = self@.options.skip(i as int);
                assert(os[0] == opt@);
                assert(os.skip(1) =~= self@.options.skip(i + 1));
                assert(options_bytes(os, last_opt_num) == option_bytes(opt@, last_opt_num)
                    + options_bytes(self@.options.skip(i + 1), opt.number));
                assert(written + option_bytes(opt@, last_opt_num) + options_bytes(
                    self@.options.skip(i + 1),
                    opt.number,
                ) =~= written + options_bytes(os, last_opt_num));
                written = written + option_bytes(opt@, last_opt_num);
            }
            push_option(&mut buf, opt, last_opt_num);
            last_opt_num = opt.number;
            i = i + 1;
        }
        proof {
            assert(self@.options.skip(i as int) =~= Seq::<OptModel>::empty());
            assert(written + Seq::<u8>::empty() =~= written);
        }
        if self.payload.len() > 0 {
            buf.push(COAP_PAYLOAD_MARKER);
            push_all(&mut buf, self.payload.as_slice());
        }
        assert(buf@ =~= coap_bytes(self@));
        buf
    }

    pub fn parse(data: &[u8]) -> (r: Result<Self, CoapError>)
        ensures
            match r {
                Ok(p) => coap_parse(data@) == Ok::<CoapModel, CoapError>(p@),
                Err(e) => coap_parse(data@) == Err::<CoapModel, CoapError>(e),
            },
    {
        if data.len() < COAP_HEADER_LEN {
            return Err(CoapError::PacketTooShort(data.len()));
        }
        let version = data[0] >> 6;
        if version != 1 {
            return Err(CoapError::InvalidVersion(version));
        }
        let msg_type = (data[0] >> 4) & 0x03;
        let tkl_byte = data[0] & 0x0F;
        if tkl_byte > 8 {
            return Err(CoapError::InvalidTokenLength(tkl_byte));
        }
        let tkl = tkl_byte as usize;
        let code = data[1];
        let message_id = read_u16(data, 2);
        let mut offset: usize = COAP_HEADER_LEN;
        if data.len() < offset + tkl {
            return Err(CoapError::PacketTooShort(data.len()));
        }
        let token = copy_range(data, offset, offset + tkl);
        offset = offset + tkl;
        let mut options: Vec<CoapOption> = Vec::new();
        let mut current_opt_num: u16 = 0;
        let ghost start = offset;
        let ghost whole = options_parse(data@.skip(start as int), 0);
        while offset < data.len()
            invariant_except_break
                start <= offset <= data@.len(),
                whole == options_parse(data@.skip(start as int), 0),
                data@.len() >= 4,
                start == 4 + (data@[0] & 0x0Fu8),
                coap_parse(data@) == match whole {
                    Err(e) => Err::<CoapModel, CoapError>(e),
                    Ok((options, payload)) => Ok(CoapModel {
                        version: data@[0] >> 6u8,
                        msg_type: (data@[0] >> 4u8) & 3u8,
                        code: data@[1],
                        message_id: be16_at(data@, 2) as u16,
                        token: data@.subrange(4, start as int),
                        options,
                        payload,
                    }),
                },
                whole == match options_parse(data@.skip(offset as int), current_opt_num) {
                    Ok((rest, payload)) => Ok((opt_models(options@) + rest, payload)),
                    Err(e) => Err::<(Seq<OptModel>, Seq<u8>), CoapError>(e),
                },
            ensures
                start <= offset <= data@.len(),
                data@.len() >= 4,
                start == 4 + (data@[0] & 0x0Fu8),
                coap_parse(data@) == match whole {
                    Err(e) => Err::<CoapModel, CoapError>(e),
                    Ok((options, payload)) => Ok(CoapModel {
                        version: data@[0] >> 6u8,
                        msg_type: (data@[0] >> 4u8) & 3u8,
                        code: data@[1],
                        message_id: be16_at(data@, 2) as u16,
                        token: data@.subrange(4, start as int),
                        options,
                        payload,
                    }),
                },
                whole == Ok::<(Seq<OptModel>, Seq<u8>), CoapError>((opt_models(options@), data@.skip(offset as int))),
            decreases data@.len() - offset,
        {
            let ghost rest = data@.skip(offset as int);
            if data[offset] == COAP_PAYLOAD_MARKER {
                if offset + 1 >= data.len() {
                    assert(options_parse(rest, current_opt_num) == Err::<(Seq<OptModel>, Seq<u8>), CoapError>(CoapError::EmptyPayloadMarker));
                    return Err(CoapError::EmptyPayloadMarker);
                }
                offset = offset + 1;
                assert(rest.skip(1) =~= data@.skip(offset as int));
                assert(opt_models(options@) + Seq::<OptModel>::empty() =~= opt_models(options@));
                break;
            }
            let opt_header = data[offset];
            offset = offset + 1;
            assert(rest.skip(1) =~= data@.skip(offset as int));
            let (delta, new_off) = match decode_nibble(opt_header >> 4, data, offset) {
                Ok(x) => x,
                Err(e) => {
                    assert(options_parse(rest, current_opt_num) == Err::<(Seq<OptModel>, Seq<u8>), CoapError>(e));
                    return Err(e);
                },
            };
            offset = new_off;
            let (len, new_off2) = match decode_nibble(opt_header & 0x0F, data, offset) {
                Ok(x) => x,
                Err(e) => {
                    assert(options_parse(rest, current_opt_num) == Err::<(Seq<OptModel>, Seq<u8>), CoapError>(e));
                    return Err(e);
                },
            };
            offset = new_off2;
            if len > data.len() - offset {
                assert(options_parse(rest, current_opt_num) == Err::<(Seq<OptModel>, Seq<u8>), CoapError>(CoapError::InvalidOptionEncoding));
                return Err(CoapError::InvalidOptionEncoding);
            }
            if delta > 0xFFFF {
                assert(options_parse(rest, current_opt_num) == Err::<(Seq<OptModel>, Seq<u8>), CoapError>(CoapError::OptionNumberOverflow));
                return Err(CoapError::OptionNumberOverflow);
            }
            let delta16 = delta as u16;
            if current_opt_num as u32 + delta16 as u32 > 0xFFFF {
                assert(options_parse(rest, current_opt_num) == Err::<(Seq<OptModel>, Seq<u8>), CoapError>(CoapError::OptionNumberOverflow));
                return Err(CoapError::OptionNumberOverflow);
            }
            current_opt_num = current_opt_num + delta16;
            let value = copy_range(data, offset, offset + len);
            let ghost r2 = data@.skip(offset as int);
            offset = offset + len;
            proof {
                assert(r2.skip(len as int) =~= data@.skip(offset as int));
                assert(r2.take(len as int) =~= value@);
                assert(r2.len() < rest.len());
                let opt = CoapOption { number: current_opt_num, value };
                let tailr = options_parse(data@.skip(offset as int), current_opt_num);
                assert(opt_models(options@.push(opt)) =~= opt_models(options@) + seq![opt@]);
                if tailr is Ok {
                    assert(opt_models(options@) + (seq![opt@] + tailr.unwrap().0) =~= opt_models(
                        options@.push(opt),
                    ) + tailr.unwrap().0);
                }
            }
            options.push(CoapOption { number: current_opt_num, value });
        }
        let payload = copy_range(data, offset, data.len());
        assert(payload@ =~= data@.skip(offset as int));
        assert(token@ =~= data@.subrange(4, 4 + tkl));
        Ok(
            CoapPacket {
                version,
                msg_type,
                code,
                message_id,
                token,
                options,
                payload,
            },
        )
    }
}

} // verus!
