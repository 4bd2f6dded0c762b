//! A websocket base frame (RFC 6455, section 5.2) and its codec.

use vstd::prelude::*;
use bytes::BytesMut;
use crate::buffer::{
    bytes_of, byte_at, bytes_len, split_bytes_to, new_bytes, bytes_into_vec, bytes_from_slice,
    extend_bytes,
};

verus! {

/// Operation codes defined in RFC 6455, section 5.2.
#[derive(Debug, PartialEq, Eq, Structural, Clone, Copy)]
pub enum OpCode {
    /// A continuation frame of a fragmented message.
    Continue,
    /// A text data frame.
    Text,
    /// A binary data frame.
    Binary,
    /// A close control frame.
    Close,
    /// A ping control frame.
    Ping,
    /// A pong control frame.
    Pong,
    /// A reserved op code.
    Reserved3,
    /// A reserved op code.
    Reserved4,
    /// A reserved op code.
    Reserved5,
    /// A reserved op code.
    Reserved6,
    /// A reserved op code.
    Reserved7,
    /// A reserved op code.
    Reserved11,
    /// A reserved op code.
    Reserved12,
    /// A reserved op code.
    Reserved13,
    /// A reserved op code.
    Reserved14,
    /// A reserved op code.
    Reserved15,
}

/// The number that stands for an opcode on the wire.
pub open spec fn opcode_number(op: OpCode) -> u8 {
    match op {
        OpCode::Continue => 0,
        OpCode::Text => 1,
        OpCode::Binary => 2,
        OpCode::Close => 8,
        OpCode::Ping => 9,
        OpCode::Pong => 10,
        OpCode::Reserved3 => 3,
        OpCode::Reserved4 => 4,
        OpCode::Reserved5 => 5,
        OpCode::Reserved6 => 6,
        OpCode::Reserved7 => 7,
        OpCode::Reserved11 => 11,
        OpCode::Reserved12 => 12,
        OpCode::Reserved13 => 13,
        OpCode::Reserved14 => 14,
        OpCode::Reserved15 => 15,
    }
}

/// The opcode a wire number stands for, if it is one of the sixteen.
pub open spec fn opcode_of_number(n: u8) -> Option<OpCode> {
    if n == 0 { Some(OpCode::Continue) }
    else if n == 1 { Some(OpCode::Text) }
    else if n == 2 { Some(OpCode::Binary) }
    else if n == 3 { Some(OpCode::Reserved3) }
    else if n == 4 { Some(OpCode::Reserved4) }
    else if n == 5 { Some(OpCode::Reserved5) }
    else if n == 6 { Some(OpCode::Reserved6) }
    else if n == 7 { Some(OpCode::Reserved7) }
    else if n == 8 { Some(OpCode::Close) }
    else if n == 9 { Some(OpCode::Ping) }
    else if n == 10 { Some(OpCode::Pong) }
    else if n == 11 { Some(OpCode::Reserved11) }
    else if n == 12 { Some(OpCode::Reserved12) }
    else if n == 13 { Some(OpCode::Reserved13) }
    else if n == 14 { Some(OpCode::Reserved14) }
    else if n == 15 { Some(OpCode::Reserved15) }
    else { None }
}

/// Close, Ping and Pong are the control opcodes.
pub open spec fn spec_is_control(op: OpCode) -> bool {
    op == OpCode::Close || op == OpCode::Ping || op == OpCode::Pong
}

/// The ten opcodes RFC 6455 leaves reserved.
pub open spec fn spec_is_reserved(op: OpCode) -> bool {
    match op {
        OpCode::Continue | OpCode::Text | OpCode::Binary | OpCode::Close | OpCode::Ping
        | OpCode::Pong => false,
        _ => true,
    }
}

impl OpCode {
    /// Is this a control opcode?
    pub fn is_control(self) -> (r: bool)
        ensures
            r == spec_is_control(self),
    {
        match self {
            OpCode::Close | OpCode::Ping | OpCode::Pong => true,
            _ => false,
        }
    }

    /// Is this opcode reserved?
    pub fn is_reserved(self) -> (r: bool)
        ensures
            r == spec_is_reserved(self),
    {
        match self {
            OpCode::Reserved3 | OpCode::Reserved4 | OpCode::Reserved5 | OpCode::Reserved6
            | OpCode::Reserved7 | OpCode::Reserved11 | OpCode::Reserved12 | OpCode::Reserved13
            | OpCode::Reserved14 | OpCode::Reserved15 => true,
            _ => false,
        }
    }
}

/// Error returned by `OpCode::try_from` if an unknown opcode number is encountered.
#[derive(Debug, PartialEq, Eq)]
pub struct UnknownOpCode(());

impl TryFrom<u8> for OpCode {
    type Error = UnknownOpCode;

    fn try_from(val: u8) -> (r: Result<OpCode, UnknownOpCode>) {
        match val {
            0 => Ok(OpCode::Continue),
            1 => Ok(OpCode::Text),
            2 => Ok(OpCode::Binary),
            3 => Ok(OpCode::Reserved3),
            4 => Ok(OpCode::Reserved4),
            5 => Ok(OpCode::Reserved5),
            6 => Ok(OpCode::Reserved6),
            7 => Ok(OpCode::Reserved7),
            8 => Ok(OpCode::Close),
            9 => Ok(OpCode::Ping),
            10 => Ok(OpCode::Pong),
            11 => Ok(OpCode::Reserved11),
            12 => Ok(OpCode::Reserved12),
            13 => Ok(OpCode::Reserved13),
            14 => Ok(OpCode::Reserved14),
            15 => Ok(OpCode::Reserved15),
            _ => Err(UnknownOpCode(())),
        }
    }
}

impl vstd::std_specs::convert::TryFromSpecImpl<u8> for OpCode {
    open spec fn obeys_try_from_spec() -> bool {
        true
    }

    open spec fn try_from_spec(v: u8) -> Result<OpCode, UnknownOpCode> {
        match opcode_of_number(v) {
            Some(op) => Ok(op),
            None => Err(unknown_opcode()),
        }
    }
}

/// The one value of `UnknownOpCode`.
pub closed spec fn unknown_opcode() -> UnknownOpCode {
    UnknownOpCode(())
}

impl From<OpCode> for u8 {
    fn from(opcode: OpCode) -> (r: u8) {
        match opcode {
            OpCode::Continue => 0,
            OpCode::Text => 1,
            OpCode::Binary => 2,
            OpCode::Close => 8,
            OpCode::Ping => 9,
            OpCode::Pong => 10,
            OpCode::Reserved3 => 3,
            OpCode::Reserved4 => 4,
            OpCode::Reserved5 => 5,
            OpCode::Reserved6 => 6,
            OpCode::Reserved7 => 7,
            OpCode::Reserved11 => 11,
            OpCode::Reserved12 => 12,
            OpCode::Reserved13 => 13,
            OpCode::Reserved14 => 14,
            OpCode::Reserved15 => 15,
        }
    }
}

impl vstd::std_specs::convert::FromSpecImpl<OpCode> for u8 {
    open spec fn obeys_from_spec() -> bool {
        true
    }

    open spec fn from_spec(v: OpCode) -> u8 {
        opcode_number(v)
    }
}

// Data ///////////////////////////////////////////////////////////////////////

/// Application data of a websocket frame.
#[derive(Debug)]
pub enum Data {
    /// Application data of type binary (opcode 2).
    Binary(BytesMut),
    /// Application data of type text (opcode 1).
    Text(BytesMut),
}

/// What a `Data` value is: whether it is text, and its bytes.
pub struct DataSpec {
    pub is_text: bool,
    pub bytes: Seq<u8>,
}

impl Data {
    /// The payload bytes.
    pub open spec fn bytes(&self) -> Seq<u8> {
        match self {
            Data::Binary(b) => bytes_of(*b),
            Data::Text(b) => bytes_of(*b),
        }
    }

    /// Is this text data (in the model)?
    pub open spec fn spec_is_text(&self) -> bool {
        self is Text
    }

    /// Consume the data and return its bytes.
    pub fn into_bytes(self) -> (r: BytesMut)
        ensures
            bytes_of(r) == self.bytes(),
    {
        match self {
            Data::Binary(bytes) => bytes,
            Data::Text(bytes) => bytes,
        }
    }

    /// Get a unique reference to the underlying bytes.
    pub fn bytes_mut(&mut self) -> (r: &mut BytesMut)
        ensures
            bytes_of(*r) == old(self).bytes(),
            final(self).spec_is_text() == old(self).spec_is_text(),
            final(self).bytes() == bytes_of(*final(r)),
    {
        match self {
            Data::Binary(bytes) => bytes,
            Data::Text(bytes) => bytes,
        }
    }

    /// Is this text data?
    pub fn is_text(&self) -> (r: bool)
        ensures
            r == self.spec_is_text(),
    {
        match self {
            Data::Text(_) => true,
            Data::Binary(_) => false,
        }
    }

    /// Is this binary data?
    pub fn is_binary(&self) -> (r: bool)
        ensures
            r == !self.spec_is_text(),
    {
        !self.is_text()
    }

    /// The payload bytes as a shared reference.
    pub fn as_ref(&self) -> (r: &BytesMut)
        ensures
            bytes_of(*r) == self.bytes(),
    {
        match self {
            Data::Binary(bytes) => bytes,
            Data::Text(bytes) => bytes,
        }
    }
}

// Frame //////////////////////////////////////////////////////////////////////

/// A websocket base frame (RFC 6455, section 5.2).
#[derive(Debug)]
pub struct Frame {
    /// The `fin` flag.
    fin: bool,
    /// The `rsv1` flag.
    rsv1: bool,
    /// The `rsv2` flag.
    rsv2: bool,
    /// The `rsv3` flag.
    rsv3: bool,
    /// The 'mask' flag.
    masked: bool,
    /// The `opcode`
    opcode: OpCode,
    /// The `mask`.
    mask: u32,
    /// The optional payload data.
    payload_data: Option<Data>,
}

/// The model of a base frame: its header fields and, if any, its payload
/// (whether it is text, and its bytes).
pub struct FrameSpec {
    pub fin: bool,
    pub rsv1: bool,
    pub rsv2: bool,
    pub rsv3: bool,
    pub masked: bool,
    pub opcode: OpCode,
    pub mask: u32,
    pub payload: Option<(bool, Seq<u8>)>,
}

/// The model of optional payload data.
pub open spec fn payload_view(d: Option<Data>) -> Option<(bool, Seq<u8>)> {
    match d {
        Some(d) => Some((d.spec_is_text(), d.bytes())),
        None => None,
    }
}

/// The number of payload bytes of a frame model (none counts as zero).
pub open spec fn payload_len(p: Option<(bool, Seq<u8>)>) -> nat {
    match p {
        Some((_, b)) => b.len(),
        None => 0,
    }
}

/// The payload bytes of a frame model (none counts as empty).
pub open spec fn payload_bytes(p: Option<(bool, Seq<u8>)>) -> Seq<u8> {
    match p {
        Some((_, b)) => b,
        None => Seq::empty(),
    }
}

impl View for Frame {
    type V = FrameSpec;

    closed spec fn view(&self) -> FrameSpec {
        FrameSpec {
            fin: self.fin,
            rsv1: self.rsv1,
            rsv2: self.rsv2,
            rsv3: self.rsv3,
            masked: self.masked,
            opcode: self.opcode,
            mask: self.mask,
            payload: payload_view(self.payload_data),
        }
    }
}

impl Frame {
    /// Create a new frame with a given opcode: `fin` set, all other flags
    /// clear, mask zero and no payload.
    pub fn new(oc: OpCode) -> (r: Self)
        ensures
            r@ == (FrameSpec {
                fin: true,
                rsv1: false,
                rsv2: false,
                rsv3: false,
                masked: false,
                opcode: oc,
                mask: 0,
                payload: None,
            }),
    {
        Frame {
            fin: true,
            rsv1: false,
            rsv2: false,
            rsv3: false,
            masked: false,
            opcode: oc,
            mask: 0,
            payload_data: None,
        }
    }

    /// Is the `fin` flag set?
    pub fn is_fin(&self) -> (r: bool)
        ensures
            r == self@.fin,
    {
        self.fin
    }

    /// Set the `fin` flag.
    pub fn set_fin(&mut self, fin: bool) -> (r: &mut Self)
        ensures
            r@ == (FrameSpec { fin, ..old(self)@ }),
            *final(self) == *final(r),
    {
        self.fin = fin;
        self
    }

    /// Is the `rsv1` flag set?
    pub fn is_rsv1(&self) -> (r: bool)
        ensures
            r == self@.rsv1,
    {
        self.rsv1
    }

    /// Set the `rsv1` flag.
    pub fn set_rsv1(&mut self, rsv1: bool) -> (r: &mut Self)
        ensures
            r@ == (FrameSpec { rsv1, ..old(self)@ }),
            *final(self) == *final(r),
    {
        self.rsv1 = rsv1;
        self
    }

    /// Is the `rsv2` flag set?
    pub fn is_rsv2(&self) -> (r: bool)
        ensures
            r == self@.rsv2,
    {
        self.rsv2
    }

    /// Set the `rsv2` flag.
    pub fn set_rsv2(&mut self, rsv2: bool) -> (r: &mut Self)
        ensures
            r@ == (FrameSpec { rsv2, ..old(self)@ }),
            *final(self) == *final(r),
    {
        self.rsv2 = rsv2;
        self
    }

    /// Is the `rsv3` flag set?
    pub fn is_rsv3(&self) -> (r: bool)
        ensures
            r == self@.rsv3,
    {
        self.rsv3
    }

    /// Set the `rsv3` flag.
    pub fn set_rsv3(&mut self, rsv3: bool) -> (r: &mut Self)
        ensures
            r@ == (FrameSpec { rsv3, ..old(self)@ }),
            *final(self) == *final(r),
    {
        self.rsv3 = rsv3;
        self
    }

    /// Is the `masked` flag set?
    pub fn is_masked(&self) -> (r: bool)
        ensures
            r == self@.masked,
    {
        self.masked
    }

    /// Set the `masked` flag.
    pub fn set_masked(&mut self, masked: bool) -> (r: &mut Self)
        ensures
            r@ == (FrameSpec { masked, ..old(self)@ }),
            *final(self) == *final(r),
    {
        self.masked = masked;
        self
    }

    /// Get the `opcode`.
    pub fn opcode(&self) -> (r: OpCode)
        ensures
            r == self@.opcode,
    {
        self.opcode
    }

    /// Set the `opcode`
    pub fn set_opcode(&mut self, opcode: OpCode) -> (r: &mut Self)
        ensures
            r@ == (FrameSpec { opcode, ..old(self)@ }),
            *final(self) == *final(r),
    {
        self.opcode = opcode;
        self
    }

    /// Get the `mask`.
    pub fn mask(&self) -> (r: u32)
        ensures
            r == self@.mask,
    {
        self.mask
    }

    /// Set the `mask`
    pub fn set_mask(&mut self, mask: u32) -> (r: &mut Self)
        ensures
            r@ == (FrameSpec { mask, ..old(self)@ }),
            *final(self) == *final(r),
    {
        self.mask = mask;
        self
    }

    /// Get a reference to the payload data.
    pub fn payload_data(&self) -> (r: Option<&Data>)
        ensures
            payload_view(match r { Some(d) => Some(*d), None => None }) == self@.payload,
    {
        self.payload_data.as_ref()
    }

    /// Consume frame and return payload data only.
    pub fn into_payload_data(self) -> (r: Option<Data>)
        ensures
            payload_view(r) == self@.payload,
    {
        self.payload_data
    }

    /// Set the payload data.
    pub fn set_payload_data(&mut self, data: Option<Data>) -> (r: &mut Self)
        ensures
            r@ == (FrameSpec { payload: payload_view(data), ..old(self)@ }),
            *final(self) == *final(r),
    {
        self.payload_data = data;
        self
    }
}

// Byte-level helpers ////////////////////////////////////////////////////////

/// The number that a big-endian byte sequence denotes.
pub open spec fn be_value(s: Seq<u8>) -> nat
    decreases s.len(),
{
    if s.len() == 0 {
        0
    } else {
        be_value(s.drop_last()) * 256 + s.last() as nat
    }
}

/// The `n` lowest bytes of `v`, most significant first.
pub open spec fn be_bytes(v: nat, n: nat) -> Seq<u8>
    decreases n,
{
    if n == 0 {
        Seq::empty()
    } else {
        be_bytes(v / 256, (n - 1) as nat).push((v % 256) as u8)
    }
}

/// `256` to the power `n`.
pub open spec fn pow256(n: nat) -> nat
    decreases n,
{
    if n == 0 {
        1
    } else {
        256 * pow256((n - 1) as nat)
    }
}

/// A big-endian byte sequence of length `n` denotes a number below `256^n`.
pub proof fn lemma_be_value_bound(s: Seq<u8>)
    ensures
        be_value(s) < pow256(s.len()),
    decreases s.len(),
{
    if s.len() > 0 {
        lemma_be_value_bound(s.drop_last());
        let a = be_value(s.drop_last());
        let p = pow256((s.len() - 1) as nat);
        assert(a * 256 + (s.last() as nat) < 256 * p) by (nonlinear_arith)
            requires
                a < p,
                s.last() < 256,
        ;
    }
}

/// Encoding a number into `n` big-endian bytes gives `n` bytes.
pub proof fn lemma_be_bytes_len(v: nat, n: nat)
    ensures
        be_bytes(v, n).len() == n,
    decreases n,
{
    if n > 0 {
        lemma_be_bytes_len(v / 256, (n - 1) as nat);
    }
}

/// Reading back `n` big-endian bytes of a number below `256^n` gives the number.
pub proof fn lemma_be_value_of_bytes(v: nat, n: nat)
    requires
        v < pow256(n),
    ensures
        be_value(be_bytes(v, n)) == v,
    decreases n,
{
    lemma_be_bytes_len(v, n);
    if n > 0 {
        let p = pow256((n - 1) as nat);
        assert(v / 256 < p) by (nonlinear_arith)
            requires
                v < 256 * p,
        ;
        lemma_be_value_of_bytes(v / 256, (n - 1) as nat);
        let s = be_bytes(v, n);
        assert(s.drop_last() == be_bytes(v / 256, (n - 1) as nat));
        assert(((v % 256) as u8) as nat == v % 256);
    }
}

/// Encoding what a byte sequence denotes, on as many bytes, gives the sequence.
pub proof fn lemma_be_bytes_of_value(s: Seq<u8>)
    ensures
        be_bytes(be_value(s), s.len()) == s,
    decreases s.len(),
{
    if s.len() > 0 {
        lemma_be_bytes_of_value(s.drop_last());
        let v = be_value(s);
        let a = be_value(s.drop_last());
        assert(v / 256 == a && v % 256 == s.last() as nat) by (nonlinear_arith)
            requires
                v == a * 256 + s.last() as nat,
                s.last() < 256,
        ;
        assert(be_bytes(v, s.len()) =~= s);
    }
}

/// Read `n` bytes of `b` from offset `at` as a big-endian number.
pub fn read_be(b: &BytesMut, at: usize, n: usize) -> (r: u64)
    requires
        n <= 8,
        at + n <= bytes_of(*b).len(),
    ensures
        r as nat == be_value(bytes_of(*b).subrange(at as int, at + n)),
{
    let len = bytes_len(b);
    let mut acc: u64 = 0;
    let mut i: usize = 0;
    while i < n
        invariant
            len == bytes_of(*b).len(),
            n <= 8,
            i <= n,
            at + n <= bytes_of(*b).len(),
            acc as nat == be_value(bytes_of(*b).subrange(at as int, at + i)),
        decreases n - i,
    {
        let ghost prev = bytes_of(*b).subrange(at as int, at + i);
        let ghost next = bytes_of(*b).subrange(at as int, at + i + 1);
        proof {
            assert(next.drop_last() =~= prev);
            lemma_be_value_bound(prev);
            lemma_pow256_le(i as nat, 7);
            lemma_pow256_values();
        }
        let x = byte_at(b, at + i);
        assert(acc * 256 + x < 0x10000000000000000nat) by (nonlinear_arith)
            requires
                acc < 0x100000000000000nat,
                x < 256,
        ;
        acc = acc * 256 + x as u64;
        i = i + 1;
    }
    acc
}

/// The powers of 256 that the codecs use.
pub proof fn lemma_pow256_values()
    ensures
        pow256(2) == 0x10000,
        pow256(4) == 0x100000000,
        pow256(7) == 0x100000000000000,
        pow256(8) == 0x10000000000000000,
{
    reveal_with_fuel(pow256, 9);
}

/// `pow256` grows with its argument.
pub proof fn lemma_pow256_le(a: nat, b: nat)
    requires
        a <= b,
    ensures
        pow256(a) <= pow256(b),
    decreases b,
{
    if a < b {
        lemma_pow256_le(a, (b - 1) as nat);
    }
}

/// The `n` lowest bytes of `v`, most significant first.
pub fn write_be(v: u64, n: usize) -> (r: Vec<u8>)
    ensures
        r@ == be_bytes(v as nat, n as nat),
    decreases n,
{
    if n == 0 {
        Vec::new()
    } else {
        let mut r = write_be(v / 256, n - 1);
        r.push((v % 256) as u8);
        r
    }
}

/// The masking key byte used at payload position `i`.
pub open spec fn mask_key_byte(mask: u32, i: int) -> u8 {
    be_bytes(mask as nat, 4)[i % 4]
}

/// A payload xor-ed with the masking key (RFC 6455, section 5.3).
pub open spec fn masked_bytes(s: Seq<u8>, mask: u32) -> Seq<u8> {
    Seq::new(s.len(), |i: int| s[i] ^ mask_key_byte(mask, i))
}

/// Masking twice with the same key gives back the payload.
pub proof fn lemma_mask_involution(s: Seq<u8>, mask: u32)
    ensures
        masked_bytes(masked_bytes(s, mask), mask) == s,
{
    assert forall|i: int| 0 <= i < s.len() implies #[trigger] masked_bytes(
        masked_bytes(s, mask),
        mask,
    )[i] == s[i] by {
        let x = s[i];
        let k = mask_key_byte(mask, i);
        assert((x ^ k) ^ k == x) by (bit_vector);
    }
    assert(masked_bytes(masked_bytes(s, mask), mask) =~= s);
}

/// Apply the (un)masking to the payload data.
pub fn apply_mask(buf: &mut Vec<u8>, mask: u32)
    ensures
        final(buf)@ == masked_bytes(old(buf)@, mask),
{
    let mask_buf = write_be(mask as u64, 4);
    proof {
        lemma_be_bytes_len(mask as nat, 4);
    }
    let n = buf.len();
    let mut i: usize = 0;
    while i < n
        invariant
            n == buf.len(),
            i <= n,
            mask_buf@ == be_bytes(mask as nat, 4),
            mask_buf@.len() == 4,
            forall|j: int| 0 <= j < i ==> buf@[j] == old(buf)@[j] ^ mask_key_byte(mask, j),
            forall|j: int| i <= j < n ==> buf@[j] == old(buf)@[j],
        decreases n - i,
    {
        let b = buf[i] ^ mask_buf[i % 4];
        buf.set(i, b);
        i = i + 1;
    }
    assert(buf@ =~= masked_bytes(old(buf)@, mask));
}

// Frame codec ////////////////////////////////////////////////////////////////

/// If the payload length byte is 126, the following two bytes represent the
/// actual payload length.
const TWO_EXT: u8 = 126;

/// If the payload length byte is 127, the following eight bytes represent
/// the actual payload length.
const EIGHT_EXT: u8 = 127;

/// The default maximum payload size of a frame: 256 MiB.
pub const DEFAULT_MAX_DATA_SIZE: u64 = 268435456;

/// Errors of the base frame codec.
#[derive(Debug, PartialEq, Eq)]
pub enum Error {
    /// Some unknown opcode number has been decoded.
    UnknownOpCode,
    /// The opcode decoded is reserved.
    ReservedOpCode,
    /// A fragmented control frame (fin bit not set) has been decoded.
    FragmentedControl,
    /// A control frame with an invalid length code has been decoded.
    InvalidControlFrameLen,
    /// The reserved bit is invalid.
    InvalidReservedBit(u8),
    /// The payload length of a frame exceeded the configured maximum.
    PayloadTooLarge { actual: u64, maximum: u64 },
    /// The codec transitions into an illegal state.
    /// This happens if the codec is used after it has returned an error.
    IllegalCodecState,
}

/// The configuration of a codec: the maximum payload size, the reserved
/// bits in use (bit 4 for rsv1, 2 for rsv2, 1 for rsv3) and the reserved
/// opcodes in use (bit `n` for opcode number `n`).
pub struct CodecConfig {
    pub max_data_size: u64,
    pub reserved_bits: u8,
    pub reserved_opcodes: u16,
}

/// Is the given reserved opcode configured?
pub open spec fn opcode_configured(c: CodecConfig, op: OpCode) -> bool {
    spec_is_reserved(op) && c.reserved_opcodes & (1u16 << opcode_number(op)) != 0
}

/// The first check made on the first header byte that fails, if any.
pub open spec fn first_byte_error(c: CodecConfig, b0: u8) -> Option<Error> {
    let fin = b0 & 0x80 != 0;
    let op = opcode_of_number(b0 & 0x0F).unwrap();
    if spec_is_reserved(op) && !opcode_configured(c, op) {
        Some(Error::ReservedOpCode)
    } else if spec_is_control(op) && !fin {
        Some(Error::FragmentedControl)
    } else if b0 & 0x40 != 0 && c.reserved_bits & 4 == 0 {
        Some(Error::InvalidReservedBit(1))
    } else if b0 & 0x20 != 0 && c.reserved_bits & 2 == 0 {
        Some(Error::InvalidReservedBit(2))
    } else if b0 & 0x10 != 0 && c.reserved_bits & 1 == 0 {
        Some(Error::InvalidReservedBit(3))
    } else {
        None
    }
}

/// The header fields that the first two bytes of a frame carry.
pub open spec fn header_frame(b0: u8, b1: u8) -> FrameSpec {
    FrameSpec {
        fin: b0 & 0x80 != 0,
        rsv1: b0 & 0x40 != 0,
        rsv2: b0 & 0x20 != 0,
        rsv3: b0 & 0x10 != 0,
        masked: b1 & 0x80 != 0,
        opcode: opcode_of_number(b0 & 0x0F).unwrap(),
        mask: 0,
        payload: None,
    }
}

/// The number of extended payload length bytes a length code announces.
pub open spec fn ext_len(code: u8) -> nat {
    if code == 126 {
        2
    } else if code == 127 {
        8
    } else {
        0
    }
}

/// The payload length given the length code and the extended length bytes.
pub open spec fn length_value(code: u8, ext: Seq<u8>) -> nat {
    if code == 126 || code == 127 {
        be_value(ext)
    } else {
        code as nat
    }
}

/// The check made on the payload length that fails, if any.
pub open spec fn length_error(c: CodecConfig, op: OpCode, len: nat) -> Option<Error> {
    if len > 125 && spec_is_control(op) {
        Some(Error::InvalidControlFrameLen)
    } else if len > c.max_data_size {
        Some(Error::PayloadTooLarge { actual: len as u64, maximum: c.max_data_size })
    } else {
        None
    }
}

/// The number of masking key bytes a second header byte announces.
pub open spec fn mask_len(b1: u8) -> nat {
    if b1 & 0x80 != 0 {
        4
    } else {
        0
    }
}

/// The payload a decoded frame carries: empty text or binary data for an
/// empty text or binary frame, none for another empty frame, else text data
/// for a text frame and binary data for all others, unmasked if masked.
pub open spec fn decoded_payload(op: OpCode, raw: Seq<u8>, masked: bool, mask: u32) -> Option<
    (bool, Seq<u8>),
> {
    if raw.len() == 0 {
        if op == OpCode::Binary {
            Some((false, Seq::empty()))
        } else if op == OpCode::Text {
            Some((true, Seq::empty()))
        } else {
            None
        }
    } else {
        Some((op == OpCode::Text, if masked { masked_bytes(raw, mask) } else { raw }))
    }
}

/// What decoding a byte sequence yields.
pub enum DecodeOutcome {
    /// More bytes are needed.
    NeedMore,
    /// The bytes do not start a valid frame.
    Failed(Error),
    /// A frame, and the number of bytes it takes.
    Decoded(FrameSpec, nat),
}

/// The length of the header up to the masking key: two bytes and the
/// extended payload length.
pub open spec fn length_end(s: Seq<u8>) -> nat {
    2 + ext_len(s[1] & 0x7F)
}

/// The payload length a header announces.
pub open spec fn announced_len(s: Seq<u8>) -> nat {
    length_value(s[1] & 0x7F, s.subrange(2, length_end(s) as int))
}

/// The length of the whole header, masking key included.
pub open spec fn header_end(s: Seq<u8>) -> nat {
    length_end(s) + mask_len(s[1])
}

/// The masking key a header carries (zero if the frame is not masked).
pub open spec fn header_mask(s: Seq<u8>) -> u32 {
    if s[1] & 0x80 != 0 {
        be_value(s.subrange(length_end(s) as int, header_end(s) as int)) as u32
    } else {
        0
    }
}

/// The frame whose header and payload start `s`, once all of it is there.
pub open spec fn decoded_frame(s: Seq<u8>) -> FrameSpec {
    let f = header_frame(s[0], s[1]);
    let m = header_end(s);
    FrameSpec {
        mask: header_mask(s),
        payload: decoded_payload(
            f.opcode,
            s.subrange(m as int, (m + announced_len(s)) as int),
            f.masked,
            header_mask(s),
        ),
        ..f
    }
}

/// Decoding once the payload length is known and has passed its checks.
pub open spec fn decode_payload(s: Seq<u8>) -> DecodeOutcome {
    let m = header_end(s);
    if s.len() < m {
        DecodeOutcome::NeedMore
    } else if s.len() < m + announced_len(s) {
        DecodeOutcome::NeedMore
    } else {
        DecodeOutcome::Decoded(decoded_frame(s), m + announced_len(s))
    }
}

/// Decoding once the first two bytes are there and have passed their checks;
/// the length checks are made unless `stage` says they have been made.
pub open spec fn decode_length_part(c: CodecConfig, s: Seq<u8>, stage: nat) -> DecodeOutcome {
    if s.len() < length_end(s) {
        DecodeOutcome::NeedMore
    } else if stage < 2 && length_error(
        c,
        header_frame(s[0], s[1]).opcode,
        announced_len(s),
    ) is Some {
        DecodeOutcome::Failed(
            length_error(c, header_frame(s[0], s[1]).opcode, announced_len(s)).unwrap(),
        )
    } else {
        decode_payload(s)
    }
}

/// Decoding a frame from the front of `s`, where `stage` says which checks
/// have been made already (and are not made again): none (0), those on the
/// first byte (1), or those on the payload length too (2).
pub open spec fn decode_from(c: CodecConfig, s: Seq<u8>, stage: nat) -> DecodeOutcome {
    if s.len() < 2 {
        DecodeOutcome::NeedMore
    } else if stage < 1 && first_byte_error(c, s[0]) is Some {
        DecodeOutcome::Failed(first_byte_error(c, s[0]).unwrap())
    } else {
        decode_length_part(c, s, stage)
    }
}

/// Decoding a frame from the front of `s` (RFC 6455, section 5.2).
pub open spec fn decode_spec(c: CodecConfig, s: Seq<u8>) -> DecodeOutcome {
    decode_from(c, s, 0)
}

/// Where decoding stands within a frame.
#[derive(Debug)]
enum DecodeState {
    /// Initial decoding state.
    Start,
    /// The first 2 bytes of a new frame have been decoded.
    /// Next is to decode the total frame length.
    FrameStart { frame: Frame, length_code: u8 },
    /// The frame length has been decoded.
    /// Next is to read the masking key if present.
    FrameLength { frame: Frame, length: u64 },
    /// The frame length and masking key have been decoded.
    /// As the final step, the payload data will be decoded.
    Body { frame: Frame, length: u64 },
}

/// Codec for encoding/decoding websocket base frames.
pub struct Codec {
    /// Decode state (`None` after an error).
    state: Option<DecodeState>,
    /// Maximum size of payload data per frame.
    max_data_size: u64,
    /// Bits reserved by an extension.
    reserved_bits: u8,
    /// OpCodes reserved by an extension.
    reserved_opcodes: u16,
    /// The bytes of the frame being decoded that have been consumed already.
    consumed: Ghost<Seq<u8>>,
}

impl View for Codec {
    type V = CodecConfig;

    closed spec fn view(&self) -> CodecConfig {
        CodecConfig {
            max_data_size: self.max_data_size,
            reserved_bits: self.reserved_bits,
            reserved_opcodes: self.reserved_opcodes,
        }
    }
}

impl Codec {
    /// The bytes of a partly decoded frame that have been taken from the
    /// buffers handed to `decode` already.
    pub closed spec fn pending(&self) -> Seq<u8> {
        self.consumed@
    }

    /// Has the codec returned an error?
    pub closed spec fn is_failed(&self) -> bool {
        self.state is None
    }

    /// Which checks have been made on the frame being decoded: none (0),
    /// those on the first byte (1), or those on the payload length too (2).
    pub closed spec fn stage(&self) -> nat {
        match self.state {
            Some(DecodeState::FrameStart { .. }) => 1,
            Some(DecodeState::FrameLength { .. }) => 2,
            Some(DecodeState::Body { .. }) => 2,
            _ => 0,
        }
    }

    /// The decode state agrees with the bytes consumed so far.
    pub closed spec fn wf(&self) -> bool {
        let p = self.consumed@;
        match self.state {
            None => true,
            Some(DecodeState::Start) => p.len() == 0,
            Some(DecodeState::FrameStart { frame, length_code }) => {
                &&& p.len() == 2
                &&& frame@ == header_frame(p[0], p[1])
                &&& length_code == p[1] & 0x7F
            },
            Some(DecodeState::FrameLength { frame, length }) => {
                &&& p.len() >= 2
                &&& p.len() == length_end(p)
                &&& frame@ == header_frame(p[0], p[1])
                &&& length == announced_len(p)
            },
            Some(DecodeState::Body { frame, length }) => {
                &&& p.len() >= 2
                &&& p.len() == header_end(p)
                &&& frame@ == (FrameSpec { mask: header_mask(p), ..header_frame(p[0], p[1]) })
                &&& length == announced_len(p)
            },
        }
    }

    /// Create a new base frame codec.
    ///
    /// The codec will support decoding payload lengths up to 256 MiB
    /// (use `set_max_data_size` to change this value).
    pub fn new() -> (r: Self)
        ensures
            r.wf(),
            !r.is_failed(),
            r.pending() == Seq::<u8>::empty(),
            r.stage() == 0,
            r@ == (CodecConfig {
                max_data_size: DEFAULT_MAX_DATA_SIZE,
                reserved_bits: 0,
                reserved_opcodes: 0,
            }),
            forall|op: OpCode| !opcode_configured(#[trigger] r@, op),
            allowed_rsv_bits(r@) == (false, false, false),
    {
        proof {
            assert forall|op: OpCode| !opcode_configured(
                CodecConfig { max_data_size: DEFAULT_MAX_DATA_SIZE, reserved_bits: 0, reserved_opcodes: 0 },
                op,
            ) by {
                lemma_opcode_number_small(op);
                lemma_opcode_bit(0, 0, opcode_number(op));
            }
            assert((0u8 & 4) == 0 && (0u8 & 2) == 0 && (0u8 & 1) == 0) by (bit_vector);
        }
        Codec {
            state: Some(DecodeState::Start),
            max_data_size: DEFAULT_MAX_DATA_SIZE,
            reserved_bits: 0,
            reserved_opcodes: 0,
            consumed: Ghost(Seq::empty()),
        }
    }
}

/// The model of what `decode` returns.
pub open spec fn decode_result_view(r: Result<Option<Frame>, Error>) -> Result<
    Option<FrameSpec>,
    Error,
> {
    match r {
        Ok(Some(f)) => Ok(Some(f@)),
        Ok(None) => Ok(None),
        Err(e) => Err(e),
    }
}

/// What one call of `decode` does: `failed` tells whether the codec had
/// failed before the call, `pending` is what it had consumed of the current
/// frame before the call and `stage` which checks it had made on it,
/// `input` is the buffer handed in; `r` is the result, `failed_after`,
/// `pending_after` and `rest` the codec's and the buffer's state after the
/// call.
pub open spec fn decode_post(
    c: CodecConfig,
    failed: bool,
    pending: Seq<u8>,
    stage: nat,
    input: Seq<u8>,
    r: Result<Option<FrameSpec>, Error>,
    failed_after: bool,
    pending_after: Seq<u8>,
    rest: Seq<u8>,
) -> bool {
    if failed {
        &&& r == Err::<Option<FrameSpec>, Error>(Error::IllegalCodecState)
        &&& failed_after
        &&& rest == input
    } else {
        let all = pending + input;
        match decode_from(c, all, stage) {
            DecodeOutcome::NeedMore => {
                &&& r == Ok::<Option<FrameSpec>, Error>(None)
                &&& !failed_after
                &&& pending_after + rest == all
            },
            DecodeOutcome::Failed(e) => {
                &&& r == Err::<Option<FrameSpec>, Error>(e)
                &&& failed_after
            },
            DecodeOutcome::Decoded(f, n) => {
                &&& r == Ok::<Option<FrameSpec>, Error>(Some(f))
                &&& !failed_after
                &&& pending_after == Seq::<u8>::empty()
                &&& rest == all.skip(n as int)
            },
        }
    }
}

spec fn state_rank(st: Option<DecodeState>) -> nat {
    match st {
        Some(DecodeState::Start) => 4,
        Some(DecodeState::FrameStart { .. }) => 3,
        Some(DecodeState::FrameLength { .. }) => 2,
        Some(DecodeState::Body { .. }) => 1,
        None => 0,
    }
}

proof fn lemma_first_byte_fields(b0: u8)
    ensures
        (b0 & 0x0F) < 16,
        opcode_of_number(b0 & 0x0F) is Some,
{
    assert((b0 & 0x0F) < 16) by (bit_vector);
}

/// The header of a frame reads the same from any sequence that starts with it.
pub proof fn lemma_prefix_header(p: Seq<u8>, s: Seq<u8>)
    requires
        p.len() >= 2,
        s.len() >= p.len(),
        p == s.take(p.len() as int),
    ensures
        p[0] == s[0],
        p[1] == s[1],
        length_end(p) == length_end(s),
        header_end(p) == header_end(s),
        p.len() >= length_end(p) ==> announced_len(p) == announced_len(s),
        p.len() >= header_end(p) ==> header_mask(p) == header_mask(s),
{
    assert(p[0] == s[0] && p[1] == s[1]);
    if p.len() >= length_end(p) {
        assert(p.subrange(2, length_end(p) as int) =~= s.subrange(2, length_end(s) as int));
    }
    if p.len() >= header_end(p) {
        assert(p.subrange(length_end(p) as int, header_end(p) as int) =~= s.subrange(
            length_end(s) as int,
            header_end(s) as int,
        ));
    }
}

/// Once the first byte has passed its checks, making them again changes nothing.
proof fn lemma_first_checked(c: CodecConfig, s: Seq<u8>)
    requires
        s.len() >= 2,
        first_byte_error(c, s[0]) is None,
    ensures
        decode_from(c, s, 0) == decode_from(c, s, 1),
{
}

/// Once the payload length has passed its checks, making them again changes nothing.
proof fn lemma_length_checked(c: CodecConfig, s: Seq<u8>)
    requires
        s.len() >= length_end(s),
        s.len() >= 2,
        length_error(c, header_frame(s[0], s[1]).opcode, announced_len(s)) is None,
    ensures
        decode_from(c, s, 1) == decode_from(c, s, 2),
{
}

impl Codec {
    /// The codec is part way through decoding the bytes `all`, of which
    /// `input` is what is left in the buffer, and the outcome owed is that
    /// of decoding `all` with the checks at `stage0` made already.
    spec fn in_progress(&self, c: CodecConfig, input: Seq<u8>, all: Seq<u8>, stage0: nat) -> bool {
        &&& self.wf()
        &&& self@ == c
        &&& self.state is Some
        &&& self.consumed@ + input == all
        &&& decode_from(c, all, self.stage()) == decode_from(c, all, stage0)
    }

    /// What a step that ends the call has achieved.
    spec fn finished(
        &self,
        c: CodecConfig,
        rest: Seq<u8>,
        all: Seq<u8>,
        plen0: nat,
        stage0: nat,
        r: Result<Option<Frame>, Error>,
    ) -> bool {
        &&& self.wf()
        &&& self@ == c
        &&& decode_post(
            c,
            false,
            all.take(plen0 as int),
            stage0,
            all.skip(plen0 as int),
            decode_result_view(r),
            self.is_failed(),
            self.pending(),
            rest,
        )
    }

    /// Decode the first two bytes of a frame.
    fn decode_start(
        &mut self,
        buf: &mut BytesMut,
        Ghost(c): Ghost<CodecConfig>,
        Ghost(all): Ghost<Seq<u8>>,
        Ghost(plen0): Ghost<nat>,
        Ghost(stage0): Ghost<nat>,
    ) -> (r: Option<Result<Option<Frame>, Error>>)
        requires
            old(self).in_progress(c, bytes_of(*old(buf)), all, stage0),
            old(self).state matches Some(DecodeState::Start),
            all.take(plen0 as int) + all.skip(plen0 as int) == all,
        ensures
            r matches Some(res) ==> final(self).finished(
                c,
                bytes_of(*final(buf)),
                all,
                plen0,
                stage0,
                res,
            ),
            r is None ==> final(self).in_progress(c, bytes_of(*final(buf)), all, stage0)
                && state_rank(final(self).state) < state_rank(old(self).state),
    {
        if bytes_len(buf) < 2 {
            return Some(Ok(None));
        }
        let header_bytes = split_bytes_to(buf, 2);
        let first = byte_at(&header_bytes, 0);
        let second = byte_at(&header_bytes, 1);
        proof {
            lemma_first_byte_fields(first);
            assert(all[0] == first && all[1] == second);
        }
        self.state = None;
        let fin = first & 0x80 != 0;
        let opcode = match OpCode::try_from(first & 0xF) {
            Ok(op) => op,
            Err(_) => return Some(Err(Error::UnknownOpCode)),
        };
        assert(opcode == header_frame(first, second).opcode);
        if opcode.is_reserved() && !self.has_reserved_opcode(opcode) {
            assert(first_byte_error(c, first) == Some(Error::ReservedOpCode));
            return Some(Err(Error::ReservedOpCode));
        }
        if opcode.is_control() && !fin {
            assert(first_byte_error(c, first) == Some(Error::FragmentedControl));
            return Some(Err(Error::FragmentedControl));
        }
        let mut frame = Frame::new(opcode);
        frame.set_fin(fin);
        let rsv1 = first & 0x40 != 0;
        if rsv1 && (self.reserved_bits & 4 == 0) {
            assert(first_byte_error(c, first) == Some(Error::InvalidReservedBit(1)));
            return Some(Err(Error::InvalidReservedBit(1)));
        }
        frame.set_rsv1(rsv1);
        let rsv2 = first & 0x20 != 0;
        if rsv2 && (self.reserved_bits & 2 == 0) {
            assert(first_byte_error(c, first) == Some(Error::InvalidReservedBit(2)));
            return Some(Err(Error::InvalidReservedBit(2)));
        }
        frame.set_rsv2(rsv2);
        let rsv3 = first & 0x10 != 0;
        if rsv3 && (self.reserved_bits & 1 == 0) {
            assert(first_byte_error(c, first) == Some(Error::InvalidReservedBit(3)));
            return Some(Err(Error::InvalidReservedBit(3)));
        }
        frame.set_rsv3(rsv3);
        frame.set_masked(second & 0x80 != 0);
        self.consumed = Ghost(self.consumed@ + bytes_of(header_bytes));
        proof {
            assert(first_byte_error(c, first) is None);
            assert(self.consumed@ =~= all.take(2));
            assert(self.consumed@[0] == first && self.consumed@[1] == second);
            assert(frame@ == header_frame(first, second));
            lemma_first_checked(c, all);
        }
        self.state = Some(DecodeState::FrameStart { frame, length_code: second & 0x7F });
        assert(self.wf());
        assert(self@ == c);
        assert(self.consumed@ + bytes_of(*buf) =~= all);
        assert(self.stage() == 1);
        assert(decode_from(c, all, 1) == decode_from(c, all, stage0));
        None
    }

    /// Decode the extended payload length, if any.
    fn decode_length(
        &mut self,
        buf: &mut BytesMut,
        Ghost(c): Ghost<CodecConfig>,
        Ghost(all): Ghost<Seq<u8>>,
        Ghost(plen0): Ghost<nat>,
        Ghost(stage0): Ghost<nat>,
    ) -> (r: Option<Result<Option<Frame>, Error>>)
        requires
            old(self).in_progress(c, bytes_of(*old(buf)), all, stage0),
            old(self).state matches Some(DecodeState::FrameStart { .. }),
            all.take(plen0 as int) + all.skip(plen0 as int) == all,
        ensures
            r matches Some(res) ==> final(self).finished(
                c,
                bytes_of(*final(buf)),
                all,
                plen0,
                stage0,
                res,
            ),
            r is None ==> final(self).in_progress(c, bytes_of(*final(buf)), all, stage0)
                && state_rank(final(self).state) < state_rank(old(self).state),
    {
        let ghost p = self.consumed@;
        proof {
            assert(p =~= all.take(2));
            lemma_prefix_header(p, all);
        }
        let st = self.state.take();
        let (frame, length_code) = match st {
            Some(DecodeState::FrameStart { frame, length_code }) => (frame, length_code),
            _ => {
                return Some(Err(Error::IllegalCodecState));
            },
        };
        let len: u64 = if length_code == TWO_EXT {
            if bytes_len(buf) < 2 {
                self.state = Some(DecodeState::FrameStart { frame, length_code });
                return Some(Ok(None));
            }
            let len = read_be(buf, 0, 2);
            let ext = split_bytes_to(buf, 2);
            self.consumed = Ghost(self.consumed@ + bytes_of(ext));
            proof {
                assert(bytes_of(ext) =~= bytes_of(ext).subrange(0, 2));
                assert(self.consumed@.subrange(2, 4) =~= bytes_of(ext));
            }
            len
        } else if length_code == EIGHT_EXT {
            if bytes_len(buf) < 8 {
                self.state = Some(DecodeState::FrameStart { frame, length_code });
                return Some(Ok(None));
            }
            let len = read_be(buf, 0, 8);
            let ext = split_bytes_to(buf, 8);
            self.consumed = Ghost(self.consumed@ + bytes_of(ext));
            proof {
                assert(bytes_of(ext) =~= bytes_of(ext).subrange(0, 8));
                assert(self.consumed@.subrange(2, 10) =~= bytes_of(ext));
            }
            len
        } else {
            length_code as u64
        };
        proof {
            let q = self.consumed@;
            assert(q[0] == p[0] && q[1] == p[1]);
            assert(q =~= all.take(q.len() as int));
            lemma_prefix_header(q, all);
            assert(q.len() == length_end(q));
            assert(len == announced_len(q));
        }
        if len > 125 && frame.opcode().is_control() {
            return Some(Err(Error::InvalidControlFrameLen));
        }
        if len > self.max_data_size {
            return Some(Err(Error::PayloadTooLarge { actual: len, maximum: self.max_data_size }));
        }
        proof {
            let q = self.consumed@;
            assert(header_frame(all[0], all[1]).opcode == frame@.opcode);
            assert(announced_len(all) == len);
            lemma_length_checked(c, all);
            assert(q + bytes_of(*buf) =~= all);
        }
        self.state = Some(DecodeState::FrameLength { frame, length: len });
        assert(self.wf());
        assert(self.stage() == 2);
        None
    }

    /// Decode the masking key, if any.
    fn decode_mask(
        &mut self,
        buf: &mut BytesMut,
        Ghost(c): Ghost<CodecConfig>,
        Ghost(all): Ghost<Seq<u8>>,
        Ghost(plen0): Ghost<nat>,
        Ghost(stage0): Ghost<nat>,
    ) -> (r: Option<Result<Option<Frame>, Error>>)
        requires
            old(self).in_progress(c, bytes_of(*old(buf)), all, stage0),
            old(self).state matches Some(DecodeState::FrameLength { .. }),
            all.take(plen0 as int) + all.skip(plen0 as int) == all,
        ensures
            r matches Some(res) ==> final(self).finished(
                c,
                bytes_of(*final(buf)),
                all,
                plen0,
                stage0,
                res,
            ),
            r is None ==> final(self).in_progress(c, bytes_of(*final(buf)), all, stage0)
                && state_rank(final(self).state) < state_rank(old(self).state),
    {
        let ghost p = self.consumed@;
        proof {
            assert(p =~= all.take(p.len() as int));
            lemma_prefix_header(p, all);
        }
        let st = self.state.take();
        let (mut frame, length) = match st {
            Some(DecodeState::FrameLength { frame, length }) => (frame, length),
            _ => {
                return Some(Err(Error::IllegalCodecState));
            },
        };
        if !frame.is_masked() {
            proof {
                assert(header_end(p) == p.len());
                assert(header_mask(p) == 0);
            }
            self.state = Some(DecodeState::Body { frame, length });
            assert(self.wf());
            return None;
        }
        if bytes_len(buf) < 4 {
            self.state = Some(DecodeState::FrameLength { frame, length });
            return Some(Ok(None));
        }
        let m = read_be(buf, 0, 4);
        proof {
            lemma_be_value_bound(bytes_of(*buf).subrange(0, 4));
            lemma_pow256_values();
        }
        let mask = m as u32;
        let mbytes = split_bytes_to(buf, 4);
        self.consumed = Ghost(self.consumed@ + bytes_of(mbytes));
        proof {
            let q = self.consumed@;
            assert(bytes_of(mbytes) =~= bytes_of(mbytes).subrange(0, 4));
            assert(q.subrange(p.len() as int, (p.len() + 4) as int) =~= bytes_of(mbytes));
            assert(q.subrange(0, p.len() as int) =~= p);
            assert(q =~= all.take(q.len() as int));
            lemma_prefix_header(q, all);
            assert(q[1] == p[1]);
            assert(q.len() == header_end(q));
            assert(header_mask(q) == mask);
            assert(announced_len(q) == announced_len(p));
        }
        frame.set_mask(mask);
        proof {
            assert(self.consumed@ + bytes_of(*buf) =~= all);
        }
        self.state = Some(DecodeState::Body { frame, length });
        assert(self.wf());
        None
    }

    /// Decode the payload.
    #[verifier::rlimit(40)]
    fn decode_body(
        &mut self,
        buf: &mut BytesMut,
        Ghost(c): Ghost<CodecConfig>,
        Ghost(all): Ghost<Seq<u8>>,
        Ghost(plen0): Ghost<nat>,
        Ghost(stage0): Ghost<nat>,
    ) -> (r: Result<Option<Frame>, Error>)
        requires
            old(self).in_progress(c, bytes_of(*old(buf)), all, stage0),
            old(self).state matches Some(DecodeState::Body { .. }),
            all.take(plen0 as int) + all.skip(plen0 as int) == all,
        ensures
            final(self).finished(c, bytes_of(*final(buf)), all, plen0, stage0, r),
    {
        let ghost p = self.consumed@;
        proof {
            assert(p =~= all.take(p.len() as int));
            lemma_prefix_header(p, all);
        }
        let st = self.state.take();
        let (mut frame, length) = match st {
            Some(DecodeState::Body { frame, length }) => (frame, length),
            _ => {
                return Err(Error::IllegalCodecState);
            },
        };
        if length == 0 {
            if frame.opcode() == OpCode::Binary {
                frame.set_payload_data(Some(Data::Binary(new_bytes())));
            } else if frame.opcode() == OpCode::Text {
                frame.set_payload_data(Some(Data::Text(new_bytes())));
            }
            self.state = Some(DecodeState::Start);
            self.consumed = Ghost(Seq::empty());
            proof {
                assert(all.subrange(p.len() as int, p.len() as int) =~= Seq::<u8>::empty());
                assert(bytes_of(*buf) =~= all.skip(p.len() as int));
                assert(frame@ == decoded_frame(all));
            }
            return Ok(Some(frame));
        }
        if (bytes_len(buf) as u64) < length {
            self.state = Some(DecodeState::Body { frame, length });
            return Ok(None);
        }
        let raw = split_bytes_to(buf, length as usize);
        proof {
            assert(bytes_of(raw) =~= all.subrange(p.len() as int, p.len() + length));
            assert(bytes_of(*buf) =~= all.skip(p.len() + length));
        }
        let payload = if frame.is_masked() {
            let mut v = bytes_into_vec(raw);
            apply_mask(&mut v, frame.mask());
            bytes_from_slice(v.as_slice())
        } else {
            raw
        };
        let data = if frame.opcode() == OpCode::Text {
            Data::Text(payload)
        } else {
            Data::Binary(payload)
        };
        frame.set_payload_data(Some(data));
        self.state = Some(DecodeState::Start);
        self.consumed = Ghost(Seq::empty());
        proof {
            assert(frame@ == decoded_frame(all));
        }
        Ok(Some(frame))
    }

    /// Decode a base frame from the front of `buf`.
    ///
    /// Decoding is incremental: bytes of a frame that is not complete yet are
    /// consumed and remembered, so that a later call with more bytes goes on
    /// where this one stopped. After an error, the codec only returns
    /// `Error::IllegalCodecState`.
    pub fn decode(&mut self, buf: &mut BytesMut) -> (r: Result<Option<Frame>, Error>)
        requires
            old(self).wf(),
        ensures
            final(self).wf(),
            final(self)@ == old(self)@,
            decode_post(
                old(self)@,
                old(self).is_failed(),
                old(self).pending(),
                old(self).stage(),
                bytes_of(*old(buf)),
                decode_result_view(r),
                final(self).is_failed(),
                final(self).pending(),
                bytes_of(*final(buf)),
            ),
    {
        let ghost c = self@;
        let ghost all = self.consumed@ + bytes_of(*buf);
        let ghost plen0 = self.consumed@.len();
        let ghost stage0 = self.stage();
        if self.state.is_none() {
            return Err(Error::IllegalCodecState);
        }
        proof {
            assert(all.take(plen0 as int) =~= old(self).pending());
            assert(all.skip(plen0 as int) =~= bytes_of(*old(buf)));
        }
        loop
            invariant
                self.in_progress(c, bytes_of(*buf), all, stage0),
                c == old(self)@,
                !old(self).is_failed(),
                stage0 == old(self).stage(),
                all.take(plen0 as int) == old(self).pending(),
                all.skip(plen0 as int) == bytes_of(*old(buf)),
                all.take(plen0 as int) + all.skip(plen0 as int) == all,
            decreases state_rank(self.state),
        {
            let step = match self.state {
                Some(DecodeState::Start) => self.decode_start(
                    buf,
                    Ghost(c),
                    Ghost(all),
                    Ghost(plen0),
                    Ghost(stage0),
                ),
                Some(DecodeState::FrameStart { .. }) => self.decode_length(
                    buf,
                    Ghost(c),
                    Ghost(all),
                    Ghost(plen0),
                    Ghost(stage0),
                ),
                Some(DecodeState::FrameLength { .. }) => self.decode_mask(
                    buf,
                    Ghost(c),
                    Ghost(all),
                    Ghost(plen0),
                    Ghost(stage0),
                ),
                _ => Some(self.decode_body(buf, Ghost(c), Ghost(all), Ghost(plen0), Ghost(stage0))),
            };
            match step {
                Some(r) => return r,
                None => {},
            }
        }
    }

    /// Is the given reserved opcode configured?
    pub fn has_reserved_opcode(&self, code: OpCode) -> (r: bool)
        ensures
            r == opcode_configured(self@, code),
    {
        if !code.is_reserved() {
            return false;
        }
        self.reserved_opcodes & (1u16 << u8::from(code)) != 0
    }
}

/// The reserved bits a configuration allows: rsv1, rsv2, rsv3.
pub open spec fn allowed_rsv_bits(c: CodecConfig) -> (bool, bool, bool) {
    (c.reserved_bits & 4 != 0, c.reserved_bits & 2 != 0, c.reserved_bits & 1 != 0)
}

proof fn lemma_opcode_bit(m: u16, a: u8, b: u8)
    requires
        a < 16,
        b < 16,
    ensures
        ((m | (1u16 << a)) & (1u16 << b) != 0) == (m & (1u16 << b) != 0 || a == b),
        (0u16 & (1u16 << b)) == 0,
{
    assert(((m | (1u16 << a)) & (1u16 << b) != 0) == (m & (1u16 << b) != 0 || a == b))
        by (bit_vector)
        requires
            a < 16,
            b < 16,
    ;
    assert((0u16 & (1u16 << b)) == 0) by (bit_vector);
}

proof fn lemma_opcode_number_small(op: OpCode)
    ensures
        opcode_number(op) < 16,
        opcode_of_number(opcode_number(op)) == Some(op),
{
}

impl Codec {
    /// Get the configured maximum payload length.
    pub fn max_data_size(&self) -> (r: u64)
        ensures
            r == self@.max_data_size,
    {
        self.max_data_size
    }

    /// Limit the maximum size of payload data to `size` bytes.
    pub fn set_max_data_size(&mut self, size: u64) -> (r: &mut Self)
        requires
            old(self).wf(),
        ensures
            r@ == (CodecConfig { max_data_size: size, ..old(self)@ }),
            r.wf(),
            r.pending() == old(self).pending(),
            r.stage() == old(self).stage(),
            r.is_failed() == old(self).is_failed(),
            *final(self) == *final(r),
    {
        self.max_data_size = size;
        self
    }

    /// Add the reserved opcode.
    pub fn add_reserved_opcode(&mut self, code: OpCode) -> (r: &mut Self)
        requires
            old(self).wf(),
            spec_is_reserved(code),
        ensures
            r@.max_data_size == old(self)@.max_data_size,
            r@.reserved_bits == old(self)@.reserved_bits,
            forall|op: OpCode|
                opcode_configured(r@, op) == (opcode_configured(old(self)@, op) || op == code),
            r.wf(),
            r.pending() == old(self).pending(),
            r.stage() == old(self).stage(),
            r.is_failed() == old(self).is_failed(),
            *final(self) == *final(r),
    {
        let n = u8::from(code);
        proof {
            lemma_opcode_number_small(code);
            assert forall|op: OpCode|
                opcode_configured(
                    CodecConfig { reserved_opcodes: self.reserved_opcodes | (1u16 << n), ..self@ },
                    op,
                ) == (opcode_configured(self@, op) || op == code) by {
                lemma_opcode_number_small(op);
                lemma_opcode_bit(self.reserved_opcodes, n, opcode_number(op));
                if opcode_number(op) == n {
                    assert(opcode_of_number(opcode_number(op)) == opcode_of_number(n));
                }
            }
        }
        self.reserved_opcodes = self.reserved_opcodes | (1u16 << n);
        self
    }

    /// Reset reserved opcodes.
    pub fn clear_reserved_opcodes(&mut self)
        requires
            old(self).wf(),
        ensures
            final(self)@.max_data_size == old(self)@.max_data_size,
            final(self)@.reserved_bits == old(self)@.reserved_bits,
            forall|op: OpCode| !opcode_configured(#[trigger] final(self)@, op),
            final(self).wf(),
            final(self).pending() == old(self).pending(),
            final(self).stage() == old(self).stage(),
            final(self).is_failed() == old(self).is_failed(),
    {
        self.reserved_opcodes = 0;
        proof {
            assert forall|op: OpCode| !opcode_configured(self@, op) by {
                lemma_opcode_number_small(op);
                lemma_opcode_bit(0, 0, opcode_number(op));
            }
        }
    }

    /// The reserved bits currently configured.
    pub fn reserved_bits(&self) -> (r: (bool, bool, bool))
        ensures
            r == allowed_rsv_bits(self@),
    {
        let r = self.reserved_bits;
        (r & 4 != 0, r & 2 != 0, r & 1 != 0)
    }

    /// Add to the reserved bits in use.
    pub fn add_reserved_bits(&mut self, bits: (bool, bool, bool)) -> (r: &mut Self)
        requires
            old(self).wf(),
        ensures
            r@.max_data_size == old(self)@.max_data_size,
            r@.reserved_opcodes == old(self)@.reserved_opcodes,
            allowed_rsv_bits(r@) == (
                allowed_rsv_bits(old(self)@).0 || bits.0,
                allowed_rsv_bits(old(self)@).1 || bits.1,
                allowed_rsv_bits(old(self)@).2 || bits.2,
            ),
            r.wf(),
            r.pending() == old(self).pending(),
            r.stage() == old(self).stage(),
            r.is_failed() == old(self).is_failed(),
            *final(self) == *final(r),
    {
        let (r1, r2, r3) = bits;
        let b1: u8 = if r1 { 4 } else { 0 };
        let b2: u8 = if r2 { 2 } else { 0 };
        let b3: u8 = if r3 { 1 } else { 0 };
        let old_bits = self.reserved_bits;
        let new_bits = old_bits | b1 | b2 | b3;
        assert(((new_bits & 4 != 0) == ((old_bits & 4 != 0) || r1)) && ((new_bits & 2 != 0) == (
        (old_bits & 2 != 0) || r2)) && ((new_bits & 1 != 0) == ((old_bits & 1 != 0) || r3)))
            by (bit_vector)
            requires
                new_bits == old_bits | b1 | b2 | b3,
                b1 == if r1 { 4u8 } else { 0u8 },
                b2 == if r2 { 2u8 } else { 0u8 },
                b3 == if r3 { 1u8 } else { 0u8 },
        ;
        self.reserved_bits = new_bits;
        self
    }

    /// Reset the reserved bits.
    pub fn clear_reserved_bits(&mut self)
        requires
            old(self).wf(),
        ensures
            final(self)@ == (CodecConfig { reserved_bits: 0, ..old(self)@ }),
            final(self).wf(),
            final(self).pending() == old(self).pending(),
            final(self).stage() == old(self).stage(),
            final(self).is_failed() == old(self).is_failed(),
    {
        self.reserved_bits = 0
    }
}

// Encoding ///////////////////////////////////////////////////////////////////

/// The first header byte of a frame: the fin and rsv flags and the opcode.
pub open spec fn first_byte(f: FrameSpec) -> u8 {
    (((((if f.fin { 0x80u8 } else { 0u8 }) | (if f.rsv1 { 0x40u8 } else { 0u8 })) | (
    if f.rsv2 { 0x20u8 } else { 0u8 })) | (if f.rsv3 { 0x10u8 } else { 0u8 }))
        | opcode_number(f.opcode))
}

/// The mask flag and the length code of the second header byte.
pub open spec fn second_byte(masked: bool, code: u8) -> u8 {
    (if masked { 0x80u8 } else { 0u8 }) | code
}

/// The payload length field of a header: a length below 126 stands in the
/// second byte; up to 65535 it follows on two bytes after code 126;
/// beyond, on eight bytes after code 127.
pub open spec fn length_field(masked: bool, len: nat) -> Seq<u8> {
    if len < 126 {
        seq![second_byte(masked, len as u8)]
    } else if len <= 65535 {
        seq![second_byte(masked, 126)] + be_bytes(len, 2)
    } else {
        seq![second_byte(masked, 127)] + be_bytes(len, 8)
    }
}

/// The bytes that encode a frame (RFC 6455, section 5.2).
pub open spec fn encode_spec(f: FrameSpec) -> Seq<u8> {
    let data = payload_bytes(f.payload);
    seq![first_byte(f)] + length_field(f.masked, data.len()) + (if f.masked {
        be_bytes(f.mask as nat, 4)
    } else {
        Seq::empty()
    }) + (if f.masked {
        masked_bytes(data, f.mask)
    } else {
        data
    })
}

/// Append one byte.
pub fn push_byte(buf: &mut BytesMut, b: u8)
    ensures
        bytes_of(*final(buf)) == bytes_of(*old(buf)).push(b),
{
    let v = vec![b];
    assert(v@ =~= seq![b]);
    extend_bytes(buf, v.as_slice());
}

/// The header bytes of a frame whose payload has `len` bytes.
pub open spec fn header_spec(f: FrameSpec, len: nat) -> Seq<u8> {
    seq![first_byte(f)] + length_field(f.masked, len) + (if f.masked {
        be_bytes(f.mask as nat, 4)
    } else {
        Seq::empty()
    })
}

/// Append the header of `frame`, whose payload has `len` bytes.
#[verifier::rlimit(80)]
fn encode_header(frame: &Frame, len: usize, buf: &mut BytesMut)
    ensures
        bytes_of(*final(buf)) == bytes_of(*old(buf)) + header_spec(frame@, len as nat),
{
    let ghost f = frame@;
    let fin_bit: u8 = if frame.is_fin() { 0x80 } else { 0 };
    let rsv1_bit: u8 = if frame.is_rsv1() { 0x40 } else { 0 };
    let rsv2_bit: u8 = if frame.is_rsv2() { 0x20 } else { 0 };
    let rsv3_bit: u8 = if frame.is_rsv3() { 0x10 } else { 0 };
    let opcode: u8 = u8::from(frame.opcode());
    let fb = fin_bit | rsv1_bit | rsv2_bit | rsv3_bit | opcode;
    assert(fb == first_byte(f));
    push_byte(buf, fb);
    let ghost after_first = bytes_of(*buf);
    let mask_bit: u8 = if frame.is_masked() { 0x80 } else { 0 };
    if len < 126 {
        push_byte(buf, mask_bit | len as u8);
    } else if len <= 65535 {
        push_byte(buf, mask_bit | TWO_EXT);
        let ext = write_be(len as u64, 2);
        extend_bytes(buf, ext.as_slice());
    } else {
        push_byte(buf, mask_bit | EIGHT_EXT);
        let ext = write_be(len as u64, 8);
        extend_bytes(buf, ext.as_slice());
    }
    let ghost after_len = bytes_of(*buf);
    assert(after_len =~= after_first + length_field(f.masked, len as nat));
    if frame.is_masked() {
        let m = write_be(frame.mask() as u64, 4);
        extend_bytes(buf, m.as_slice());
    }
    assert(bytes_of(*buf) =~= bytes_of(*old(buf)) + header_spec(f, len as nat));
}

impl Codec {
    /// Encode a frame and append its bytes to `buf`.
    pub fn encode(&mut self, frame: Frame, buf: &mut BytesMut) -> (r: Result<(), Error>)
        ensures
            r is Ok,
            bytes_of(*final(buf)) == bytes_of(*old(buf)) + encode_spec(frame@),
            *final(self) == *old(self),
    {
        let ghost f = frame@;
        let len: usize = match frame.payload_data() {
            Some(d) => bytes_len(d.as_ref()),
            None => 0,
        };
        encode_header(&frame, len, buf);
        let ghost after_header = bytes_of(*buf);
        let mask = frame.mask();
        let is_masked = frame.is_masked();
        match frame.into_payload_data() {
            Some(data) => {
                let mut v = bytes_into_vec(data.into_bytes());
                if is_masked {
                    apply_mask(&mut v, mask);
                }
                extend_bytes(buf, v.as_slice());
            },
            None => {},
        }
        proof {
            let data = payload_bytes(f.payload);
            assert(data.len() == len);
            assert(bytes_of(*buf) =~= after_header + (if f.masked {
                masked_bytes(data, f.mask)
            } else {
                data
            }));
            assert(encode_spec(f) =~= header_spec(f, len as nat) + (if f.masked {
                masked_bytes(data, f.mask)
            } else {
                data
            }));
            assert(bytes_of(*buf) =~= bytes_of(*old(buf)) + encode_spec(f));
        }
        Ok(())
    }
}

// Laws ///////////////////////////////////////////////////////////////////////

/// A frame that a codec configured with `c` accepts as it is: its opcode is
/// not reserved (or the reserved opcode is configured), a control frame is
/// not fragmented and carries at most 125 bytes, the rsv flags set are
/// configured, and the payload does not exceed the maximum size.
pub open spec fn frame_acceptable(c: CodecConfig, f: FrameSpec) -> bool {
    let len = payload_len(f.payload);
    &&& spec_is_reserved(f.opcode) ==> opcode_configured(c, f.opcode)
    &&& spec_is_control(f.opcode) ==> f.fin && len <= 125
    &&& f.rsv1 ==> c.reserved_bits & 4 != 0
    &&& f.rsv2 ==> c.reserved_bits & 2 != 0
    &&& f.rsv3 ==> c.reserved_bits & 1 != 0
    &&& len <= c.max_data_size
}

/// The frame that decoding gives back for `f`: the mask is zero unless the
/// frame is masked, and the payload is what decoding makes of the bytes
/// (empty data only for text and binary frames; text data only for text
/// frames).
pub open spec fn normalized(f: FrameSpec) -> FrameSpec {
    FrameSpec {
        mask: if f.masked { f.mask } else { 0 },
        payload: decoded_payload(f.opcode, payload_bytes(f.payload), false, 0),
        ..f
    }
}

proof fn lemma_first_byte_bits(f: FrameSpec)
    ensures
        (first_byte(f) & 0x80 != 0) == f.fin,
        (first_byte(f) & 0x40 != 0) == f.rsv1,
        (first_byte(f) & 0x20 != 0) == f.rsv2,
        (first_byte(f) & 0x10 != 0) == f.rsv3,
        first_byte(f) & 0x0F == opcode_number(f.opcode),
{
    let n = opcode_number(f.opcode);
    lemma_opcode_number_small(f.opcode);
    let fin = f.fin;
    let r1 = f.rsv1;
    let r2 = f.rsv2;
    let r3 = f.rsv3;
    let b = first_byte(f);
    assert({
        &&& (b & 0x80 != 0) == fin
        &&& (b & 0x40 != 0) == r1
        &&& (b & 0x20 != 0) == r2
        &&& (b & 0x10 != 0) == r3
        &&& b & 0x0F == n
    }) by (bit_vector)
        requires
            n < 16,
            b == (((((if fin { 0x80u8 } else { 0u8 }) | (if r1 { 0x40u8 } else { 0u8 })) | (
            if r2 { 0x20u8 } else { 0u8 })) | (if r3 { 0x10u8 } else { 0u8 })) | n),
    ;
}

pub proof fn lemma_second_byte_bits(masked: bool, code: u8)
    requires
        code < 128,
    ensures
        (second_byte(masked, code) & 0x80 != 0) == masked,
        second_byte(masked, code) & 0x7F == code,
{
    let b = second_byte(masked, code);
    assert((b & 0x80 != 0) == masked && b & 0x7F == code) by (bit_vector)
        requires
            code < 128,
            b == (if masked { 0x80u8 } else { 0u8 }) | code,
    ;
}

/// What `encode` writes, `decode` reads back: decoding the encoding of an
/// acceptable frame, followed by any bytes, gives the frame (as decoding
/// normalizes it) and takes exactly the encoded bytes.
pub proof fn lemma_encode_decode_roundtrip(c: CodecConfig, f: FrameSpec, rest: Seq<u8>)
    requires
        frame_acceptable(c, f),
    ensures
        decode_spec(c, encode_spec(f) + rest) == DecodeOutcome::Decoded(
            normalized(f),
            encode_spec(f).len(),
        ),
{
    let data = payload_bytes(f.payload);
    let len = data.len();
    let s = encode_spec(f) + rest;
    let code: u8 = if len < 126 { len as u8 } else if len <= 65535 { 126 } else { 127 };
    let el: nat = ext_len(code);
    lemma_first_byte_bits(f);
    lemma_second_byte_bits(f.masked, code);
    lemma_opcode_number_small(f.opcode);
    lemma_be_bytes_len(len, 2);
    lemma_be_bytes_len(len, 8);
    lemma_be_bytes_len(f.mask as nat, 4);
    lemma_pow256_values();
    let mbytes = if f.masked { be_bytes(f.mask as nat, 4) } else { Seq::<u8>::empty() };
    let body = if f.masked { masked_bytes(data, f.mask) } else { data };
    assert(s[0] == first_byte(f));
    assert(s[1] == second_byte(f.masked, code));
    assert(header_frame(s[0], s[1]).opcode == f.opcode);
    assert(length_end(s) == 2 + el);
    if len < 126 {
        assert(announced_len(s) == len);
    } else if len <= 65535 {
        assert(s.subrange(2, 4) =~= be_bytes(len, 2));
        lemma_be_value_of_bytes(len, 2);
        assert(announced_len(s) == len);
    } else {
        assert(s.subrange(2, 10) =~= be_bytes(len, 8));
        assert(len <= c.max_data_size);
        lemma_be_value_of_bytes(len, 8);
        assert(announced_len(s) == len);
    }
    assert(first_byte_error(c, s[0]) is None);
    assert(length_error(c, f.opcode, len) is None);
    let m = header_end(s);
    assert(m == 2 + el + mbytes.len());
    assert(encode_spec(f) =~= seq![first_byte(f)] + length_field(f.masked, len) + mbytes + body);
    if f.masked {
        assert(s.subrange(length_end(s) as int, m as int) =~= be_bytes(f.mask as nat, 4));
        lemma_be_value_of_bytes(f.mask as nat, 4);
        assert(header_mask(s) == f.mask);
        lemma_mask_involution(data, f.mask);
    }
    assert(s.subrange(m as int, (m + len) as int) =~= body);
    assert(decoded_frame(s) == normalized(f));
}

/// Decoding is not changed by bytes that follow: once a prefix of the input
/// decides the outcome (a frame or an error), more bytes after it give the
/// same outcome. So a stream decodes the same however it is cut into buffers.
pub proof fn lemma_decode_prefix_stable(c: CodecConfig, s: Seq<u8>, t: Seq<u8>, stage: nat)
    requires
        !(decode_from(c, s, stage) is NeedMore),
    ensures
        decode_from(c, s + t, stage) == decode_from(c, s, stage),
{
    let st = s + t;
    assert(s =~= st.take(s.len() as int));
    lemma_prefix_header(s, st);
    if s.len() >= header_end(s) {
        if s.len() >= header_end(s) + announced_len(s) {
            let m = header_end(s) as int;
            let e = (header_end(s) + announced_len(s)) as int;
            assert(s.subrange(m, e) =~= st.subrange(m, e));
        }
    }
}

} // verus!
