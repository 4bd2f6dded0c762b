//! The per-message deflate extension (RFC 7692): its negotiation, and the
//! compression of the messages once it is enabled.

use vstd::prelude::*;
use crate::base::{Data, Frame, FrameSpec, OpCode};
use crate::buffer::{bytes_as_slice, bytes_from_slice, bytes_into_vec};
use crate::connection::payload_bytes;
use crate::connection::Mode;
use crate::extension::{Error, Extension, Param, ParamModel};
use crate::util::{all_digits, append_bytes, digits_value, parse_u8, parsed_u8, str_eq};

verus! {

/// The per-message deflate extension.
#[derive(Debug)]
pub struct Deflate {
    mode: Mode,
    enabled: bool,
    buffer: Vec<u8>,
    client_params: Vec<Param>,
    server_params: Vec<Param>,
    client_max_window_bits: u8,
    server_max_window_bits: u8,
}

/// A parameter with a name and no value.
pub open spec fn flag(name: Seq<char>) -> ParamModel {
    ParamModel { name, value: None }
}

/// The state of the extension as negotiation sets it: whether it is
/// enabled, the parameters of the server's answer, and the server's
/// maximum window bits.
pub struct DeflateState {
    pub enabled: bool,
    pub server_params: Seq<ParamModel>,
    pub server_max_window_bits: u8,
}

/// The models of a sequence of parameters.
pub open spec fn param_models(ps: Seq<Param>) -> Seq<ParamModel> {
    ps.map_values(|p: Param| p@)
}

/// A server reads the client's parameters in order and builds its answer:
/// `client_max_window_bits` needs no answer; `server_max_window_bits` is
/// only accepted with the value 15 (and answered with it); either
/// `*_no_context_takeover` is answered as it is. Any other parameter, or a
/// `server_max_window_bits` that is not 15, stops the negotiation and
/// leaves the extension disabled; reaching the end enables it.
pub open spec fn server_negotiation(ps: Seq<ParamModel>, s: DeflateState) -> DeflateState
    decreases ps.len(),
{
    if ps.len() == 0 {
        DeflateState { enabled: true, ..s }
    } else {
        let p = ps[0];
        let rest = ps.drop_first();
        if p.name == "client_max_window_bits"@ {
            server_negotiation(rest, s)
        } else if p.name == "server_max_window_bits"@ {
            match p.value {
                Some(v) => if parsed_u8(v) == Some(15u8) {
                    server_negotiation(
                        rest,
                        DeflateState {
                            server_params: s.server_params.push(
                                ParamModel { name: "server_max_window_bits"@, value: Some("15"@) },
                            ),
                            server_max_window_bits: 15,
                            ..s
                        },
                    )
                } else {
                    s
                },
                None => s,
            }
        } else if p.name == "client_no_context_takeover"@ {
            server_negotiation(
                rest,
                DeflateState {
                    server_params: s.server_params.push(flag("client_no_context_takeover"@)),
                    ..s
                },
            )
        } else if p.name == "server_no_context_takeover"@ {
            server_negotiation(
                rest,
                DeflateState {
                    server_params: s.server_params.push(flag("server_no_context_takeover"@)),
                    ..s
                },
            )
        } else {
            s
        }
    }
}

/// A client accepts the server's answer if it only holds parameters it
/// knows (`server_no_context_takeover`, `server_max_window_bits`,
/// `client_no_context_takeover`) and confirms `server_no_context_takeover`.
pub open spec fn client_accepts(ps: Seq<ParamModel>) -> bool {
    &&& forall|i: int|
        0 <= i < ps.len() ==> (#[trigger] ps[i].name == "server_no_context_takeover"@
            || ps[i].name == "server_max_window_bits"@ || ps[i].name
            == "client_no_context_takeover"@)
    &&& exists|i: int| 0 <= i < ps.len() && #[trigger] ps[i].name == "server_no_context_takeover"@
}

impl Deflate {
    /// The side this extension is used on.
    pub closed spec fn mode_spec(&self) -> Mode {
        self.mode
    }

    /// The negotiated state.
    pub closed spec fn state(&self) -> DeflateState {
        DeflateState {
            enabled: self.enabled,
            server_params: param_models(self.server_params@),
            server_max_window_bits: self.server_max_window_bits,
        }
    }

    /// The parameters a client offers.
    pub closed spec fn client_params_spec(&self) -> Seq<ParamModel> {
        param_models(self.client_params@)
    }

    /// A disabled extension for the given side; a client offers
    /// `server_no_context_takeover`.
    pub fn new(mode: Mode) -> (r: Self)
        ensures
            r.mode_spec() == mode,
            r.state() == (DeflateState {
                enabled: false,
                server_params: Seq::empty(),
                server_max_window_bits: 15,
            }),
            r.client_params_spec() == (if mode == Mode::Client {
                seq![flag("server_no_context_takeover"@)]
            } else {
                Seq::empty()
            }),
    {
        let client_params = match mode {
            Mode::Server => Vec::new(),
            Mode::Client => {
                let mut params = Vec::new();
                params.push(Param::new("server_no_context_takeover"));
                params
            },
        };
        let r = Deflate {
            mode,
            enabled: false,
            buffer: Vec::new(),
            client_params,
            server_params: Vec::new(),
            client_max_window_bits: 15,
            server_max_window_bits: 15,
        };
        assert(r.state().server_params =~= Seq::<ParamModel>::empty());
        assert(r.client_params_spec() =~= (if mode == Mode::Client {
            seq![flag("server_no_context_takeover"@)]
        } else {
            Seq::empty()
        }));
        r
    }

    /// The server side of `configure`.
    fn configure_server(&mut self, params: &[Param])
        requires
            old(self).mode_spec() == Mode::Server,
            !old(self).state().enabled,
            old(self).state().server_params.len() == 0,
        ensures
            final(self).mode_spec() == old(self).mode_spec(),
            final(self).client_params_spec() == old(self).client_params_spec(),
            final(self).state() == server_negotiation(param_models(params@), old(self).state()),
    {
        let mut i: usize = 0;
        assert(param_models(params@).skip(0) =~= param_models(params@));
        while i < params.len()
            invariant
                i <= params@.len(),
                self.mode == old(self).mode,
                !self.enabled,
                self.client_params@ == old(self).client_params@,
                server_negotiation(param_models(params@), old(self).state())
                    == server_negotiation(param_models(params@).skip(i as int), self.state()),
            decreases params@.len() - i,
        {
            let p = &params[i];
            let ghost ps = param_models(params@).skip(i as int);
            assert(ps[0] == p@);
            assert(ps.drop_first() =~= param_models(params@).skip(i + 1));
            let name = p.name();
            let ghost st = self.state();
            if str_eq(name, "client_max_window_bits") {
                // Not necessary to include a response.
            } else if str_eq(name, "server_max_window_bits") {
                match p.value() {
                    Some(v) => {
                        match parse_u8(v) {
                            Some(bits) => {
                                if bits != 15 {
                                    return;
                                }
                                let mut x = Param::new("server_max_window_bits");
                                x.set_value(Some("15"));
                                self.server_params.push(x);
                                self.server_max_window_bits = bits;
                                assert(self.state().server_params =~= st.server_params.push(
                                    ParamModel { name: "server_max_window_bits"@, value: Some("15"@) },
                                ));
                            },
                            None => {
                                return;
                            },
                        }
                    },
                    None => {
                        return;
                    },
                }
            } else if str_eq(name, "client_no_context_takeover") {
                self.server_params.push(Param::new("client_no_context_takeover"));
                assert(self.state().server_params =~= st.server_params.push(
                    flag("client_no_context_takeover"@),
                ));
            } else if str_eq(name, "server_no_context_takeover") {
                self.server_params.push(Param::new("server_no_context_takeover"));
                assert(self.state().server_params =~= st.server_params.push(
                    flag("server_no_context_takeover"@),
                ));
            } else {
                return;
            }
            i = i + 1;
        }
        self.enabled = true;
    }

    /// The client side of `configure`.
    fn configure_client(&mut self, params: &[Param])
        requires
            !old(self).state().enabled,
        ensures
            final(self).mode_spec() == old(self).mode_spec(),
            final(self).client_params_spec() == old(self).client_params_spec(),
            final(self).state() == (DeflateState {
                enabled: client_accepts(param_models(params@)),
                ..old(self).state()
            }),
    {
        let ghost ps = param_models(params@);
        let mut server_no_context_takeover = false;
        let mut i: usize = 0;
        while i < params.len()
            invariant
                i <= params@.len(),
                ps == param_models(params@),
                *self == *old(self),
                !old(self).state().enabled,
                forall|j: int|
                    0 <= j < i ==> (#[trigger] ps[j].name == "server_no_context_takeover"@
                        || ps[j].name == "server_max_window_bits"@ || ps[j].name
                        == "client_no_context_takeover"@),
                server_no_context_takeover == exists|j: int|
                    0 <= j < i && #[trigger] ps[j].name == "server_no_context_takeover"@,
            decreases params@.len() - i,
        {
            let name = params[i].name();
            assert(ps[i as int] == params@[i as int]@);
            if str_eq(name, "server_no_context_takeover") {
                server_no_context_takeover = true;
            } else if str_eq(name, "server_max_window_bits") {
            } else if str_eq(name, "client_no_context_takeover") {
                // must be supported
            } else {
                assert(!client_accepts(ps));
                return;
            }
            i = i + 1;
        }
        assert(ps.len() == params@.len());
        if !server_no_context_takeover {
            assert(!client_accepts(ps));
            return;
        }
        self.enabled = true;
    }
}

/// What `configure` leaves: on a server, the negotiation of the client's
/// parameters from a fresh answer; on a client, enabled exactly when it
/// accepts the server's answer.
pub open spec fn configured(mode: Mode, ps: Seq<ParamModel>, s: DeflateState) -> DeflateState {
    match mode {
        Mode::Server => server_negotiation(
            ps,
            DeflateState { enabled: false, server_params: Seq::empty(), ..s },
        ),
        Mode::Client => DeflateState { enabled: client_accepts(ps), ..s },
    }
}

// The compressor and decompressor of flate2 /////////////////////////////////

#[verifier::external_type_specification]
#[verifier::external_body]
pub struct ExCompress(flate2::Compress);

#[verifier::external_type_specification]
#[verifier::external_body]
pub struct ExDecompress(flate2::Decompress);

/// The input a compressor has taken so far, first to last.
pub uninterp spec fn deflater_taken(c: flate2::Compress) -> Seq<u8>;

/// The output a compressor has written so far, first to last.
pub uninterp spec fn deflater_written(c: flate2::Compress) -> Seq<u8>;

/// The input a decompressor has taken so far, first to last.
pub uninterp spec fn inflater_taken(d: flate2::Decompress) -> Seq<u8>;

/// The output a decompressor has written so far, first to last.
pub uninterp spec fn inflater_written(d: flate2::Decompress) -> Seq<u8>;

/// `flate2::Compress::new` at the fast level (`Compression::fast()`),
/// writing raw deflate data (no zlib header). A new compressor has taken
/// and written nothing.
#[verifier::external_body]
fn new_deflater() -> (r: flate2::Compress)
    ensures
        deflater_taken(r) == Seq::<u8>::empty(),
        deflater_written(r) == Seq::<u8>::empty(),
{
    flate2::Compress::new(flate2::Compression::fast(), false)
}

/// `flate2::Compress::total_in`: how many input bytes the compressor has
/// taken so far.
#[verifier::external_body]
fn deflater_total_in(c: &flate2::Compress) -> (r: u64)
    ensures
        r == deflater_taken(*c).len(),
{
    c.total_in()
}

/// `flate2::Compress::compress_vec` with a sync flush: the compressor takes
/// a prefix of `input` (possibly none of it) and writes compressed bytes
/// into the spare capacity of `out`, after the bytes already there; whether
/// the call succeeded is returned. Which bytes are written, and how many,
/// depends on the compressor's state and on the capacity the allocator gave
/// `out`, so nothing is claimed of them beyond their place.
#[verifier::external_body]
fn deflate_into(c: &mut flate2::Compress, input: &[u8], out: &mut Vec<u8>) -> (r: bool)
    ensures
        final(out)@.len() >= old(out)@.len(),
        final(out)@.take(old(out)@.len() as int) == old(out)@,
        deflater_taken(*old(c)).len() <= deflater_taken(*final(c)).len() <= deflater_taken(*old(c)).len()
            + input@.len(),
        deflater_taken(*final(c)) == deflater_taken(*old(c)) + input@.take(
            deflater_taken(*final(c)).len() - deflater_taken(*old(c)).len(),
        ),
        deflater_written(*final(c)) == deflater_written(*old(c)) + final(out)@.skip(
            old(out)@.len() as int,
        ),
{
    c.compress_vec(input, out, flate2::FlushCompress::Sync).is_ok()
}

/// `flate2::Decompress::new` for raw deflate data (no zlib header). A new
/// decompressor has taken and written nothing.
#[verifier::external_body]
fn new_inflater() -> (r: flate2::Decompress)
    ensures
        inflater_taken(r) == Seq::<u8>::empty(),
        inflater_written(r) == Seq::<u8>::empty(),
{
    flate2::Decompress::new(false)
}

/// `flate2::Decompress::total_in`: how many input bytes the decompressor
/// has taken so far.
#[verifier::external_body]
fn inflater_total_in(d: &flate2::Decompress) -> (r: u64)
    ensures
        r == inflater_taken(*d).len(),
{
    d.total_in()
}

/// `flate2::Decompress::decompress_vec` with a sync flush: the
/// decompressor takes a prefix of `input` (possibly none of it) and writes
/// decompressed bytes into the spare capacity of `out`, after the bytes
/// already there; whether the call succeeded is returned. How much is
/// taken and written depends on the capacity the allocator gave `out`, and
/// what is written is the inflation of the stream, which is not stated
/// here.
#[verifier::external_body]
fn inflate_into(d: &mut flate2::Decompress, input: &[u8], out: &mut Vec<u8>) -> (r: bool)
    ensures
        final(out)@.len() >= old(out)@.len(),
        final(out)@.take(old(out)@.len() as int) == old(out)@,
        inflater_taken(*old(d)).len() <= inflater_taken(*final(d)).len() <= inflater_taken(*old(d)).len()
            + input@.len(),
        inflater_taken(*final(d)) == inflater_taken(*old(d)) + input@.take(
            inflater_taken(*final(d)).len() - inflater_taken(*old(d)).len(),
        ),
        inflater_written(*final(d)) == inflater_written(*old(d)) + final(out)@.skip(
            old(out)@.len() as int,
        ),
{
    d.decompress_vec(input, out, flate2::FlushDecompress::Sync).is_ok()
}

/// `Vec::capacity`: how many bytes the vector can hold without
/// reallocating, at least its length. The number depends on the allocator,
/// so nothing more is claimed.
#[verifier::external_body]
fn vec_capacity(v: &Vec<u8>) -> (r: usize)
    ensures
        r >= v@.len(),
{
    v.capacity()
}

/// A compressor that has taken exactly `data` and written exactly `out`.
pub open spec fn deflated(c: flate2::Compress, data: Seq<u8>, out: Seq<u8>) -> bool {
    deflater_taken(c) == data && deflater_written(c) == out
}

/// A decompressor that has taken exactly `data` and written exactly `out`.
pub open spec fn inflated(d: flate2::Decompress, data: Seq<u8>, out: Seq<u8>) -> bool {
    inflater_taken(d) == data && inflater_written(d) == out
}

/// Compress `data` with sync flushes into `out`, reserving room for what
/// is left before each step, until the compressor has taken all of it;
/// then make sure the output ends with a flush. On success a new
/// compressor has taken all of `data`, in order, and what follows the old
/// contents of `out` is all it wrote. `false` where the compressor fails
/// or stops taking input.
fn deflate_all(data: &[u8], out: &mut Vec<u8>) -> (r: bool)
    ensures
        final(out)@.len() >= old(out)@.len(),
        final(out)@.take(old(out)@.len() as int) == old(out)@,
        r ==> exists|c: flate2::Compress|
            #[trigger] deflated(c, data@, final(out)@.skip(old(out)@.len() as int)),
{
    let ghost start = out@.len();
    let mut c = new_deflater();
    let len = data.len();
    let first = deflater_total_in(&c);
    if first > len as u64 {
        return false;
    }
    let mut off: usize = first as usize;
    assert(data@.take(0) =~= Seq::<u8>::empty());
    assert(out@.skip(start as int) =~= Seq::<u8>::empty());
    while off < len
        invariant
            off <= len,
            len == data@.len(),
            start == old(out)@.len(),
            out@.len() >= start,
            out@.take(start as int) == old(out)@,
            deflater_taken(c) == data@.take(off as int),
            deflater_written(c) == out@.skip(start as int),
        decreases len - off,
    {
        let ghost before = out@;
        out.reserve(len - off);
        assert(out@ == before);
        let rest = data.split_at(off).1;
        if !deflate_into(&mut c, rest, out) {
            return false;
        }
        proof {
            let k = deflater_taken(c).len() - off;
            assert(data@.take(off as int) + rest@.take(k) =~= data@.take(off + k));
            assert(out@.skip(start as int) =~= before.skip(start as int) + out@.skip(
                before.len() as int,
            ));
            assert(out@.take(start as int) =~= before.take(start as int));
        }
        let t = deflater_total_in(&c);
        if t <= off as u64 || t > len as u64 {
            // The compressor took nothing, or more than it was given.
            return false;
        }
        off = t as usize;
    }
    if vec_capacity(out) - out.len() < 5 {
        // Make room for the trailing end bytes.
        let ghost before = out@;
        out.reserve(5);
        assert(out@ == before);
        if !deflate_into(&mut c, &[], out) {
            return false;
        }
        proof {
            assert(data@.take(off as int) + Seq::<u8>::empty().take(0) =~= data@.take(off as int));
            assert(out@.skip(start as int) =~= before.skip(start as int) + out@.skip(
                before.len() as int,
            ));
            assert(out@.take(start as int) =~= before.take(start as int));
        }
    }
    assert(data@.take(len as int) =~= data@);
    assert(deflated(c, data@, out@.skip(start as int)));
    true
}

/// Decompress `data` with sync flushes into `out`, reserving room for what
/// is left before each step, until the decompressor has taken all of it.
/// On success a new decompressor has taken all of `data`, in order, and
/// what follows the old contents of `out` is all it wrote. `false` where
/// the data is no valid deflate stream or the decompressor stops taking
/// input.
fn inflate_all(data: &[u8], out: &mut Vec<u8>) -> (r: bool)
    ensures
        final(out)@.len() >= old(out)@.len(),
        final(out)@.take(old(out)@.len() as int) == old(out)@,
        r ==> exists|d: flate2::Decompress|
            #[trigger] inflated(d, data@, final(out)@.skip(old(out)@.len() as int)),
{
    let ghost start = out@.len();
    let mut d = new_inflater();
    let len = data.len();
    let first = inflater_total_in(&d);
    if first > len as u64 {
        return false;
    }
    let mut off: usize = first as usize;
    assert(data@.take(0) =~= Seq::<u8>::empty());
    assert(out@.skip(start as int) =~= Seq::<u8>::empty());
    while off < len
        invariant
            off <= len,
            len == data@.len(),
            start == old(out)@.len(),
            out@.len() >= start,
            out@.take(start as int) == old(out)@,
            inflater_taken(d) == data@.take(off as int),
            inflater_written(d) == out@.skip(start as int),
        decreases len - off,
    {
        let ghost before = out@;
        out.reserve(len - off);
        assert(out@ == before);
        let rest = data.split_at(off).1;
        if !inflate_into(&mut d, rest, out) {
            return false;
        }
        proof {
            let k = inflater_taken(d).len() - off;
            assert(data@.take(off as int) + rest@.take(k) =~= data@.take(off + k));
            assert(out@.skip(start as int) =~= before.skip(start as int) + out@.skip(
                before.len() as int,
            ));
            assert(out@.take(start as int) =~= before.take(start as int));
        }
        let t = inflater_total_in(&d);
        if t <= off as u64 || t > len as u64 {
            // The decompressor took nothing, or more than it was given.
            return false;
        }
        off = t as usize;
    }
    assert(data@.take(len as int) =~= data@);
    assert(inflated(d, data@, out@.skip(start as int)));
    true
}

/// The four bytes a sync flush of the compressor ends with.
pub open spec fn sync_flush_end() -> Seq<u8> {
    seq![0u8, 0u8, 0xFFu8, 0xFFu8]
}

/// The data handed to the decompressor for a compressed message: its
/// payload followed by the four bytes that a sync flush ends with, which
/// the sender took off (RFC 7692, section 7.2.2).
pub fn with_sync_trailer(p: &[u8]) -> (r: Vec<u8>)
    ensures
        r@ == p@ + sync_flush_end(),
{
    let mut v: Vec<u8> = Vec::new();
    append_bytes(&mut v, p);
    v.push(0);
    v.push(0);
    v.push(0xFF);
    v.push(0xFF);
    assert(v@ =~= p@ + sync_flush_end());
    v
}

/// The payload of a compressed message: what the compressor wrote without
/// the four bytes that its last sync flush ends with (RFC 7692, section
/// 7.2.1). An error where it wrote fewer than four bytes.
pub fn strip_sync_flush(out: &[u8]) -> (r: Result<Vec<u8>, Error>)
    ensures
        r is Err <==> out@.len() < 4,
        r matches Ok(v) ==> v@ == out@.take(out@.len() - 4),
{
    if out.len() < 4 {
        return Err(Error { message: "compression gave no sync flush".to_owned() });
    }
    let n = out.len() - 4;
    let mut v: Vec<u8> = Vec::new();
    append_bytes(&mut v, out.split_at(n).0);
    Ok(v)
}

/// A compressor that has taken exactly `data`, and `payload` is what it
/// wrote, at least four bytes, without the last four.
pub open spec fn encoded_by(c: flate2::Compress, data: Seq<u8>, payload: Seq<u8>) -> bool {
    let w = deflater_written(c);
    deflater_taken(c) == data && w.len() >= 4 && payload == w.take(w.len() - 4)
}

/// What `decode` hands the decompressor for a message that `encode` made
/// is all the compressor wrote, where that output ends with the four bytes
/// of a sync flush: taking them off and putting them back are inverse.
pub proof fn lemma_sync_flush_restored(c: flate2::Compress, data: Seq<u8>, payload: Seq<u8>)
    requires
        encoded_by(c, data, payload),
        deflater_written(c).skip(deflater_written(c).len() - 4) == sync_flush_end(),
    ensures
        payload + sync_flush_end() == deflater_written(c),
{
    let w = deflater_written(c);
    assert(payload + sync_flush_end() =~= w.take(w.len() - 4) + w.skip(w.len() - 4));
    assert(w.take(w.len() - 4) + w.skip(w.len() - 4) =~= w);
}

/// Whether the payload of a frame is text.
pub open spec fn payload_is_text(f: FrameSpec) -> bool {
    match f.payload {
        Some((t, _)) => t,
        None => false,
    }
}

/// A frame `decode` inflates: a final text or binary frame with `rsv1`, or
/// a final continuation frame.
pub open spec fn decodes(f: FrameSpec) -> bool {
    ((f.opcode == OpCode::Binary || f.opcode == OpCode::Text) && f.rsv1 && f.fin) || (f.opcode
        == OpCode::Continue && f.fin)
}

/// A frame `encode` deflates: a text or binary frame.
pub open spec fn encodes(f: FrameSpec) -> bool {
    f.opcode == OpCode::Text || f.opcode == OpCode::Binary
}

impl Extension for Deflate {
    open spec fn spec_name(&self) -> Seq<char> {
        "permessage-deflate"@
    }

    fn name(&self) -> (r: &str) {
        "permessage-deflate"
    }

    open spec fn spec_enabled(&self) -> bool {
        self.state().enabled
    }

    fn is_enabled(&self) -> (r: bool) {
        self.enabled
    }

    open spec fn spec_params(&self) -> Seq<ParamModel> {
        match self.mode_spec() {
            Mode::Client => self.client_params_spec(),
            Mode::Server => self.state().server_params,
        }
    }

    fn params(&self) -> (r: &[Param]) {
        match self.mode {
            Mode::Client => self.client_params.as_slice(),
            Mode::Server => self.server_params.as_slice(),
        }
    }

    fn configure(&mut self, params: &[Param]) -> (r: Result<(), Error>)
        ensures
            r is Ok,
            final(self).mode_spec() == old(self).mode_spec(),
            final(self).client_params_spec() == old(self).client_params_spec(),
            final(self).state() == configured(
                old(self).mode_spec(),
                param_models(params@),
                old(self).state(),
            ),
    {
        self.enabled = false;
        match self.mode {
            Mode::Server => {
                self.server_params.clear();
                assert(self.state().server_params =~= Seq::<ParamModel>::empty());
                self.configure_server(params);
            },
            Mode::Client => {
                self.configure_client(params);
            },
        }
        Ok(())
    }

    open spec fn spec_reserved_bits(&self) -> (bool, bool, bool) {
        (true, false, false)
    }

    fn reserved_bits(&self) -> (r: (bool, bool, bool)) {
        (true, false, false)
    }

    fn decode(&mut self, f: &mut Frame) -> (r: Result<(), Error>)
        ensures
            final(self).mode_spec() == old(self).mode_spec(),
            final(self).state() == old(self).state(),
            final(self).client_params_spec() == old(self).client_params_spec(),
            !decodes(old(f)@) || old(f)@.payload is None ==> r is Ok && final(f)@ == old(f)@,
            decodes(old(f)@) && old(f)@.payload is Some && r is Ok ==> final(f)@ == (FrameSpec {
                rsv1: false,
                payload: Some((payload_is_text(old(f)@), payload_bytes(final(f)@))),
                ..old(f)@
            }) && exists|d: flate2::Decompress|
                #[trigger] inflated(
                    d,
                    payload_bytes(old(f)@) + sync_flush_end(),
                    payload_bytes(final(f)@),
                ),
            r is Err ==> final(f)@ == (FrameSpec {
                payload: Some((payload_is_text(old(f)@), payload_bytes(old(f)@) + sync_flush_end())),
                ..old(f)@
            }),
    {
        let opcode = f.opcode();
        let fin = f.is_fin();
        let rsv1 = f.is_rsv1();
        if !(((opcode == OpCode::Binary || opcode == OpCode::Text) && rsv1 && fin) || (opcode
            == OpCode::Continue && fin)) {
            return Ok(());
        }
        let (is_text, input) = match f.payload_data() {
            Some(d) => (d.is_text(), with_sync_trailer(bytes_as_slice(d.as_ref()))),
            None => return Ok(()),
        };
        self.buffer.clear();
        if !inflate_all(input.as_slice(), &mut self.buffer) {
            // The payload keeps the trailer that was appended for the
            // decompressor.
            let kept = if is_text {
                Data::Text(bytes_from_slice(input.as_slice()))
            } else {
                Data::Binary(bytes_from_slice(input.as_slice()))
            };
            f.set_payload_data(Some(kept));
            return Err(Error { message: "decompression failed".to_owned() });
        }
        assert(self.buffer@.skip(0) =~= self.buffer@);
        let ghost d = choose|d: flate2::Decompress| inflated(d, input@, self.buffer@);
        let data = if is_text {
            Data::Text(bytes_from_slice(self.buffer.as_slice()))
        } else {
            Data::Binary(bytes_from_slice(self.buffer.as_slice()))
        };
        f.set_payload_data(Some(data));
        f.set_rsv1(false);
        assert(inflated(d, payload_bytes(old(f)@) + sync_flush_end(), payload_bytes(f@)));
        Ok(())
    }

    fn encode(&mut self, f: &mut Frame) -> (r: Result<(), Error>)
        ensures
            final(self).mode_spec() == old(self).mode_spec(),
            final(self).state() == old(self).state(),
            final(self).client_params_spec() == old(self).client_params_spec(),
            !encodes(old(f)@) || old(f)@.payload is None ==> r is Ok && final(f)@ == old(f)@,
            encodes(old(f)@) && old(f)@.payload is Some && r is Ok ==> final(f)@ == (FrameSpec {
                rsv1: true,
                payload: Some((payload_is_text(old(f)@), payload_bytes(final(f)@))),
                ..old(f)@
            }) && exists|c: flate2::Compress|
                #[trigger] encoded_by(c, payload_bytes(old(f)@), payload_bytes(final(f)@)),
            r is Err ==> final(f)@ == old(f)@,
    {
        let opcode = f.opcode();
        if !(opcode == OpCode::Text || opcode == OpCode::Binary) {
            return Ok(());
        }
        let (is_text, bytes) = match f.payload_data() {
            Some(d) => (d.is_text(), bytes_into_vec(bytes_from_slice(bytes_as_slice(d.as_ref())))),
            None => return Ok(()),
        };
        self.buffer.clear();
        if !deflate_all(bytes.as_slice(), &mut self.buffer) {
            return Err(Error { message: "compression failed".to_owned() });
        }
        assert(self.buffer@.skip(0) =~= self.buffer@);
        let ghost c = choose|c: flate2::Compress| deflated(c, bytes@, self.buffer@);
        let payload = match strip_sync_flush(self.buffer.as_slice()) {
            Ok(p) => p,
            Err(e) => return Err(e),
        };
        assert(encoded_by(c, bytes@, payload@));
        let data = if is_text {
            Data::Text(bytes_from_slice(payload.as_slice()))
        } else {
            Data::Binary(bytes_from_slice(payload.as_slice()))
        };
        f.set_payload_data(Some(data));
        f.set_rsv1(true);
        assert(encoded_by(c, payload_bytes(old(f)@), payload_bytes(f@)));
        Ok(())
    }
}

} // verus!

verus! {

/// A parameter a server knows and accepts: `client_max_window_bits`, either
/// `*_no_context_takeover`, or `server_max_window_bits` with the value 15.
pub open spec fn accepted_param(p: ParamModel) -> bool {
    ||| p.name == "client_max_window_bits"@
    ||| p.name == "client_no_context_takeover"@
    ||| p.name == "server_no_context_takeover"@
    ||| (p.name == "server_max_window_bits"@ && p.value == Some("15"@))
}

/// The server's negotiation keeps what its answer held and, over
/// parameters it accepts, enables the extension and answers each
/// `*_no_context_takeover` it received (and `server_max_window_bits=15`).
proof fn lemma_negotiation_accepts(ps: Seq<ParamModel>, s: DeflateState)
    requires
        forall|i: int| 0 <= i < ps.len() ==> accepted_param(#[trigger] ps[i]),
    ensures
        server_negotiation(ps, s).enabled,
        forall|x: ParamModel|
            s.server_params.contains(x) ==> server_negotiation(ps, s).server_params.contains(x),
        forall|i: int|
            0 <= i < ps.len() && (#[trigger] ps[i]).name == "client_no_context_takeover"@
                ==> server_negotiation(ps, s).server_params.contains(
                ParamModel { name: "client_no_context_takeover"@, value: None },
            ),
        forall|i: int|
            0 <= i < ps.len() && (#[trigger] ps[i]).name == "server_no_context_takeover"@
                ==> server_negotiation(ps, s).server_params.contains(
                ParamModel { name: "server_no_context_takeover"@, value: None },
            ),
        forall|i: int|
            0 <= i < ps.len() && (#[trigger] ps[i]).name == "server_max_window_bits"@
                ==> server_negotiation(ps, s).server_params.contains(
                ParamModel { name: "server_max_window_bits"@, value: Some("15"@) },
            ),
    decreases ps.len(),
{
    reveal_strlit("15");
    reveal_strlit("client_max_window_bits");
    reveal_strlit("client_no_context_takeover");
    reveal_strlit("server_no_context_takeover");
    reveal_strlit("server_max_window_bits");
    let cm = "client_max_window_bits"@;
    let sm = "server_max_window_bits"@;
    let cn = "client_no_context_takeover"@;
    let sn = "server_no_context_takeover"@;
    assert(cm[0] != sm[0] && cm[0] != sn[0] && cn[0] != sm[0] && cn[0] != sn[0]);
    assert(cm[7] != cn[7] && sm[7] != sn[7]);
    assert(cm != sm && cm != cn && cm != sn && sm != cn && sm != sn && cn != sn);
    if ps.len() > 0 {
        let p = ps[0];
        let rest = ps.drop_first();
        assert(accepted_param(ps[0]));
        assert forall|i: int| 0 <= i < rest.len() implies accepted_param(#[trigger] rest[i]) by {
            assert(rest[i] == ps[i + 1]);
        }
        let s2 = if p.name == "client_max_window_bits"@ {
            s
        } else if p.name == "server_max_window_bits"@ {
            assert(parsed_u8("15"@) == Some(15u8)) by {
                let d = "15"@;
                assert(d.len() == 2);
                assert(all_digits(d));
                assert(d.drop_last().len() == 1);
                assert(d.drop_last().drop_last().len() == 0);
                assert(digits_value(d.drop_last().drop_last()) == 0);
                assert(digits_value(d.drop_last()) == 1);
                assert(digits_value(d) == 15);
            }
            DeflateState {
                server_params: s.server_params.push(
                    ParamModel { name: "server_max_window_bits"@, value: Some("15"@) },
                ),
                server_max_window_bits: 15,
                ..s
            }
        } else if p.name == "client_no_context_takeover"@ {
            DeflateState {
                server_params: s.server_params.push(flag("client_no_context_takeover"@)),
                ..s
            }
        } else {
            DeflateState {
                server_params: s.server_params.push(flag("server_no_context_takeover"@)),
                ..s
            }
        };
        assert(server_negotiation(ps, s) == server_negotiation(rest, s2));
        assert forall|x: ParamModel| s.server_params.contains(x) implies s2.server_params.contains(x) by {
            let k = choose|k: int| 0 <= k < s.server_params.len() && s.server_params[k] == x;
            assert(s2.server_params[k] == x);
        }
        let cnp = ParamModel { name: cn, value: None };
        let snp = ParamModel { name: sn, value: None };
        let smp = ParamModel { name: sm, value: Some("15"@) };
        if p.name == cn {
            assert(s2.server_params[s2.server_params.len() - 1] == cnp);
            assert(s2.server_params.contains(cnp));
        }
        if p.name == sn {
            assert(s2.server_params[s2.server_params.len() - 1] == snp);
            assert(s2.server_params.contains(snp));
        }
        if p.name == sm {
            assert(s2.server_params[s2.server_params.len() - 1] == smp);
            assert(s2.server_params.contains(smp));
        }
        lemma_negotiation_accepts(rest, s2);
        let fin = server_negotiation(ps, s).server_params;
        assert forall|i: int| 0 <= i < ps.len() && (#[trigger] ps[i]).name == cn implies fin.contains(
            cnp,
        ) by {
            if i > 0 {
                assert(rest[i - 1] == ps[i]);
            }
        }
        assert forall|i: int| 0 <= i < ps.len() && (#[trigger] ps[i]).name == sn implies fin.contains(
            snp,
        ) by {
            if i > 0 {
                assert(rest[i - 1] == ps[i]);
            }
        }
        assert forall|i: int| 0 <= i < ps.len() && (#[trigger] ps[i]).name == sm implies fin.contains(
            smp,
        ) by {
            if i > 0 {
                assert(rest[i - 1] == ps[i]);
            }
        }
    }
}

/// A server configured with parameters it accepts (see `accepted_param`)
/// is enabled, and its answer holds each `*_no_context_takeover` it
/// received (and `server_max_window_bits=15` if that was received).
pub proof fn lemma_server_accepts_known_params(ps: Seq<ParamModel>, s: DeflateState)
    requires
        forall|i: int| 0 <= i < ps.len() ==> accepted_param(#[trigger] ps[i]),
    ensures
        configured(Mode::Server, ps, s).enabled,
        forall|i: int|
            0 <= i < ps.len() && (#[trigger] ps[i]).name == "client_no_context_takeover"@
                ==> configured(Mode::Server, ps, s).server_params.contains(
                ParamModel { name: "client_no_context_takeover"@, value: None },
            ),
        forall|i: int|
            0 <= i < ps.len() && (#[trigger] ps[i]).name == "server_no_context_takeover"@
                ==> configured(Mode::Server, ps, s).server_params.contains(
                ParamModel { name: "server_no_context_takeover"@, value: None },
            ),
        forall|i: int|
            0 <= i < ps.len() && (#[trigger] ps[i]).name == "server_max_window_bits"@
                ==> configured(Mode::Server, ps, s).server_params.contains(
                ParamModel { name: "server_max_window_bits"@, value: Some("15"@) },
            ),
{
    lemma_negotiation_accepts(
        ps,
        DeflateState { enabled: false, server_params: Seq::empty(), ..s },
    );
}

} // verus!
