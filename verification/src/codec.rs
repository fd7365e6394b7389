//! Canonical byte representation of session records.
//!
//! Every field is written in a fixed order: integers as 8-byte
//! little-endian words, strings as a length word followed by their UTF-8
//! bytes, options as a tag byte followed by the payload.  The decoder
//! accepts exactly the encodings the encoder produces; the round-trip
//! lemmas at the bottom prove that decoding an encoding yields the
//! original record.
use vstd::prelude::*;

use vstd::bytes::{
    lemma_auto_spec_u64_to_from_le_bytes, spec_u64_from_le_bytes, spec_u64_to_le_bytes,
    u64_from_le_bytes, u64_to_le_bytes,
};
use vstd::slice::{slice_subrange, slice_to_vec};
use vstd::string::StrSliceExecFns;
use vstd::utf8::{decode_utf8, encode_utf8, encode_utf8_decode_utf8, encode_utf8_valid_utf8,
    valid_utf8};

use crate::session::{
    AuthSession, AuthSessionView, AuthToken, AuthTokenView, DeviceInfo, DeviceInfoView,
    PKCEChallenge, PKCEChallengeView,
};

verus! {

// ---------------------------------------------------------------------
// Specification-level encoders
// ---------------------------------------------------------------------
pub open spec fn spec_enc_u64(x: u64) -> Seq<u8> {
    spec_u64_to_le_bytes(x)
}

pub open spec fn spec_enc_i64(x: i64) -> Seq<u8> {
    spec_enc_u64(x as u64)
}

pub open spec fn spec_enc_str(s: Seq<char>) -> Seq<u8> {
    spec_enc_u64(encode_utf8(s).len() as u64) + encode_utf8(s)
}

pub open spec fn spec_enc_opt_str(s: Option<Seq<char>>) -> Seq<u8> {
    match s {
        Option::None => seq![0u8],
        Option::Some(v) => seq![1u8] + spec_enc_str(v),
    }
}

pub open spec fn spec_enc_device(d: DeviceInfoView) -> Seq<u8> {
    spec_enc_str(d.device_id) + spec_enc_str(d.device_name) + spec_enc_str(d.platform)
        + spec_enc_opt_str(d.user_agent)
}

pub open spec fn spec_enc_token(t: AuthTokenView) -> Seq<u8> {
    spec_enc_str(t.access_token) + spec_enc_str(t.refresh_token) + spec_enc_i64(t.expires_at)
        + spec_enc_str(t.token_type) + spec_enc_opt_str(t.scope)
}

pub open spec fn spec_enc_opt_token(t: Option<AuthTokenView>) -> Seq<u8> {
    match t {
        Option::None => seq![0u8],
        Option::Some(v) => seq![1u8] + spec_enc_token(v),
    }
}

pub open spec fn spec_enc_pkce(p: PKCEChallengeView) -> Seq<u8> {
    spec_enc_str(p.verifier) + spec_enc_str(p.challenge) + spec_enc_str(p.method) + spec_enc_i64(
        p.expires_at,
    )
}

pub open spec fn spec_enc_opt_pkce(p: Option<PKCEChallengeView>) -> Seq<u8> {
    match p {
        Option::None => seq![0u8],
        Option::Some(v) => seq![1u8] + spec_enc_pkce(v),
    }
}

pub open spec fn spec_enc_session(s: AuthSessionView) -> Seq<u8> {
    spec_enc_str(s.id) + spec_enc_opt_str(s.user_id) + spec_enc_opt_str(s.email)
        + spec_enc_opt_str(s.wallet_address) + spec_enc_opt_token(s.tokens) + spec_enc_opt_pkce(
        s.pkce,
    ) + spec_enc_str(s.state) + spec_enc_i64(s.created_at) + spec_enc_i64(s.expires_at)
        + spec_enc_device(s.device_info)
}

// ---------------------------------------------------------------------
// Specification-level decoders (value plus remainder)
// ---------------------------------------------------------------------
pub open spec fn sdec_u8(b: Seq<u8>) -> Option<(u8, Seq<u8>)> {
    if b.len() >= 1 {
        Option::Some((b[0], b.skip(1)))
    } else {
        Option::None
    }
}

pub open spec fn sdec_u64(b: Seq<u8>) -> Option<(u64, Seq<u8>)> {
    if b.len() >= 8 {
        Option::Some((spec_u64_from_le_bytes(b.take(8)), b.skip(8)))
    } else {
        Option::None
    }
}

pub open spec fn sdec_i64(b: Seq<u8>) -> Option<(i64, Seq<u8>)> {
    match sdec_u64(b) {
        Option::Some((x, r)) => Option::Some((x as i64, r)),
        Option::None => Option::None,
    }
}

pub open spec fn sdec_str(b: Seq<u8>) -> Option<(Seq<char>, Seq<u8>)> {
    match sdec_u64(b) {
        Option::Some((n, r)) => if n as int <= r.len() as int {
            if valid_utf8(r.take(n as int)) {
                Option::Some((decode_utf8(r.take(n as int)), r.skip(n as int)))
            } else {
                Option::None
            }
        } else {
            Option::None
        },
        Option::None => Option::None,
    }
}

pub open spec fn sdec_opt_str(b: Seq<u8>) -> Option<(Option<Seq<char>>, Seq<u8>)> {
    match sdec_u8(b) {
        Option::Some((tag, r)) => if tag == 0 {
            Option::Some((Option::None, r))
        } else if tag == 1 {
            match sdec_str(r) {
                Option::Some((s, r2)) => Option::Some((Option::Some(s), r2)),
                Option::None => Option::None,
            }
        } else {
            Option::None
        },
        Option::None => Option::None,
    }
}

pub open spec fn sdec_device(b: Seq<u8>) -> Option<(DeviceInfoView, Seq<u8>)> {
    match sdec_str(b) {
        Option::None => Option::None,
        Option::Some((device_id, b1)) => match sdec_str(b1) {
            Option::None => Option::None,
            Option::Some((device_name, b2)) => match sdec_str(b2) {
                Option::None => Option::None,
                Option::Some((platform, b3)) => match sdec_opt_str(b3) {
                    Option::None => Option::None,
                    Option::Some((user_agent, b4)) => Option::Some(
                        (DeviceInfoView { device_id, device_name, platform, user_agent }, b4),
                    ),
                },
            },
        },
    }
}

pub open spec fn sdec_token(b: Seq<u8>) -> Option<(AuthTokenView, Seq<u8>)> {
    match sdec_str(b) {
        Option::None => Option::None,
        Option::Some((access_token, b1)) => match sdec_str(b1) {
            Option::None => Option::None,
            Option::Some((refresh_token, b2)) => match sdec_i64(b2) {
                Option::None => Option::None,
                Option::Some((expires_at, b3)) => match sdec_str(b3) {
                    Option::None => Option::None,
                    Option::Some((token_type, b4)) => match sdec_opt_str(b4) {
                        Option::None => Option::None,
                        Option::Some((scope, b5)) => Option::Some(
                            (
                                AuthTokenView {
                                    access_token,
                                    refresh_token,
                                    expires_at,
                                    token_type,
                                    scope,
                                },
                                b5,
                            ),
                        ),
                    },
                },
            },
        },
    }
}

pub open spec fn sdec_opt_token(b: Seq<u8>) -> Option<(Option<AuthTokenView>, Seq<u8>)> {
    match sdec_u8(b) {
        Option::Some((tag, r)) => if tag == 0 {
            Option::Some((Option::None, r))
        } else if tag == 1 {
            match sdec_token(r) {
                Option::Some((t, r2)) => Option::Some((Option::Some(t), r2)),
                Option::None => Option::None,
            }
        } else {
            Option::None
        },
        Option::None => Option::None,
    }
}

pub open spec fn sdec_pkce(b: Seq<u8>) -> Option<(PKCEChallengeView, Seq<u8>)> {
    match sdec_str(b) {
        Option::None => Option::None,
        Option::Some((verifier, b1)) => match sdec_str(b1) {
            Option::None => Option::None,
            Option::Some((challenge, b2)) => match sdec_str(b2) {
                Option::None => Option::None,
                Option::Some((method, b3)) => match sdec_i64(b3) {
                    Option::None => Option::None,
                    Option::Some((expires_at, b4)) => Option::Some(
                        (PKCEChallengeView { verifier, challenge, method, expires_at }, b4),
                    ),
                },
            },
        },
    }
}

pub open spec fn sdec_opt_pkce(b: Seq<u8>) -> Option<(Option<PKCEChallengeView>, Seq<u8>)> {
    match sdec_u8(b) {
        Option::Some((tag, r)) => if tag == 0 {
            Option::Some((Option::None, r))
        } else if tag == 1 {
            match sdec_pkce(r) {
                Option::Some((p, r2)) => Option::Some((Option::Some(p), r2)),
                Option::None => Option::None,
            }
        } else {
            Option::None
        },
        Option::None => Option::None,
    }
}

pub open spec fn sdec_session(b: Seq<u8>) -> Option<(AuthSessionView, Seq<u8>)> {
    match sdec_str(b) {
        Option::None => Option::None,
        Option::Some((id, b1)) => match sdec_opt_str(b1) {
            Option::None => Option::None,
            Option::Some((user_id, b2)) => match sdec_opt_str(b2) {
                Option::None => Option::None,
                Option::Some((email, b3)) => match sdec_opt_str(b3) {
                    Option::None => Option::None,
                    Option::Some((wallet_address, b4)) => match sdec_opt_token(b4) {
                        Option::None => Option::None,
                        Option::Some((tokens, b5)) => match sdec_opt_pkce(b5) {
                            Option::None => Option::None,
                            Option::Some((pkce, b6)) => match sdec_str(b6) {
                                Option::None => Option::None,
                                Option::Some((state, b7)) => match sdec_i64(b7) {
                                    Option::None => Option::None,
                                    Option::Some((created_at, b8)) => match sdec_i64(b8) {
                                        Option::None => Option::None,
                                        Option::Some((expires_at, b9)) => match sdec_device(b9) {
                                            Option::None => Option::None,
                                            Option::Some((device_info, b10)) => Option::Some(
                                                (
                                                    AuthSessionView {
                                                        id,
                                                        user_id,
                                                        email,
                                                        wallet_address,
                                                        tokens,
                                                        pkce,
                                                        state,
                                                        created_at,
                                                        expires_at,
                                                        device_info,
                                                    },
                                                    b10,
                                                ),
                                            ),
                                        },
                                    },
                                },
                            },
                        },
                    },
                },
            },
        },
    }
}

/// The whole-buffer decoder: a record followed by anything is rejected.
pub open spec fn spec_decode_session(b: Seq<u8>) -> Option<AuthSessionView> {
    match sdec_session(b) {
        Option::Some((v, rest)) => if rest.len() == 0 {
            Option::Some(v)
        } else {
            Option::None
        },
        Option::None => Option::None,
    }
}

// ---------------------------------------------------------------------
// Encoding size limits: a record encodes faithfully when every string's
// UTF-8 image fits the length word.  Exec-built values always do.
// ---------------------------------------------------------------------
pub open spec fn str_enc_ok(s: Seq<char>) -> bool {
    encode_utf8(s).len() <= u64::MAX
}

pub open spec fn opt_str_enc_ok(s: Option<Seq<char>>) -> bool {
    match s {
        Option::Some(v) => str_enc_ok(v),
        Option::None => true,
    }
}

pub open spec fn device_enc_ok(d: DeviceInfoView) -> bool {
    &&& str_enc_ok(d.device_id)
    &&& str_enc_ok(d.device_name)
    &&& str_enc_ok(d.platform)
    &&& opt_str_enc_ok(d.user_agent)
}

pub open spec fn token_enc_ok(t: AuthTokenView) -> bool {
    &&& str_enc_ok(t.access_token)
    &&& str_enc_ok(t.refresh_token)
    &&& str_enc_ok(t.token_type)
    &&& opt_str_enc_ok(t.scope)
}

pub open spec fn pkce_enc_ok(p: PKCEChallengeView) -> bool {
    &&& str_enc_ok(p.verifier)
    &&& str_enc_ok(p.challenge)
    &&& str_enc_ok(p.method)
}

pub open spec fn session_enc_ok(s: AuthSessionView) -> bool {
    &&& str_enc_ok(s.id)
    &&& opt_str_enc_ok(s.user_id)
    &&& opt_str_enc_ok(s.email)
    &&& opt_str_enc_ok(s.wallet_address)
    &&& match s.tokens {
        Option::Some(t) => token_enc_ok(t),
        Option::None => true,
    }
    &&& match s.pkce {
        Option::Some(p) => pkce_enc_ok(p),
        Option::None => true,
    }
    &&& str_enc_ok(s.state)
    &&& device_enc_ok(s.device_info)
}

// ---------------------------------------------------------------------
// Executable encoders
// ---------------------------------------------------------------------
fn enc_u64(out: &mut Vec<u8>, x: u64)
    ensures
        final(out)@ == old(out)@ + spec_enc_u64(x),
{
    let mut b = u64_to_le_bytes(x);
    out.append(&mut b);
}

fn enc_i64(out: &mut Vec<u8>, x: i64)
    ensures
        final(out)@ == old(out)@ + spec_enc_i64(x),
{
    enc_u64(out, x as u64);
}

fn enc_str(out: &mut Vec<u8>, s: &str)
    ensures
        final(out)@ == old(out)@ + spec_enc_str(s@),
        str_enc_ok(s@),
{
    let mut bs = s.as_bytes_vec();
    let n: u64 = bs.len() as u64;
    enc_u64(out, n);
    out.append(&mut bs);
}

fn enc_opt_str(out: &mut Vec<u8>, s: &Option<String>)
    ensures
        final(out)@ == old(out)@ + spec_enc_opt_str(
            match *s {
                Option::Some(ref v) => Option::Some(v@),
                Option::None => Option::None,
            },
        ),
        opt_str_enc_ok(
            match *s {
                Option::Some(ref v) => Option::Some(v@),
                Option::None => Option::None,
            },
        ),
{
    match s {
        Option::None => {
            out.push(0u8);
            assert(out@ =~= old(out)@ + seq![0u8]);
        },
        Option::Some(v) => {
            out.push(1u8);
            enc_str(out, v.as_str());
            assert(out@ =~= old(out)@ + (seq![1u8] + spec_enc_str(v@)));
        },
    }
}

fn enc_device(out: &mut Vec<u8>, d: &DeviceInfo)
    ensures
        final(out)@ == old(out)@ + spec_enc_device(d@),
        device_enc_ok(d@),
{
    enc_str(out, d.device_id.as_str());
    enc_str(out, d.device_name.as_str());
    enc_str(out, d.platform.as_str());
    enc_opt_str(out, &d.user_agent);
    assert(out@ =~= old(out)@ + spec_enc_device(d@));
}

fn enc_token(out: &mut Vec<u8>, t: &AuthToken)
    ensures
        final(out)@ == old(out)@ + spec_enc_token(t@),
        token_enc_ok(t@),
{
    enc_str(out, t.access_token.as_str());
    enc_str(out, t.refresh_token.as_str());
    enc_i64(out, t.expires_at);
    enc_str(out, t.token_type.as_str());
    enc_opt_str(out, &t.scope);
    assert(out@ =~= old(out)@ + spec_enc_token(t@));
}

fn enc_opt_token(out: &mut Vec<u8>, t: &Option<AuthToken>)
    ensures
        final(out)@ == old(out)@ + spec_enc_opt_token(
            match *t {
                Option::Some(ref v) => Option::Some(v@),
                Option::None => Option::None,
            },
        ),
        match *t {
            Option::Some(ref v) => token_enc_ok(v@),
            Option::None => true,
        },
{
    match t {
        Option::None => {
            out.push(0u8);
            assert(out@ =~= old(out)@ + seq![0u8]);
        },
        Option::Some(v) => {
            out.push(1u8);
            enc_token(out, v);
            assert(out@ =~= old(out)@ + (seq![1u8] + spec_enc_token(v@)));
        },
    }
}

fn enc_pkce(out: &mut Vec<u8>, p: &PKCEChallenge)
    ensures
        final(out)@ == old(out)@ + spec_enc_pkce(p@),
        pkce_enc_ok(p@),
{
    enc_str(out, p.verifier.as_str());
    enc_str(out, p.challenge.as_str());
    enc_str(out, p.method.as_str());
    enc_i64(out, p.expires_at);
    assert(out@ =~= old(out)@ + spec_enc_pkce(p@));
}

fn enc_opt_pkce(out: &mut Vec<u8>, p: &Option<PKCEChallenge>)
    ensures
        final(out)@ == old(out)@ + spec_enc_opt_pkce(
            match *p {
                Option::Some(ref v) => Option::Some(v@),
                Option::None => Option::None,
            },
        ),
        match *p {
            Option::Some(ref v) => pkce_enc_ok(v@),
            Option::None => true,
        },
{
    match p {
        Option::None => {
            out.push(0u8);
            assert(out@ =~= old(out)@ + seq![0u8]);
        },
        Option::Some(v) => {
            out.push(1u8);
            enc_pkce(out, v);
            assert(out@ =~= old(out)@ + (seq![1u8] + spec_enc_pkce(v@)));
        },
    }
}

/// Serialize a session record to its canonical byte representation.
pub fn encode_session(s: &AuthSession) -> (r: Vec<u8>)
    ensures
        r@ == spec_enc_session(s@),
        session_enc_ok(s@),
{
    let mut out: Vec<u8> = Vec::new();
    enc_str(&mut out, s.id.as_str());
    enc_opt_str(&mut out, &s.user_id);
    enc_opt_str(&mut out, &s.email);
    enc_opt_str(&mut out, &s.wallet_address);
    enc_opt_token(&mut out, &s.tokens);
    enc_opt_pkce(&mut out, &s.pkce);
    enc_str(&mut out, s.state.as_str());
    enc_i64(&mut out, s.created_at);
    enc_i64(&mut out, s.expires_at);
    enc_device(&mut out, &s.device_info);
    assert(out@ =~= spec_enc_session(s@));
    out
}

// ---------------------------------------------------------------------
// Executable decoders
// ---------------------------------------------------------------------
/// Relies on std's `String::from_utf8`: it returns the string whose UTF-8
/// encoding is `bytes`, and fails exactly when `bytes` is not valid UTF-8.
#[verifier::external_body]
pub(crate) fn string_from_utf8_checked(bytes: Vec<u8>) -> (r: Option<String>)
    ensures
        r is Some <==> valid_utf8(bytes@),
        match r {
            Option::Some(s) => s@ == decode_utf8(bytes@),
            Option::None => true,
        },
{
    match String::from_utf8(bytes) {
        Ok(s) => Some(s),
        Err(_) => None,
    }
}

fn dec_u8(data: &Vec<u8>, pos: usize) -> (r: Option<(u8, usize)>)
    requires
        pos <= data@.len(),
    ensures
        match r {
            Option::Some(vp) => pos <= vp.1 <= data@.len() && sdec_u8(data@.skip(pos as int))
                == Option::Some((vp.0, data@.skip(vp.1 as int))),
            Option::None => sdec_u8(data@.skip(pos as int)) is None,
        },
{
    if pos < data.len() {
        let b = data[pos];
        proof {
            assert(data@.skip(pos as int)[0] == data@[pos as int]);
            assert(data@.skip(pos as int).skip(1) =~= data@.skip(pos as int + 1));
        }
        Option::Some((b, pos + 1))
    } else {
        Option::None
    }
}

fn dec_u64(data: &Vec<u8>, pos: usize) -> (r: Option<(u64, usize)>)
    requires
        pos <= data@.len(),
    ensures
        match r {
            Option::Some(vp) => pos <= vp.1 <= data@.len() && sdec_u64(data@.skip(pos as int))
                == Option::Some((vp.0, data@.skip(vp.1 as int))),
            Option::None => sdec_u64(data@.skip(pos as int)) is None,
        },
{
    if data.len() - pos >= 8 {
        let sl = slice_subrange(data.as_slice(), pos, pos + 8);
        let x = u64_from_le_bytes(sl);
        proof {
            assert(data@.skip(pos as int).take(8) =~= data@.subrange(pos as int, pos as int + 8));
            assert(data@.skip(pos as int).skip(8) =~= data@.skip(pos as int + 8));
        }
        Option::Some((x, pos + 8))
    } else {
        Option::None
    }
}

fn dec_i64(data: &Vec<u8>, pos: usize) -> (r: Option<(i64, usize)>)
    requires
        pos <= data@.len(),
    ensures
        match r {
            Option::Some(vp) => pos <= vp.1 <= data@.len() && sdec_i64(data@.skip(pos as int))
                == Option::Some((vp.0, data@.skip(vp.1 as int))),
            Option::None => sdec_i64(data@.skip(pos as int)) is None,
        },
{
    match dec_u64(data, pos) {
        Option::Some((x, p)) => Option::Some((x as i64, p)),
        Option::None => Option::None,
    }
}

fn dec_str(data: &Vec<u8>, pos: usize) -> (r: Option<(String, usize)>)
    requires
        pos <= data@.len(),
    ensures
        match r {
            Option::Some(vp) => pos <= vp.1 <= data@.len() && sdec_str(data@.skip(pos as int))
                == Option::Some((vp.0@, data@.skip(vp.1 as int))),
            Option::None => sdec_str(data@.skip(pos as int)) is None,
        },
{
    let (n, p1) = match dec_u64(data, pos) {
        Option::Some(x) => x,
        Option::None => {
            return Option::None;
        },
    };
    let rem: usize = data.len() - p1;
    if n > rem as u64 {
        return Option::None;
    }
    let n_us: usize = n as usize;
    let end: usize = p1 + n_us;
    let bytes = slice_to_vec(slice_subrange(data.as_slice(), p1, end));
    proof {
        assert(bytes@ =~= data@.skip(p1 as int).take(n as int));
        assert(data@.skip(p1 as int).skip(n as int) =~= data@.skip(end as int));
    }
    match string_from_utf8_checked(bytes) {
        Option::Some(s) => Option::Some((s, end)),
        Option::None => Option::None,
    }
}

fn dec_opt_str(data: &Vec<u8>, pos: usize) -> (r: Option<(Option<String>, usize)>)
    requires
        pos <= data@.len(),
    ensures
        match r {
            Option::Some(vp) => pos <= vp.1 <= data@.len() && sdec_opt_str(data@.skip(pos as int))
                == Option::Some(
                (
                    match vp.0 {
                        Option::Some(ref v) => Option::Some(v@),
                        Option::None => Option::None,
                    },
                    data@.skip(vp.1 as int),
                ),
            ),
            Option::None => sdec_opt_str(data@.skip(pos as int)) is None,
        },
{
    let (tag, p1) = match dec_u8(data, pos) {
        Option::Some(x) => x,
        Option::None => {
            return Option::None;
        },
    };
    if tag == 0 {
        Option::Some((Option::None, p1))
    } else if tag == 1 {
        match dec_str(data, p1) {
            Option::Some((s, p2)) => Option::Some((Option::Some(s), p2)),
            Option::None => Option::None,
        }
    } else {
        Option::None
    }
}

fn dec_device(data: &Vec<u8>, pos: usize) -> (r: Option<(DeviceInfo, usize)>)
    requires
        pos <= data@.len(),
    ensures
        match r {
            Option::Some(vp) => pos <= vp.1 <= data@.len() && sdec_device(data@.skip(pos as int))
                == Option::Some((vp.0@, data@.skip(vp.1 as int))),
            Option::None => sdec_device(data@.skip(pos as int)) is None,
        },
{
    let (device_id, p1) = match dec_str(data, pos) {
        Option::Some(x) => x,
        Option::None => {
            return Option::None;
        },
    };
    let (device_name, p2) = match dec_str(data, p1) {
        Option::Some(x) => x,
        Option::None => {
            return Option::None;
        },
    };
    let (platform, p3) = match dec_str(data, p2) {
        Option::Some(x) => x,
        Option::None => {
            return Option::None;
        },
    };
    let (user_agent, p4) = match dec_opt_str(data, p3) {
        Option::Some(x) => x,
        Option::None => {
            return Option::None;
        },
    };
    Option::Some((DeviceInfo { device_id, device_name, platform, user_agent }, p4))
}

fn dec_token(data: &Vec<u8>, pos: usize) -> (r: Option<(AuthToken, usize)>)
    requires
        pos <= data@.len(),
    ensures
        match r {
            Option::Some(vp) => pos <= vp.1 <= data@.len() && sdec_token(data@.skip(pos as int))
                == Option::Some((vp.0@, data@.skip(vp.1 as int))),
            Option::None => sdec_token(data@.skip(pos as int)) is None,
        },
{
    let (access_token, p1) = match dec_str(data, pos) {
        Option::Some(x) => x,
        Option::None => {
            return Option::None;
        },
    };
    let (refresh_token, p2) = match dec_str(data, p1) {
        Option::Some(x) => x,
        Option::None => {
            return Option::None;
        },
    };
    let (expires_at, p3) = match dec_i64(data, p2) {
        Option::Some(x) => x,
        Option::None => {
            return Option::None;
        },
    };
    let (token_type, p4) = match dec_str(data, p3) {
        Option::Some(x) => x,
        Option::None => {
            return Option::None;
        },
    };
    let (scope, p5) = match dec_opt_str(data, p4) {
        Option::Some(x) => x,
        Option::None => {
            return Option::None;
        },
    };
    Option::Some((AuthToken { access_token, refresh_token, expires_at, token_type, scope }, p5))
}

fn dec_opt_token(data: &Vec<u8>, pos: usize) -> (r: Option<(Option<AuthToken>, usize)>)
    requires
        pos <= data@.len(),
    ensures
        match r {
            Option::Some(vp) => pos <= vp.1 <= data@.len() && sdec_opt_token(
                data@.skip(pos as int),
            ) == Option::Some(
                (
                    match vp.0 {
                        Option::Some(ref v) => Option::Some(v@),
                        Option::None => Option::None,
                    },
                    data@.skip(vp.1 as int),
                ),
            ),
            Option::None => sdec_opt_token(data@.skip(pos as int)) is None,
        },
{
    let (tag, p1) = match dec_u8(data, pos) {
        Option::Some(x) => x,
        Option::None => {
            return Option::None;
        },
    };
    if tag == 0 {
        Option::Some((Option::None, p1))
    } else if tag == 1 {
        match dec_token(data, p1) {
            Option::Some((t, p2)) => Option::Some((Option::Some(t), p2)),
            Option::None => Option::None,
        }
    } else {
        Option::None
    }
}

fn dec_pkce(data: &Vec<u8>, pos: usize) -> (r: Option<(PKCEChallenge, usize)>)
    requires
        pos <= data@.len(),
    ensures
        match r {
            Option::Some(vp) => pos <= vp.1 <= data@.len() && sdec_pkce(data@.skip(pos as int))
                == Option::Some((vp.0@, data@.skip(vp.1 as int))),
            Option::None => sdec_pkce(data@.skip(pos as int)) is None,
        },
{
    let (verifier, p1) = match dec_str(data, pos) {
        Option::Some(x) => x,
        Option::None => {
            return Option::None;
        },
    };
    let (challenge, p2) = match dec_str(data, p1) {
        Option::Some(x) => x,
        Option::None => {
            return Option::None;
        },
    };
    let (method, p3) = match dec_str(data, p2) {
        Option::Some(x) => x,
        Option::None => {
            return Option::None;
        },
    };
    let (expires_at, p4) = match dec_i64(data, p3) {
        Option::Some(x) => x,
        Option::None => {
            return Option::None;
        },
    };
    Option::Some((PKCEChallenge { verifier, challenge, method, expires_at }, p4))
}

fn dec_opt_pkce(data: &Vec<u8>, pos: usize) -> (r: Option<(Option<PKCEChallenge>, usize)>)
    requires
        pos <= data@.len(),
    ensures
        match r {
            Option::Some(vp) => pos <= vp.1 <= data@.len() && sdec_opt_pkce(
                data@.skip(pos as int),
            ) == Option::Some(
                (
                    match vp.0 {
                        Option::Some(ref v) => Option::Some(v@),
                        Option::None => Option::None,
                    },
                    data@.skip(vp.1 as int),
                ),
            ),
            Option::None => sdec_opt_pkce(data@.skip(pos as int)) is None,
        },
{
    let (tag, p1) = match dec_u8(data, pos) {
        Option::Some(x) => x,
        Option::None => {
            return Option::None;
        },
    };
    if tag == 0 {
        Option::Some((Option::None, p1))
    } else if tag == 1 {
        match dec_pkce(data, p1) {
            Option::Some((p, p2)) => Option::Some((Option::Some(p), p2)),
            Option::None => Option::None,
        }
    } else {
        Option::None
    }
}

fn dec_session(data: &Vec<u8>, pos: usize) -> (r: Option<(AuthSession, usize)>)
    requires
        pos <= data@.len(),
    ensures
        match r {
            Option::Some(vp) => pos <= vp.1 <= data@.len() && sdec_session(data@.skip(pos as int))
                == Option::Some((vp.0@, data@.skip(vp.1 as int))),
            Option::None => sdec_session(data@.skip(pos as int)) is None,
        },
{
    let (id, p1) = match dec_str(data, pos) {
        Option::Some(x) => x,
        Option::None => {
            return Option::None;
        },
    };
    let (user_id, p2) = match dec_opt_str(data, p1) {
        Option::Some(x) => x,
        Option::None => {
            return Option::None;
        },
    };
    let (email, p3) = match dec_opt_str(data, p2) {
        Option::Some(x) => x,
        Option::None => {
            return Option::None;
        },
    };
    let (wallet_address, p4) = match dec_opt_str(data, p3) {
        Option::Some(x) => x,
        Option::None => {
            return Option::None;
        },
    };
    let (tokens, p5) = match dec_opt_token(data, p4) {
        Option::Some(x) => x,
        Option::None => {
            return Option::None;
        },
    };
    let (pkce, p6) = match dec_opt_pkce(data, p5) {
        Option::Some(x) => x,
        Option::None => {
            return Option::None;
        },
    };
    let (state, p7) = match dec_str(data, p6) {
        Option::Some(x) => x,
        Option::None => {
            return Option::None;
        },
    };
    let (created_at, p8) = match dec_i64(data, p7) {
        Option::Some(x) => x,
        Option::None => {
            return Option::None;
        },
    };
    let (expires_at, p9) = match dec_i64(data, p8) {
        Option::Some(x) => x,
        Option::None => {
            return Option::None;
        },
    };
    let (device_info, p10) = match dec_device(data, p9) {
        Option::Some(x) => x,
        Option::None => {
            return Option::None;
        },
    };
    Option::Some(
        (
            AuthSession {
                id,
                user_id,
                email,
                wallet_address,
                tokens,
                pkce,
                state,
                created_at,
                expires_at,
                device_info,
            },
            p10,
        ),
    )
}

/// Parse a canonical byte representation back into a session record.
/// Trailing bytes after the record are rejected.
pub fn decode_session(data: &Vec<u8>) -> (r: Option<AuthSession>)
    ensures
        match r {
            Option::Some(s) => spec_decode_session(data@) == Option::Some(s@),
            Option::None => spec_decode_session(data@) is None,
        },
{
    proof {
        assert(data@.skip(0) =~= data@);
    }
    match dec_session(data, 0) {
        Option::Some((s, p)) => {
            if p == data.len() {
                proof {
                    assert(data@.skip(p as int).len() == 0);
                }
                Option::Some(s)
            } else {
                proof {
                    assert(data@.skip(p as int).len() > 0);
                }
                Option::None
            }
        },
        Option::None => Option::None,
    }
}

// ---------------------------------------------------------------------
// Round-trip lemmas: decoding an encoding yields the original value.
// ---------------------------------------------------------------------
proof fn lemma_rt_u8(t: u8, rest: Seq<u8>)
    ensures
        sdec_u8(seq![t] + rest) == Option::Some((t, rest)),
{
    assert((seq![t] + rest)[0] == t);
    assert((seq![t] + rest).skip(1) =~= rest);
}

proof fn lemma_rt_u64(x: u64, rest: Seq<u8>)
    ensures
        sdec_u64(spec_enc_u64(x) + rest) == Option::Some((x, rest)),
{
    lemma_auto_spec_u64_to_from_le_bytes();
    assert((spec_enc_u64(x) + rest).take(8) =~= spec_enc_u64(x));
    assert((spec_enc_u64(x) + rest).skip(8) =~= rest);
}

proof fn lemma_rt_i64(x: i64, rest: Seq<u8>)
    ensures
        sdec_i64(spec_enc_i64(x) + rest) == Option::Some((x, rest)),
{
    lemma_rt_u64(x as u64, rest);
    assert(x as u64 as i64 == x) by (bit_vector);
}

proof fn lemma_rt_str(s: Seq<char>, rest: Seq<u8>)
    requires
        str_enc_ok(s),
    ensures
        sdec_str(spec_enc_str(s) + rest) == Option::Some((s, rest)),
{
    let bs = encode_utf8(s);
    let n: u64 = bs.len() as u64;
    assert(spec_enc_str(s) + rest =~= spec_enc_u64(n) + (bs + rest));
    lemma_rt_u64(n, bs + rest);
    assert((bs + rest).take(n as int) =~= bs);
    assert((bs + rest).skip(n as int) =~= rest);
    encode_utf8_valid_utf8(s);
    encode_utf8_decode_utf8(s);
}

proof fn lemma_rt_opt_str(s: Option<Seq<char>>, rest: Seq<u8>)
    requires
        opt_str_enc_ok(s),
    ensures
        sdec_opt_str(spec_enc_opt_str(s) + rest) == Option::Some((s, rest)),
{
    match s {
        Option::None => {
            assert(spec_enc_opt_str(s) + rest =~= seq![0u8] + rest);
            lemma_rt_u8(0u8, rest);
        },
        Option::Some(v) => {
            assert(spec_enc_opt_str(s) + rest =~= seq![1u8] + (spec_enc_str(v) + rest));
            lemma_rt_u8(1u8, spec_enc_str(v) + rest);
            lemma_rt_str(v, rest);
        },
    }
}

proof fn lemma_rt_device(d: DeviceInfoView, rest: Seq<u8>)
    requires
        device_enc_ok(d),
    ensures
        sdec_device(spec_enc_device(d) + rest) == Option::Some((d, rest)),
{
    let r3 = spec_enc_opt_str(d.user_agent) + rest;
    let r2 = spec_enc_str(d.platform) + r3;
    let r1 = spec_enc_str(d.device_name) + r2;
    assert(spec_enc_device(d) + rest =~= spec_enc_str(d.device_id) + r1);
    lemma_rt_str(d.device_id, r1);
    lemma_rt_str(d.device_name, r2);
    lemma_rt_str(d.platform, r3);
    lemma_rt_opt_str(d.user_agent, rest);
}

proof fn lemma_rt_token(t: AuthTokenView, rest: Seq<u8>)
    requires
        token_enc_ok(t),
    ensures
        sdec_token(spec_enc_token(t) + rest) == Option::Some((t, rest)),
{
    let r4 = spec_enc_opt_str(t.scope) + rest;
    let r3 = spec_enc_str(t.token_type) + r4;
    let r2 = spec_enc_i64(t.expires_at) + r3;
    let r1 = spec_enc_str(t.refresh_token) + r2;
    assert(spec_enc_token(t) + rest =~= spec_enc_str(t.access_token) + r1);
    lemma_rt_str(t.access_token, r1);
    lemma_rt_str(t.refresh_token, r2);
    lemma_rt_i64(t.expires_at, r3);
    lemma_rt_str(t.token_type, r4);
    lemma_rt_opt_str(t.scope, rest);
}

proof fn lemma_rt_opt_token(t: Option<AuthTokenView>, rest: Seq<u8>)
    requires
        match t {
            Option::Some(v) => token_enc_ok(v),
            Option::None => true,
        },
    ensures
        sdec_opt_token(spec_enc_opt_token(t) + rest) == Option::Some((t, rest)),
{
    match t {
        Option::None => {
            assert(spec_enc_opt_token(t) + rest =~= seq![0u8] + rest);
            lemma_rt_u8(0u8, rest);
        },
        Option::Some(v) => {
            assert(spec_enc_opt_token(t) + rest =~= seq![1u8] + (spec_enc_token(v) + rest));
            lemma_rt_u8(1u8, spec_enc_token(v) + rest);
            lemma_rt_token(v, rest);
        },
    }
}

proof fn lemma_rt_pkce(p: PKCEChallengeView, rest: Seq<u8>)
    requires
        pkce_enc_ok(p),
    ensures
        sdec_pkce(spec_enc_pkce(p) + rest) == Option::Some((p, rest)),
{
    let r3 = spec_enc_i64(p.expires_at) + rest;
    let r2 = spec_enc_str(p.method) + r3;
    let r1 = spec_enc_str(p.challenge) + r2;
    assert(spec_enc_pkce(p) + rest =~= spec_enc_str(p.verifier) + r1);
    lemma_rt_str(p.verifier, r1);
    lemma_rt_str(p.challenge, r2);
    lemma_rt_str(p.method, r3);
    lemma_rt_i64(p.expires_at, rest);
}

proof fn lemma_rt_opt_pkce(p: Option<PKCEChallengeView>, rest: Seq<u8>)
    requires
        match p {
            Option::Some(v) => pkce_enc_ok(v),
            Option::None => true,
        },
    ensures
        sdec_opt_pkce(spec_enc_opt_pkce(p) + rest) == Option::Some((p, rest)),
{
    match p {
        Option::None => {
            assert(spec_enc_opt_pkce(p) + rest =~= seq![0u8] + rest);
            lemma_rt_u8(0u8, rest);
        },
        Option::Some(v) => {
            assert(spec_enc_opt_pkce(p) + rest =~= seq![1u8] + (spec_enc_pkce(v) + rest));
            lemma_rt_u8(1u8, spec_enc_pkce(v) + rest);
            lemma_rt_pkce(v, rest);
        },
    }
}

proof fn lemma_concat_assoc(a: Seq<u8>, b: Seq<u8>, c: Seq<u8>)
    ensures
        (a + b) + c == a + (b + c),
{
    assert((a + b) + c =~= a + (b + c));
}

#[verifier::spinoff_prover]
proof fn lemma_rt_session(v: AuthSessionView, rest: Seq<u8>)
    requires
        session_enc_ok(v),
    ensures
        sdec_session(spec_enc_session(v) + rest) == Option::Some((v, rest)),
{
    let e1 = spec_enc_str(v.id);
    let e2 = spec_enc_opt_str(v.user_id);
    let e3 = spec_enc_opt_str(v.email);
    let e4 = spec_enc_opt_str(v.wallet_address);
    let e5 = spec_enc_opt_token(v.tokens);
    let e6 = spec_enc_opt_pkce(v.pkce);
    let e7 = spec_enc_str(v.state);
    let e8 = spec_enc_i64(v.created_at);
    let e9 = spec_enc_i64(v.expires_at);
    let e10 = spec_enc_device(v.device_info);
    let r9 = e10 + rest;
    let r8 = e9 + r9;
    let r7 = e8 + r8;
    let r6 = e7 + r7;
    let r5 = e6 + r6;
    let r4 = e5 + r5;
    let r3 = e4 + r4;
    let r2 = e3 + r3;
    let r1 = e2 + r2;
    lemma_concat_assoc(e1 + e2 + e3 + e4 + e5 + e6 + e7 + e8 + e9, e10, rest);
    lemma_concat_assoc(e1 + e2 + e3 + e4 + e5 + e6 + e7 + e8, e9, r9);
    lemma_concat_assoc(e1 + e2 + e3 + e4 + e5 + e6 + e7, e8, r8);
    lemma_concat_assoc(e1 + e2 + e3 + e4 + e5 + e6, e7, r7);
    lemma_concat_assoc(e1 + e2 + e3 + e4 + e5, e6, r6);
    lemma_concat_assoc(e1 + e2 + e3 + e4, e5, r5);
    lemma_concat_assoc(e1 + e2 + e3, e4, r4);
    lemma_concat_assoc(e1 + e2, e3, r3);
    lemma_concat_assoc(e1, e2, r2);
    assert(spec_enc_session(v) + rest == e1 + r1);
    lemma_rt_str(v.id, r1);
    lemma_rt_opt_str(v.user_id, r2);
    lemma_rt_opt_str(v.email, r3);
    lemma_rt_opt_str(v.wallet_address, r4);
    lemma_rt_opt_token(v.tokens, r5);
    lemma_rt_opt_pkce(v.pkce, r6);
    lemma_rt_str(v.state, r7);
    lemma_rt_i64(v.created_at, r8);
    lemma_rt_i64(v.expires_at, r9);
    lemma_rt_device(v.device_info, rest);
}

/// The canonical codec round-trips: decoding the encoding of any session
/// record yields the record itself.
pub proof fn lemma_session_codec_round_trip(v: AuthSessionView)
    requires
        session_enc_ok(v),
    ensures
        spec_decode_session(spec_enc_session(v)) == Option::Some(v),
{
    lemma_rt_session(v, Seq::<u8>::empty());
    assert(spec_enc_session(v) + Seq::<u8>::empty() =~= spec_enc_session(v));
}

} // verus!
