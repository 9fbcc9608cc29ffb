use vstd::prelude::*;
use vstd::utf8::{decode_utf8, encode_scalar, encode_utf8, encode_utf8_decode_utf8};
use crate::base64url::{b64url, b64url_decode, base64_url_encode, lemma_b64url_len, lemma_b64url_round_trip};
use crate::digest::{get_query_string_hash, hmac_sha256, hmac_sha256_of, is_lower_hex, sha256_hex_of};
use crate::json::{decimal, encode_json_str, encode_json_u64, json_quote, lemma_json_escape_hex};

verus! {

/// How long a token stays valid after it was issued, in seconds.
pub const VALIDITY_SECONDS: u64 = 180;

#[derive(Debug, Clone, Copy, PartialEq, Eq, Structural)]
pub enum TokenError {
    /// The shared secret is empty.
    InvalidKey,
    /// The header or the claims could not be rendered as JSON.
    SerializationFailure,
    /// The clock could not be read.
    ClockUnavailable,
}

/// `{"alg":..,"typ":..}`, keys in sorted order.
pub open spec fn header_json(alg: Seq<char>, typ: Seq<char>) -> Seq<char> {
    "{\"alg\":"@ + json_quote(alg) + ",\"typ\":"@ + json_quote(typ) + "}"@
}

/// `{"exp":..,"iat":..,"iss":..,"qsh":..,"sub":..}`, keys in sorted order.
pub open spec fn claims_json(
    iss: Seq<char>,
    iat: nat,
    exp: nat,
    qsh: Seq<char>,
    sub: Seq<char>,
) -> Seq<char> {
    "{\"exp\":"@ + decimal(exp) + ",\"iat\":"@ + decimal(iat) + ",\"iss\":"@ + json_quote(iss)
        + ",\"qsh\":"@ + json_quote(qsh) + ",\"sub\":"@ + json_quote(sub) + "}"@
}

/// The header that every token carries.
pub open spec fn standard_header_json() -> Seq<char> {
    header_json("HS256"@, "JWT"@)
}

/// One token segment: the base64url form of a JSON text's UTF-8 bytes.
pub open spec fn segment_of(json: Seq<char>) -> Seq<char> {
    b64url(encode_utf8(json))
}

/// The text that gets signed: header segment, `.`, claims segment.
pub open spec fn signing_input_of(header: Seq<char>, claims: Seq<char>) -> Seq<char> {
    segment_of(header) + seq!['.'] + segment_of(claims)
}

/// The third segment: the base64url form of the HMAC-SHA256 code of the
/// signing input under the shared secret.
pub open spec fn signature_of(secret: Seq<char>, input: Seq<char>) -> Seq<char> {
    b64url(hmac_sha256_of(encode_utf8(secret), encode_utf8(input)))
}

/// The whole token for a rendered header and claim set.
pub open spec fn token_of(header: Seq<char>, claims: Seq<char>, secret: Seq<char>) -> Seq<char> {
    signing_input_of(header, claims) + seq!['.'] + signature_of(
        secret,
        signing_input_of(header, claims),
    )
}

pub struct JwtHeader {
    pub alg: String,
    pub typ: String,
}

impl JwtHeader {
    pub fn new() -> (h: JwtHeader)
        ensures
            h.alg@ == "HS256"@,
            h.typ@ == "JWT"@,
    {
        JwtHeader { alg: "HS256".to_owned(), typ: "JWT".to_owned() }
    }

    pub fn to_json(&self) -> (r: Result<String, TokenError>)
        ensures
            r matches Ok(t) ==> t@ == header_json(self.alg@, self.typ@),
            r is Ok,
    {
        let alg = match encode_json_str(self.alg.as_str()) {
            Ok(s) => s,
            Err(_) => return Err(TokenError::SerializationFailure),
        };
        let typ = match encode_json_str(self.typ.as_str()) {
            Ok(s) => s,
            Err(_) => return Err(TokenError::SerializationFailure),
        };
        let mut out = "{\"alg\":".to_owned();
        out.append(alg.as_str());
        out.append(",\"typ\":");
        out.append(typ.as_str());
        out.append("}");
        Ok(out)
    }
}

pub struct JwtClaims {
    pub iss: String,
    pub iat: u64,
    pub exp: u64,
    pub qsh: String,
    pub sub: String,
}

impl JwtClaims {
    /// The expiry is the issue time plus the validity window, and the
    /// request hash is a SHA-256 digest in lowercase hex.
    pub open spec fn wf(&self) -> bool {
        &&& self.exp == self.iat + VALIDITY_SECONDS
        &&& self.qsh@.len() == 64
        &&& is_lower_hex(self.qsh@)
    }

    /// Claims issued at `iat` by `iss` for the request whose canonical form
    /// is `canonical_url`.
    pub fn new(iss: &str, sub: &str, canonical_url: &str, iat: u64) -> (c: JwtClaims)
        requires
            iat <= u64::MAX - VALIDITY_SECONDS,
        ensures
            c.wf(),
            c.iss@ == iss@,
            c.sub@ == sub@,
            c.iat == iat,
            c.exp == iat + VALIDITY_SECONDS,
            c.qsh@ == sha256_hex_of(canonical_url@),
    {
        let qsh = get_query_string_hash(canonical_url);
        JwtClaims {
            iss: iss.to_owned(),
            iat,
            exp: iat + VALIDITY_SECONDS,
            qsh,
            sub: sub.to_owned(),
        }
    }

    pub fn to_json(&self) -> (r: Result<String, TokenError>)
        ensures
            r matches Ok(t) ==> t@ == claims_json(
                self.iss@,
                self.iat as nat,
                self.exp as nat,
                self.qsh@,
                self.sub@,
            ),
            r is Ok,
    {
        let exp = match encode_json_u64(self.exp) {
            Ok(s) => s,
            Err(_) => return Err(TokenError::SerializationFailure),
        };
        let iat = match encode_json_u64(self.iat) {
            Ok(s) => s,
            Err(_) => return Err(TokenError::SerializationFailure),
        };
        let iss = match encode_json_str(self.iss.as_str()) {
            Ok(s) => s,
            Err(_) => return Err(TokenError::SerializationFailure),
        };
        let qsh = match encode_json_str(self.qsh.as_str()) {
            Ok(s) => s,
            Err(_) => return Err(TokenError::SerializationFailure),
        };
        let sub = match encode_json_str(self.sub.as_str()) {
            Ok(s) => s,
            Err(_) => return Err(TokenError::SerializationFailure),
        };
        let mut out = "{\"exp\":".to_owned();
        out.append(exp.as_str());
        out.append(",\"iat\":");
        out.append(iat.as_str());
        out.append(",\"iss\":");
        out.append(iss.as_str());
        out.append(",\"qsh\":");
        out.append(qsh.as_str());
        out.append(",\"sub\":");
        out.append(sub.as_str());
        out.append("}");
        Ok(out)
    }
}

/// Header segment, `.`, claims segment, for already rendered JSON texts.
pub fn join_segments(header_json: &str, claims_json: &str) -> (r: String)
    ensures
        r@ == signing_input_of(header_json@, claims_json@),
{
    let mut out = base64_url_encode(header_json.as_bytes());
    let claims_segment = base64_url_encode(claims_json.as_bytes());
    out.append(".");
    out.append(claims_segment.as_str());
    proof {
        reveal_strlit(".");
        assert(out@ =~= signing_input_of(header_json@, claims_json@));
    }
    out
}

/// The signing input of a claim set under the standard header. The shared
/// secret takes no part in it.
pub fn get_signing_input(claims: &JwtClaims, _shared_secret: &str) -> (r: Result<String, TokenError>)
    ensures
        r matches Ok(t) ==> t@ == signing_input_of(
            standard_header_json(),
            claims_json(claims.iss@, claims.iat as nat, claims.exp as nat, claims.qsh@, claims.sub@),
        ),
        r is Ok,
{
    let header = JwtHeader::new();
    let header_json = header.to_json()?;
    let claims_json = claims.to_json()?;
    Ok(join_segments(header_json.as_str(), claims_json.as_str()))
}

/// The base64url HMAC-SHA256 signature of `signing_input` under `shared_secret`.
pub fn sign_hmac256(signing_input: &str, shared_secret: &str) -> (r: String)
    ensures
        r@ == signature_of(shared_secret@, signing_input@),
        r@.len() == 43,
{
    let code = hmac_sha256(shared_secret.as_bytes(), signing_input.as_bytes());
    proof {
        lemma_b64url_len(code@);
    }
    base64_url_encode(code.as_slice())
}

/// The token for an already rendered header and claim set; an empty shared
/// secret is refused.
pub fn sign_rendered(header_json: &str, claims_json: &str, shared_secret: &str) -> (r: Result<
    String,
    TokenError,
>)
    ensures
        shared_secret@.len() == 0 ==> r == Err::<String, TokenError>(TokenError::InvalidKey),
        shared_secret@.len() > 0 ==> (r matches Ok(t) && t@ == token_of(
            header_json@,
            claims_json@,
            shared_secret@,
        )),
        header_json@.len() > 0 && claims_json@.len() > 0 ==> (r matches Ok(t) ==> has_three_segments(
            t@,
        )),
{
    if shared_secret.is_empty() {
        return Err(TokenError::InvalidKey);
    }
    let mut out = join_segments(header_json, claims_json);
    let signature = sign_hmac256(out.as_str(), shared_secret);
    out.append(".");
    out.append(signature.as_str());
    proof {
        reveal_strlit(".");
        assert(out@ =~= token_of(header_json@, claims_json@, shared_secret@));
        if header_json@.len() > 0 && claims_json@.len() > 0 {
            lemma_token_shape(header_json@, claims_json@, shared_secret@);
        }
    }
    Ok(out)
}

/// The signed token for a well-formed claim set under the standard header.
pub fn sign(claims: &JwtClaims, shared_secret: &str) -> (r: Result<String, TokenError>)
    requires
        claims.wf(),
    ensures
        shared_secret@.len() == 0 ==> r == Err::<String, TokenError>(TokenError::InvalidKey),
        shared_secret@.len() > 0 ==> r is Ok,
        r matches Ok(t) ==> t@ == token_of(
            standard_header_json(),
            claims_json(claims.iss@, claims.iat as nat, claims.exp as nat, claims.qsh@, claims.sub@),
            shared_secret@,
        ),
        r matches Ok(t) ==> has_three_segments(t@),
{
    if shared_secret.is_empty() {
        return Err(TokenError::InvalidKey);
    }
    let header = JwtHeader::new();
    let header_json = header.to_json()?;
    let claims_json = claims.to_json()?;
    proof {
        lemma_json_nonempty(
            header.alg@,
            header.typ@,
            claims.iss@,
            claims.iat as nat,
            claims.exp as nat,
            claims.qsh@,
            claims.sub@,
        );
    }
    sign_rendered(header_json.as_str(), claims_json.as_str(), shared_secret)
}

/// The claims text of a token issued at `iat` by `iss` for `sub`, bound to
/// the canonical request `canonical_url`.
pub open spec fn request_claims_json(
    iss: Seq<char>,
    sub: Seq<char>,
    canonical_url: Seq<char>,
    iat: nat,
) -> Seq<char> {
    claims_json(iss, iat, iat + VALIDITY_SECONDS as nat, sha256_hex_of(canonical_url), sub)
}

/// A token issued at `iat` (seconds since the epoch) by `key` for `subject`,
/// bound to the canonical form of the request. `request_url` is not part of
/// what is signed: only `canonical_url` is, through the `qsh` claim.
pub fn generate_jwt_token(
    request_url: &str,
    canonical_url: &str,
    key: &str,
    subject: &str,
    shared_secret: &str,
    iat: u64,
) -> (r: Result<String, TokenError>)
    requires
        iat <= u64::MAX - VALIDITY_SECONDS,
    ensures
        shared_secret@.len() == 0 ==> r == Err::<String, TokenError>(TokenError::InvalidKey),
        shared_secret@.len() > 0 ==> r is Ok,
        r matches Ok(t) ==> t@ == token_of(
            standard_header_json(),
            request_claims_json(key@, subject@, canonical_url@, iat as nat),
            shared_secret@,
        ),
        r matches Ok(t) ==> has_three_segments(t@),
{
    let claims = JwtClaims::new(key, subject, canonical_url, iat);
    sign(&claims, shared_secret)
}


/// Exactly two periods, at `p1` and `p2`, around three non-empty segments.
pub open spec fn periods_at(t: Seq<char>, p1: int, p2: int) -> bool {
    &&& 0 < p1
    &&& p1 + 1 < p2
    &&& p2 + 1 < t.len()
    &&& forall|i: int| 0 <= i < t.len() ==> (#[trigger] t[i] == '.' <==> (i == p1 || i == p2))
}

/// A token made of three non-empty segments joined by two periods.
pub open spec fn has_three_segments(t: Seq<char>) -> bool {
    exists|p1: int, p2: int| periods_at(t, p1, p2)
}

proof fn lemma_utf8_nonempty(c: Seq<char>)
    requires
        c.len() > 0,
    ensures
        encode_utf8(c).len() > 0,
{
    assert(encode_scalar(c[0] as u32).len() > 0);
}

/// Rendered headers and claim sets are never empty.
pub proof fn lemma_json_nonempty(
    alg: Seq<char>,
    typ: Seq<char>,
    iss: Seq<char>,
    iat: nat,
    exp: nat,
    qsh: Seq<char>,
    sub: Seq<char>,
)
    ensures
        header_json(alg, typ).len() > 0,
        claims_json(iss, iat, exp, qsh, sub).len() > 0,
{
    reveal_strlit("{\"alg\":");
    reveal_strlit("{\"exp\":");
    assert(header_json(alg, typ)[0] == '{');
    assert(claims_json(iss, iat, exp, qsh, sub)[0] == '{');
}

/// A token built from non-empty JSON texts, whose signature code is not
/// empty, has its two periods right after the header segment and right
/// after the claims segment, and nowhere else.
pub proof fn lemma_token_shape(header: Seq<char>, claims: Seq<char>, secret: Seq<char>)
    requires
        header.len() > 0,
        claims.len() > 0,
        signature_of(secret, signing_input_of(header, claims)).len() > 0,
    ensures
        periods_at(
            token_of(header, claims, secret),
            segment_of(header).len() as int,
            (segment_of(header).len() + 1 + segment_of(claims).len()) as int,
        ),
        has_three_segments(token_of(header, claims, secret)),
{
    let s1 = segment_of(header);
    let s2 = segment_of(claims);
    let code = hmac_sha256_of(encode_utf8(secret), encode_utf8(signing_input_of(header, claims)));
    let s3 = b64url(code);
    lemma_utf8_nonempty(header);
    lemma_utf8_nonempty(claims);
    lemma_b64url_round_trip(encode_utf8(header));
    lemma_b64url_round_trip(encode_utf8(claims));
    lemma_b64url_round_trip(code);
    let t = token_of(header, claims, secret);
    assert(t =~= s1 + seq!['.'] + s2 + seq!['.'] + s3);
    let p1 = s1.len() as int;
    let p2 = p1 + 1 + s2.len();
    assert forall|i: int| 0 <= i < t.len() implies (#[trigger] t[i] == '.' <==> (i == p1 || i == p2)) by {
        if i < p1 {
            assert(t[i] == s1[i]);
        } else if p1 < i < p2 {
            assert(t[i] == s2[i - p1 - 1]);
        } else if i > p2 {
            assert(t[i] == s3[i - p2 - 1]);
        }
    }
    assert(periods_at(t, p1, p2));
}


/// The first two segments of a token, read back from base64url and UTF-8,
/// give the rendered header and claim set, and encoding those bytes again
/// gives the same segments.
pub proof fn lemma_segments_decode(
    iss: Seq<char>,
    sub: Seq<char>,
    canonical_url: Seq<char>,
    iat: nat,
    secret: Seq<char>,
)
    ensures
        ({
            let h = standard_header_json();
            let c = request_claims_json(iss, sub, canonical_url, iat);
            let t = token_of(h, c, secret);
            let p1 = segment_of(h).len() as int;
            let p2 = p1 + 1 + segment_of(c).len() as int;
            &&& decode_utf8(b64url_decode(t.subrange(0, p1))) == h
            &&& b64url(b64url_decode(t.subrange(0, p1))) == t.subrange(0, p1)
            &&& decode_utf8(b64url_decode(t.subrange(p1 + 1, p2))) == c
            &&& b64url(b64url_decode(t.subrange(p1 + 1, p2))) == t.subrange(p1 + 1, p2)
        }),
{
    let h = standard_header_json();
    let c = request_claims_json(iss, sub, canonical_url, iat);
    let t = token_of(h, c, secret);
    let s1 = segment_of(h);
    let s2 = segment_of(c);
    let p1 = s1.len() as int;
    let p2 = p1 + 1 + s2.len() as int;
    assert(t.subrange(0, p1) =~= s1);
    assert(t.subrange(p1 + 1, p2) =~= s2);
    lemma_b64url_round_trip(encode_utf8(h));
    lemma_b64url_round_trip(encode_utf8(c));
    encode_utf8_decode_utf8(h);
    encode_utf8_decode_utf8(c);
}

/// The third segment is the base64url HMAC-SHA256 code, under the shared
/// secret, of everything before the second period.
pub proof fn lemma_signature_recomputes(header: Seq<char>, claims: Seq<char>, secret: Seq<char>)
    ensures
        ({
            let t = token_of(header, claims, secret);
            let p2 = (segment_of(header).len() + 1 + segment_of(claims).len()) as int;
            t.subrange(p2 + 1, t.len() as int) == b64url(
                hmac_sha256_of(encode_utf8(secret), encode_utf8(t.subrange(0, p2))),
            )
        }),
{
    let t = token_of(header, claims, secret);
    let p2 = (segment_of(header).len() + 1 + segment_of(claims).len()) as int;
    assert(t.subrange(0, p2) =~= signing_input_of(header, claims));
    assert(t.subrange(p2 + 1, t.len() as int) =~= signature_of(
        secret,
        signing_input_of(header, claims),
    ));
}

/// The header segment, and the period after it, are the same whatever the
/// claims and the shared secret.
pub proof fn lemma_header_segment_fixed(
    c1: Seq<char>,
    c2: Seq<char>,
    secret1: Seq<char>,
    secret2: Seq<char>,
)
    ensures
        ({
            let p1 = segment_of(standard_header_json()).len() as int;
            token_of(standard_header_json(), c1, secret1).subrange(0, p1 + 1) == token_of(
                standard_header_json(),
                c2,
                secret2,
            ).subrange(0, p1 + 1)
        }),
{
    let h = standard_header_json();
    let p1 = segment_of(h).len() as int;
    assert(token_of(h, c1, secret1).subrange(0, p1 + 1) =~= segment_of(h) + seq!['.']);
    assert(token_of(h, c2, secret2).subrange(0, p1 + 1) =~= segment_of(h) + seq!['.']);
}

/// Two claim sets that differ only in their request hashes, each written in
/// lowercase hex and of one length, give different claims segments.
pub proof fn lemma_qsh_binds_claims_segment(
    iss: Seq<char>,
    iat: nat,
    exp: nat,
    qsh1: Seq<char>,
    qsh2: Seq<char>,
    sub: Seq<char>,
)
    requires
        is_lower_hex(qsh1),
        is_lower_hex(qsh2),
        qsh1.len() == qsh2.len(),
        qsh1 != qsh2,
    ensures
        segment_of(claims_json(iss, iat, exp, qsh1, sub)) != segment_of(
            claims_json(iss, iat, exp, qsh2, sub),
        ),
{
    let c1 = claims_json(iss, iat, exp, qsh1, sub);
    let c2 = claims_json(iss, iat, exp, qsh2, sub);
    let a = "{\"exp\":"@ + decimal(exp) + ",\"iat\":"@ + decimal(iat) + ",\"iss\":"@ + json_quote(
        iss,
    ) + ",\"qsh\":"@;
    let b = ",\"sub\":"@ + json_quote(sub) + "}"@;
    lemma_json_escape_hex(qsh1);
    lemma_json_escape_hex(qsh2);
    assert(c1 =~= a + seq!['"'] + qsh1 + seq!['"'] + b);
    assert(c2 =~= a + seq!['"'] + qsh2 + seq!['"'] + b);
    let lo = a.len() + 1 as int;
    let hi = lo + qsh1.len() as int;
    assert(c1.subrange(lo, hi) =~= qsh1);
    assert(c2.subrange(lo, hi) =~= qsh2);
    if segment_of(c1) == segment_of(c2) {
        lemma_b64url_round_trip(encode_utf8(c1));
        lemma_b64url_round_trip(encode_utf8(c2));
        encode_utf8_decode_utf8(c1);
        encode_utf8_decode_utf8(c2);
        assert(c1 == c2);
    }
}

} // verus!
