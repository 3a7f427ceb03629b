//! Sealed envelopes: the sender signs the routing, session and expiry
//! metadata together with the message, then encrypts message and signature
//! with the metadata as associated data.

use super::identity::{
    bytes32, is_valid_id, key_of, lemma_hex_is_valid_id, signature_check, signs_only, valid_id,
    verify, Identity, Presence,
};
use super::primitives::{
    all_zero, ed25519_signature_of, hex_bytes, hex_of, hex_text, hkdf_key, hkdf_of,
    lemma_unhex_hex, neutral_point, random_bytes, random_cipher_nonce, random_secret, unhex,
    x25519_public, x25519_public_of, x25519_shared, x25519_shared_of, xchacha_open,
    xchacha_opened, xchacha_seal, xchacha_sealed, LONGEST,
};
use super::protocol::{lemma_message_json_injective, same_message, Message};
use super::PeerError;
use crate::json::{
    ends_number, json_of, lemma_after_prefix, lemma_json_decodes, Json, ObjectText,
};
use crate::text::{joined, lemma_bytes_determine_text, same_text};
use vstd::prelude::*;
use vstd::utf8::encode_utf8;

verus! {

/// The metadata of an envelope, which everyone can read.
#[derive(Debug)]
pub struct Header {
    pub protocol: u8,
    pub id: String,
    pub from: String,
    pub to: String,
    pub from_session: String,
    pub to_session: String,
    pub issued: i64,
    pub expires: i64,
    pub ephemeral: String,
    pub nonce: String,
}

impl Clone for Header {
    fn clone(&self) -> (r: Self)
        ensures
            r == *self,
    {
        Header {
            protocol: self.protocol,
            id: self.id.clone(),
            from: self.from.clone(),
            to: self.to.clone(),
            from_session: self.from_session.clone(),
            to_session: self.to_session.clone(),
            issued: self.issued,
            expires: self.expires,
            ephemeral: self.ephemeral.clone(),
            nonce: self.nonce.clone(),
        }
    }
}

/// A sealed control message.
#[derive(Debug)]
pub struct Envelope {
    pub header: Header,
    pub ciphertext: String,
}

impl Clone for Envelope {
    fn clone(&self) -> (r: Self)
        ensures
            r == *self,
    {
        Envelope { header: self.header.clone(), ciphertext: self.ciphertext.clone() }
    }
}

/// What an envelope holds under its encryption.
#[derive(Debug)]
pub struct Signed {
    pub message: Message,
    pub signature: String,
}

impl Header {
    pub open spec fn json(&self) -> Json {
        Json::Object(
            seq![
                ("protocol"@, Json::Number(self.protocol as int)),
                ("id"@, Json::Text(self.id@)),
                ("from"@, Json::Text(self.from@)),
                ("to"@, Json::Text(self.to@)),
                ("from_session"@, Json::Text(self.from_session@)),
                ("to_session"@, Json::Text(self.to_session@)),
                ("issued"@, Json::Number(self.issued as int)),
                ("expires"@, Json::Number(self.expires as int)),
                ("ephemeral"@, Json::Text(self.ephemeral@)),
                ("nonce"@, Json::Text(self.nonce@)),
            ],
        )
    }

    /// The associated data of an envelope.
    pub open spec fn bound_text(&self) -> Seq<char> {
        "TwoDrive/control/v1\0"@ + json_of(self.json())
    }

    /// The text that the signature of a message covers.
    pub open spec fn signing_text(&self, message: Message) -> Seq<char> {
        self.bound_text() + json_of(message.json())
    }

    /// The envelope spans two minutes that hold `now`, allowing for clocks
    /// that differ by half a minute.
    pub open spec fn timely(&self, now: int) -> bool {
        &&& self.issued <= now + 30
        &&& self.expires > now
        &&& self.expires <= now + 150
        &&& self.expires - self.issued == 120
    }
}

/// Two headers say the same.
pub open spec fn same_header(a: Header, b: Header) -> bool {
    &&& a.protocol == b.protocol
    &&& a.id@ == b.id@
    &&& a.from@ == b.from@
    &&& a.to@ == b.to@
    &&& a.from_session@ == b.from_session@
    &&& a.to_session@ == b.to_session@
    &&& a.issued == b.issued
    &&& a.expires == b.expires
    &&& a.ephemeral@ == b.ephemeral@
    &&& a.nonce@ == b.nonce@
}

/// The bytes that a message signature covers fix the message and every field
/// of the header: a signature cannot be moved to another message, route,
/// session or time.
pub proof fn lemma_message_signature_binds(a: Header, m: Message, b: Header, n: Message)
    requires
        encode_utf8(a.signing_text(m)) == encode_utf8(b.signing_text(n)),
    ensures
        same_header(a, b),
        same_message(m, n),
{
    lemma_bytes_determine_text(a.signing_text(m), b.signing_text(n));
    let p = "TwoDrive/control/v1\0"@;
    let end = seq!['.'];
    let x = json_of(m.json());
    let y = json_of(n.json());
    assert(a.signing_text(m) =~= p + (json_of(a.json()) + x));
    assert(b.signing_text(n) =~= p + (json_of(b.json()) + y));
    lemma_after_prefix(p, json_of(a.json()) + x, json_of(b.json()) + y);
    assert(ends_number(x) && ends_number(y)) by {
        assert(x[0] == '{' && y[0] == '{');
    }
    lemma_json_decodes(a.json(), b.json(), x, y);
    lemma_json_decodes(m.json(), n.json(), end, end);
    lemma_message_json_injective(m, n);
    let f = a.json()->Object_0;
    let g = b.json()->Object_0;
    assert(f == g);
    assert(f[0] == g[0] && f[1] == g[1] && f[2] == g[2] && f[3] == g[3] && f[4] == g[4]);
    assert(f[5] == g[5] && f[6] == g[6] && f[7] == g[7] && f[8] == g[8] && f[9] == g[9]);
}

/// No bytes are both the signed form of a presence and that of a message: a
/// signature made for one never serves for the other.
pub proof fn lemma_signatures_apart(p: Presence, h: Header, m: Message)
    ensures
        encode_utf8(p.signing_text()) != encode_utf8(h.signing_text(m)),
{
    if encode_utf8(p.signing_text()) == encode_utf8(h.signing_text(m)) {
        lemma_bytes_determine_text(p.signing_text(), h.signing_text(m));
        reveal_strlit("TwoDrive/presence/v1\0");
        reveal_strlit("TwoDrive/control/v1\0");
        assert(p.signing_text()[9] == 'p');
        assert(h.signing_text(m)[9] == 'c');
    }
}

fn aad(header: &Header) -> (r: String)
    ensures
        r@ == header.bound_text(),
{
    let mut o = ObjectText::new();
    o.unsigned("protocol", header.protocol as u64);
    o.string("id", header.id.as_str());
    o.string("from", header.from.as_str());
    o.string("to", header.to.as_str());
    o.string("from_session", header.from_session.as_str());
    o.string("to_session", header.to_session.as_str());
    o.signed("issued", header.issued);
    o.signed("expires", header.expires);
    o.string("ephemeral", header.ephemeral.as_str());
    o.string("nonce", header.nonce.as_str());
    proof {
        assert(o.fields() =~= header.json()->Object_0);
    }
    let j = o.finish();
    joined("TwoDrive/control/v1\0", j.as_str())
}

fn signing(header: &Header, message: &Message) -> (r: String)
    ensures
        r@ == header.signing_text(*message),
{
    let bound = aad(header);
    let m = message.to_json();
    joined(bound.as_str(), m.as_str())
}

/// The encryption key of an envelope.
pub open spec fn envelope_key(shared: Seq<u8>, header: Header) -> Seq<u8> {
    hkdf_of(encode_utf8(header.id@), shared, encode_utf8(header.bound_text()))
}

fn key(shared: &[u8; 32], header: &Header) -> (r: [u8; 32])
    ensures
        r@ == envelope_key(shared@, *header),
{
    let bound = aad(header);
    hkdf_key(header.id.as_str().as_bytes(), shared, bound.as_str().as_bytes())
}

/// What is encrypted: a message with its signature.
pub open spec fn signed_text(message: Message, signature: Seq<char>) -> Seq<char> {
    json_of(
        Json::Object(
            seq![("message"@, message.json()), ("signature"@, Json::Text(signature))],
        ),
    )
}

fn signed_json(message: &Message, signature: &str) -> (r: String)
    ensures
        r@ == signed_text(*message, signature@),
{
    let mut o = ObjectText::new();
    let m = message.to_json();
    o.raw("message", m.as_str(), Ghost(message.json()));
    o.string("signature", signature);
    proof {
        assert(o.fields() =~= seq![
            ("message"@, message.json()),
            ("signature"@, Json::Text(signature@)),
        ]);
    }
    o.finish()
}

/// The random choices that sealing makes.
pub struct Chance {
    pub secret: [u8; 32],
    pub id: [u8; 32],
    pub nonce: [u8; 24],
}

/// Draws the random choices of one envelope.
pub fn chance() -> (r: Chance) {
    Chance { secret: random_secret(), id: random_bytes(), nonce: random_cipher_nonce() }
}

/// An envelope with this header is on its way from a device and session to a
/// peer, from some time on and for two minutes.
pub open spec fn addressed(
    header: Header,
    from: Seq<char>,
    session: Seq<char>,
    peer: Presence,
    now: int,
) -> bool {
    &&& header.protocol == 1
    &&& is_valid_id(header.id@)
    &&& header.from@ == from
    &&& header.to@ == peer.device@
    &&& header.from_session@ == session
    &&& header.to_session@ == peer.session@
    &&& header.issued == now
    &&& header.expires == now + 120
}

/// The signature of a message under a header.
pub open spec fn message_signature(identity: Identity, header: Header, message: Message) -> Seq<u8> {
    ed25519_signature_of(identity.signing_seed(), encode_utf8(header.signing_text(message)))
}

/// What sealing a message for a peer with the given random choices gives.
pub open spec fn sealed(
    identity: Identity,
    session: Seq<char>,
    peer: Presence,
    message: Message,
    now: int,
    chance: Chance,
    r: Result<Envelope, PeerError>,
) -> bool {
    match r {
        Ok(env) => {
            let h = env.header;
            let public = key_of(peer.encryption@)->Ok_0;
            let shared = x25519_shared_of(chance.secret@, public);
            let plain = encode_utf8(
                signed_text(message, hex_of(message_signature(identity, h, message))),
            );
            &&& peer.check(now) is Ok
            &&& !all_zero(shared)
            &&& plain.len() <= LONGEST
            &&& addressed(h, identity.device(), session, peer, now)
            &&& h.id@ == hex_of(chance.id@)
            &&& h.ephemeral@ == hex_of(x25519_public_of(chance.secret@))
            &&& h.nonce@ == hex_of(chance.nonce@)
            &&& env.ciphertext@ == hex_of(
                xchacha_sealed(
                    envelope_key(shared, h),
                    chance.nonce@,
                    plain,
                    encode_utf8(h.bound_text()),
                ),
            )
            &&& message_signature(identity, h, message).take(32) != neutral_point()
                ==> signature_check(
                hex_of(identity.public()),
                encode_utf8(h.signing_text(message)),
                hex_of(message_signature(identity, h, message)),
            ) is Ok
            &&& forall|other: Identity|
                #![trigger other.agreement_secret()]
                x25519_public_of(other.agreement_secret()) == public ==> decrypted(other, env) == Ok::<Seq<u8>, PeerError>(plain)
        },
        Err(e) => {
            ||| peer.check(now) == Err::<(), PeerError>(e)
            ||| {
                &&& peer.check(now) is Ok
                &&& all_zero(
                    x25519_shared_of(chance.secret@, key_of(peer.encryption@)->Ok_0),
                )
                &&& e == PeerError::RecipientKey
            }
            ||| {
                &&& peer.check(now) is Ok
                &&& e == PeerError::Encryption
                &&& exists|h: Header|
                    {
                        &&& addressed(h, identity.device(), session, peer, now)
                        &&& h.id@ == hex_of(chance.id@)
                        &&& h.ephemeral@ == hex_of(x25519_public_of(chance.secret@))
                        &&& h.nonce@ == hex_of(chance.nonce@)
                        &&& encode_utf8(
                            signed_text(
                                message,
                                hex_of(#[trigger] message_signature(identity, h, message)),
                            ),
                        ).len() > LONGEST
                    }
            }
        },
    }
}

/// Seals a message for a peer with the given random choices.
///
/// It fails exactly when the peer's presence is invalid, its key contributes
/// nothing or the message is beyond what the cipher takes. The device whose
/// key the presence announces can open the envelope and finds the message with
/// a signature that verifies (unless the signature's commitment is the neutral
/// point of the curve).
pub fn seal_with(
    identity: &Identity,
    session: &str,
    peer: &Presence,
    message: &Message,
    now: i64,
    chance: &Chance,
) -> (r: Result<Envelope, PeerError>)
    requires
        now + 210 <= i64::MAX,
    ensures
        sealed(*identity, session@, *peer, *message, now as int, *chance, r),
{
    match peer.verify(now) {
        Ok(_) => {},
        Err(e) => return Err(e),
    }
    let public = match bytes32(peer.encryption.as_str()) {
        Ok(k) => k,
        Err(e) => return Err(e),
    };
    let (shared, contributory) = x25519_shared(&chance.secret, &public);
    if !contributory {
        return Err(PeerError::RecipientKey);
    }
    let ephemeral = x25519_public(&chance.secret);
    proof {
        lemma_hex_is_valid_id(chance.id@);
    }
    let h = Header {
        protocol: 1,
        id: hex_text(chance.id.as_slice()),
        from: identity.id(),
        to: peer.device.clone(),
        from_session: session.to_owned(),
        to_session: peer.session.clone(),
        issued: now,
        expires: now + 120,
        ephemeral: hex_text(ephemeral.as_slice()),
        nonce: hex_text(chance.nonce.as_slice()),
    };
    let covered = signing(&h, message);
    let signature = identity.sign(covered.as_str().as_bytes());
    let k = key(&shared, &h);
    let plain = signed_json(message, signature.as_str());
    let bound = aad(&h);
    if plain.as_str().as_bytes().len() as u64 > LONGEST {
        assert(addressed(h, identity.device(), session@, *peer, now as int));
        assert(signature@ == hex_of(message_signature(*identity, h, *message)));
        return Err(PeerError::Encryption);
    }
    let sealed = xchacha_seal(
        &k,
        &chance.nonce,
        plain.as_str().as_bytes(),
        bound.as_str().as_bytes(),
    );
    match sealed {
        None => Err(PeerError::Encryption),
        Some(c) => {
            let env = Envelope { header: h, ciphertext: hex_text(c.as_slice()) };
            proof {
                lemma_unhex_hex(ephemeral@);
                lemma_unhex_hex(chance.nonce@);
                lemma_unhex_hex(c@);
                assert forall|other: Identity|
                    #![trigger other.agreement_secret()]
                    x25519_public_of(other.agreement_secret()) == public@ implies decrypted(
                    other,
                    env,
                ) == Ok::<Seq<u8>, PeerError>(encode_utf8(plain@)) by {
                    other.lemma_secret_lengths();
                    let theirs = x25519_shared_of(
                        other.agreement_secret(),
                        x25519_public_of(chance.secret@),
                    );
                    assert(shared@ == theirs);
                    assert(other.agreed(env.header.ephemeral@) == Ok::<Seq<u8>, PeerError>(theirs));
                }
            }
            Ok(env)
        },
    }
}

/// An envelope brings a message from a device and session to a peer: it is
/// addressed so, the device whose key the peer announces decrypts it to the
/// message with its signature, and the signature verifies unless its commitment
/// is the neutral point of the curve.
pub open spec fn delivers(
    identity: Identity,
    session: Seq<char>,
    peer: Presence,
    message: Message,
    now: int,
    env: Envelope,
) -> bool {
    let signature = message_signature(identity, env.header, message);
    &&& addressed(env.header, identity.device(), session, peer, now)
    &&& signature.take(32) != neutral_point() ==> signature_check(
        hex_of(identity.public()),
        encode_utf8(env.header.signing_text(message)),
        hex_of(signature),
    ) is Ok
    &&& forall|other: Identity|
        #![trigger other.agreement_secret()]
        x25519_public_of(other.agreement_secret()) == key_of(peer.encryption@)->Ok_0
            ==> decrypted(other, env) == Ok::<Seq<u8>, PeerError>(
            encode_utf8(signed_text(message, hex_of(signature))),
        )
}

/// How sealing can fail for a peer whose presence is valid: the peer's key
/// contributes nothing to a shared secret, or the message is beyond what the
/// cipher takes.
pub open spec fn seal_failure(
    identity: Identity,
    session: Seq<char>,
    peer: Presence,
    message: Message,
    now: int,
    e: PeerError,
) -> bool {
    ||| {
        &&& e == PeerError::RecipientKey
        &&& exists|secret: [u8; 32]| #[trigger]
            all_zero(x25519_shared_of(secret@, key_of(peer.encryption@)->Ok_0))
    }
    ||| {
        &&& e == PeerError::Encryption
        &&& exists|h: Header|
            {
                &&& addressed(h, identity.device(), session, peer, now)
                &&& encode_utf8(
                    signed_text(message, hex_of(#[trigger] message_signature(identity, h, message))),
                ).len() > LONGEST
            }
    }
}

/// Seals a message for a peer. Whatever the random choices, it fails only when
/// the peer's presence is invalid, its key contributes nothing or the message
/// is beyond what the cipher takes, and an envelope is addressed to the peer,
/// which can open it.
pub fn seal(identity: &Identity, session: &str, peer: &Presence, message: &Message, now: i64) -> (r:
    Result<Envelope, PeerError>)
    requires
        now + 210 <= i64::MAX,
    ensures
        peer.check(now as int) matches Err(e) ==> r == Err::<Envelope, PeerError>(e),
        peer.check(now as int) is Ok ==> (r matches Err(e) ==> seal_failure(
            *identity,
            session@,
            *peer,
            *message,
            now as int,
            e,
        )),
        r matches Ok(env) ==> delivers(*identity, session@, *peer, *message, now as int, env),
{
    let c = chance();
    seal_with(identity, session, peer, message, now, &c)
}

/// What decrypting an envelope gives, whoever sent it and for whom.
pub open spec fn decrypted(identity: Identity, env: Envelope) -> Result<Seq<u8>, PeerError> {
    match identity.agreed(env.header.ephemeral@) {
        Err(e) => Err(e),
        Ok(shared) => match unhex(env.header.nonce@) {
            None => Err(PeerError::NotHex),
            Some(n) => if n.len() != 24 {
                Err(PeerError::NonceLength)
            } else {
                match unhex(env.ciphertext@) {
                    None => Err(PeerError::NotHex),
                    Some(c) => if c.len() > LONGEST + 16 {
                        Err(PeerError::Authentication)
                    } else {
                        match xchacha_opened(
                            envelope_key(shared, env.header),
                            n,
                            c,
                            encode_utf8(env.header.bound_text()),
                        ) {
                            None => Err(PeerError::Authentication),
                            Some(m) => Ok(m),
                        }
                    },
                }
            },
        },
    }
}

/// What opening an envelope in a session gives: the envelope must be well
/// formed, on its way from the peer to this device and session, and timely.
pub open spec fn opened(
    identity: Identity,
    session: Seq<char>,
    peer: Presence,
    env: Envelope,
    now: int,
    limit: nat,
) -> Result<Seq<u8>, PeerError> {
    let h = env.header;
    if !(encode_utf8(env.ciphertext@).len() <= limit && h.protocol == 1 && is_valid_id(h.id@)) {
        Err(PeerError::EnvelopeShape)
    } else if !(h.to@ == identity.device() && h.from@ == peer.device@ && h.to_session@ == session
        && h.from_session@ == peer.session@) {
        Err(PeerError::EnvelopeRoute)
    } else if !h.timely(now) {
        Err(PeerError::EnvelopeTime)
    } else {
        decrypted(identity, env)
    }
}

/// Checks an envelope and decrypts it. The result is the text of a message
/// with its signature; `accept` says whether the peer signed it. `limit` is
/// the largest ciphertext taken.
pub fn open(
    identity: &Identity,
    session: &str,
    peer: &Presence,
    env: &Envelope,
    now: i64,
    limit: usize,
) -> (r: Result<Vec<u8>, PeerError>)
    requires
        now + 210 <= i64::MAX,
    ensures
        match r {
            Ok(v) => opened(*identity, session@, *peer, *env, now as int, limit as nat) == Ok::<
                Seq<u8>,
                PeerError,
            >(v@),
            Err(e) => opened(*identity, session@, *peer, *env, now as int, limit as nat) == Err::<
                Seq<u8>,
                PeerError,
            >(e),
        },
{
    let h = &env.header;
    if !(env.ciphertext.as_str().as_bytes().len() <= limit && h.protocol == 1 && valid_id(
        h.id.as_str(),
    )) {
        return Err(PeerError::EnvelopeShape);
    }
    let own = identity.id();
    if !(same_text(h.to.as_str(), own.as_str()) && same_text(
        h.from.as_str(),
        peer.device.as_str(),
    ) && same_text(h.to_session.as_str(), session) && same_text(
        h.from_session.as_str(),
        peer.session.as_str(),
    )) {
        return Err(PeerError::EnvelopeRoute);
    }
    if !(h.issued <= now + 30 && h.expires > now && h.expires <= now + 150 && h.expires.checked_sub(
        h.issued,
    ) == Some(120i64)) {
        return Err(PeerError::EnvelopeTime);
    }
    let shared = match identity.shared(h.ephemeral.as_str()) {
        Ok(s) => s,
        Err(e) => return Err(e),
    };
    let n = match hex_bytes(h.nonce.as_str()) {
        Some(n) => n,
        None => return Err(PeerError::NotHex),
    };
    if n.len() != 24 {
        return Err(PeerError::NonceLength);
    }
    let n = array24(&n);
    let k = key(&shared, h);
    let c = match hex_bytes(env.ciphertext.as_str()) {
        Some(c) => c,
        None => return Err(PeerError::NotHex),
    };
    let bound = aad(h);
    if c.len() as u64 > LONGEST + 16 {
        return Err(PeerError::Authentication);
    }
    match xchacha_open(&k, &n, c.as_slice(), bound.as_str().as_bytes()) {
        Some(m) => Ok(m),
        None => Err(PeerError::Authentication),
    }
}

fn array24(v: &Vec<u8>) -> (r: [u8; 24])
    requires
        v@.len() == 24,
    ensures
        r@ == v@,
{
    let mut r = [0u8; 24];
    let mut i: usize = 0;
    while i < 24
        invariant
            i <= 24,
            v@.len() == 24,
            r@.len() == 24,
            forall|j: int| 0 <= j < i ==> r@[j] == v@[j],
        decreases 24 - i,
    {
        r[i] = v[i];
        i += 1;
    }
    assert(r@ =~= v@);
    r
}

/// Whether the peer signed the message that an envelope held.
pub fn accept(peer: &Presence, header: &Header, signed: &Signed) -> (r: Result<(), PeerError>)
    ensures
        r == signature_check(
            peer.signing@,
            encode_utf8(header.signing_text(signed.message)),
            signed.signature@,
        ),
{
    let covered = signing(header, &signed.message);
    verify(peer.signing.as_str(), covered.as_str().as_bytes(), signed.signature.as_str())
}

/// What a device seals for another opens there as the message with its
/// signature, which the sender's presence accepts unless the signature's
/// commitment is the neutral point of the curve, from half a minute before it
/// was sealed until it expires, and at no other time; nor in another session, nor
/// for another device, nor as sent by another device or from another session.
pub proof fn lemma_sealed_opens(
    a: Identity,
    b: Identity,
    sender: Presence,
    peer: Presence,
    message: Message,
    issued: int,
    env: Envelope,
    now: int,
    limit: nat,
)
    requires
        sender.device@ == a.device(),
        sender.signing@ == hex_of(a.public()),
        peer.device@ == b.device(),
        key_of(peer.encryption@) == Ok::<Seq<u8>, PeerError>(
            x25519_public_of(b.agreement_secret()),
        ),
        delivers(a, sender.session@, peer, message, issued, env),
        encode_utf8(env.ciphertext@).len() <= limit,
    ensures
        opened(b, peer.session@, sender, env, now, limit) == if issued - 30 <= now < issued + 120 {
            Ok::<Seq<u8>, PeerError>(
                encode_utf8(
                    signed_text(message, hex_of(message_signature(a, env.header, message))),
                ),
            )
        } else {
            Err(PeerError::EnvelopeTime)
        },
        message_signature(a, env.header, message).take(32) != neutral_point() ==> signature_check(
            sender.signing@,
            encode_utf8(env.header.signing_text(message)),
            hex_of(message_signature(a, env.header, message)),
        ) is Ok,
        forall|session: Seq<char>|
            session != peer.session@ ==> (#[trigger] opened(b, session, sender, env, now, limit))
                == Err::<Seq<u8>, PeerError>(PeerError::EnvelopeRoute),
        forall|other: Identity|
            other.device() != b.device() ==> (#[trigger] opened(
                other,
                peer.session@,
                sender,
                env,
                now,
                limit,
            )) == Err::<Seq<u8>, PeerError>(PeerError::EnvelopeRoute),
        forall|other: Presence|
            other.device@ != sender.device@ || other.session@ != sender.session@ ==> (
            #[trigger] opened(b, peer.session@, other, env, now, limit)) == Err::<
                Seq<u8>,
                PeerError,
            >(PeerError::EnvelopeRoute),
{
}

/// A key and a nonce open one ciphertext and no others. That holds of those with
/// which only it was sealed, as far as ciphertexts cannot be forged.
pub open spec fn opens_only(key: Seq<u8>, nonce: Seq<u8>, bound: Seq<u8>, ciphertext: Seq<u8>) -> bool {
    forall|c: Seq<u8>| #[trigger]
        xchacha_opened(key, nonce, c, bound) is Some ==> c == ciphertext
}

/// An envelope that is altered is refused: where the sender signed no other
/// message and only this ciphertext was sealed, another one that decrypts and
/// whose message passes as the sender's has the same header, the same message
/// and the same ciphertext. The sender may have signed texts that are no
/// messages, and neither its signatures nor ciphertexts can be forged.
pub proof fn lemma_altered_envelope_is_refused(
    receiver: Identity,
    sender: Presence,
    env: Envelope,
    message: Message,
    texts: Set<Seq<u8>>,
    altered: Envelope,
    signed: Signed,
)
    requires
        decrypted(receiver, env) is Ok,
        key_of(sender.signing@) is Ok,
        signs_only(key_of(sender.signing@)->Ok_0, texts),
        forall|h: Header, m: Message|
            texts.contains(encode_utf8(#[trigger] h.signing_text(m))) ==> encode_utf8(
                h.signing_text(m),
            ) == encode_utf8(env.header.signing_text(message)),
        opens_only(
            envelope_key(receiver.agreed(env.header.ephemeral@)->Ok_0, env.header),
            unhex(env.header.nonce@)->0,
            encode_utf8(env.header.bound_text()),
            unhex(env.ciphertext@)->0,
        ),
        decrypted(receiver, altered) is Ok,
        signature_check(
            sender.signing@,
            encode_utf8(altered.header.signing_text(signed.message)),
            signed.signature@,
        ) is Ok,
    ensures
        same_header(altered.header, env.header),
        same_message(signed.message, message),
        unhex(altered.ciphertext@) == unhex(env.ciphertext@),
{
    let text = encode_utf8(altered.header.signing_text(signed.message));
    assert(texts.contains(text));
    lemma_message_signature_binds(altered.header, signed.message, env.header, message);
    assert(altered.header.json() =~= env.header.json());
}

} // verus!
