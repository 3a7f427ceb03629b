//! A device's keys, its fingerprint and the presence that it announces.
//! Presences found in the cloud serve discovery only; they are no trust anchors.

use super::primitives::{
    all_zero, ed25519_accepts, ed25519_public, ed25519_public_of, ed25519_sign,
    ed25519_signature_of, ed25519_verify, hex_bytes, hex_of, hex_text, lemma_unhex_hex,
    neutral_point, random_bytes, random_secret, random_signing_key, sha256, sha256_of, unhex,
    x25519_public, x25519_public_of, x25519_shared, x25519_shared_of,
};
use super::{PeerError, VERSION};
use crate::json::{ends_number, json_of, lemma_json_decodes, Json, ObjectText};
use crate::text::{chars_of, joined, lemma_bytes_determine_text, same_text};
use vstd::prelude::*;
use vstd::utf8::encode_utf8;

verus! {

/// A digit of the hexadecimal notation in lower case.
pub open spec fn is_lower_hex(c: char) -> bool {
    '0' <= c <= '9' || 'a' <= c <= 'f'
}

/// The form of a device, session or message identifier: the lower case
/// hexadecimal notation of thirty-two bytes.
pub open spec fn is_valid_id(s: Seq<char>) -> bool {
    s.len() == 64 && forall|i: int| 0 <= i < s.len() ==> is_lower_hex(#[trigger] s[i])
}

/// The notation of thirty-two bytes is an identifier.
pub proof fn lemma_hex_is_valid_id(data: Seq<u8>)
    requires
        data.len() == 32,
    ensures
        is_valid_id(hex_of(data)),
{
    assert forall|i: int| 0 <= i < hex_of(data).len() implies is_lower_hex(
        #[trigger] hex_of(data)[i],
    ) by {
        assert(data[i / 2] as nat / 16 < 16);
        assert(data[i / 2] as nat % 16 < 16);
    }
}

/// A fresh random identifier.
pub fn nonce() -> (r: String)
    ensures
        is_valid_id(r@),
{
    let v = random_bytes();
    proof {
        lemma_hex_is_valid_id(v@);
    }
    hex_text(v.as_slice())
}

/// Whether a text has the form of an identifier.
pub fn valid_id(value: &str) -> (r: bool)
    ensures
        r == is_valid_id(value@),
{
    let c = chars_of(value);
    if c.len() != 64 {
        return false;
    }
    let mut i: usize = 0;
    while i < c.len()
        invariant
            i <= c@.len(),
            c@ == value@,
            forall|j: int| 0 <= j < i ==> is_lower_hex(#[trigger] c@[j]),
        decreases c@.len() - i,
    {
        let x = c[i];
        if !(('0' <= x && x <= '9') || ('a' <= x && x <= 'f')) {
            assert(!is_lower_hex(value@[i as int]));
            return false;
        }
        i += 1;
    }
    true
}

/// The key that a hexadecimal notation stands for.
pub open spec fn key_of(value: Seq<char>) -> Result<Seq<u8>, PeerError> {
    match unhex(value) {
        None => Err(PeerError::NotHex),
        Some(v) => if v.len() == 32 {
            Ok(v)
        } else {
            Err(PeerError::KeyLength)
        },
    }
}

/// The thirty-two bytes of a key.
pub(crate) fn array32(v: &Vec<u8>) -> (r: [u8; 32])
    requires
        v@.len() == 32,
    ensures
        r@ == v@,
{
    let mut r = [0u8; 32];
    let mut i: usize = 0;
    while i < 32
        invariant
            i <= 32,
            v@.len() == 32,
            r@.len() == 32,
            forall|j: int| 0 <= j < i ==> r@[j] == v@[j],
        decreases 32 - i,
    {
        r[i] = v[i];
        i += 1;
    }
    assert(r@ =~= v@);
    r
}

/// Reads a key from its hexadecimal notation.
pub fn bytes32(value: &str) -> (r: Result<[u8; 32], PeerError>)
    ensures
        match r {
            Ok(k) => key_of(value@) == Ok::<Seq<u8>, PeerError>(k@),
            Err(e) => key_of(value@) == Err::<Seq<u8>, PeerError>(e),
        },
{
    match hex_bytes(value) {
        None => Err(PeerError::NotHex),
        Some(v) => if v.len() == 32 {
            Ok(array32(&v))
        } else {
            Err(PeerError::KeyLength)
        },
    }
}

/// What verifying a signature gives: the key must be thirty-two bytes in
/// hexadecimal notation, the signature must be hexadecimal notation, and
/// strict verification must take it.
pub open spec fn signature_check(
    key: Seq<char>,
    data: Seq<u8>,
    signature: Seq<char>,
) -> Result<(), PeerError> {
    match key_of(key) {
        Err(e) => Err(e),
        Ok(k) => match unhex(signature) {
            None => Err(PeerError::Signature),
            Some(s) => if ed25519_accepts(k, data, s) {
                Ok(())
            } else {
                Err(PeerError::Signature)
            },
        },
    }
}

/// Verifies a signature in hexadecimal notation.
pub fn verify(key: &str, data: &[u8], signature: &str) -> (r: Result<(), PeerError>)
    ensures
        r == signature_check(key@, data@, signature@),
{
    let k = match bytes32(key) {
        Ok(k) => k,
        Err(e) => return Err(e),
    };
    let s = match hex_bytes(signature) {
        Some(s) => s,
        None => return Err(PeerError::Signature),
    };
    if ed25519_verify(&k, data, s.as_slice()) {
        Ok(())
    } else {
        Err(PeerError::Signature)
    }
}

/// The device identifier of a signing key: the digest of its public key.
pub open spec fn fingerprint(public: Seq<u8>) -> Seq<char> {
    hex_of(sha256_of(public))
}

/// The name under which updates for a platform are published.
pub open spec fn platform_name(os: Seq<char>, arch: Seq<char>) -> Seq<char> {
    if os == "windows"@ && arch == "x86_64"@ {
        "windows-x86_64"@
    } else if os == "linux"@ && arch == "x86_64"@ {
        "linux-x86_64"@
    } else {
        "unsupported"@
    }
}

/// The platform name of an operating system and an architecture, as the
/// compiler names them.
pub fn platform(os: &str, arch: &str) -> (r: &'static str)
    ensures
        r@ == platform_name(os@, arch@),
{
    if same_text(os, "windows") && same_text(arch, "x86_64") {
        "windows-x86_64"
    } else if same_text(os, "linux") && same_text(arch, "x86_64") {
        "linux-x86_64"
    } else {
        "unsupported"
    }
}

/// What a device announces of itself. It signs the whole of it.
#[derive(Debug)]
pub struct Presence {
    pub protocol: u8,
    pub device: String,
    pub signing: String,
    pub encryption: String,
    pub session: String,
    pub issued: i64,
    pub expires: i64,
    pub version: String,
    pub platform: String,
    pub signature: String,
}

impl Clone for Presence {
    fn clone(&self) -> (r: Self)
        ensures
            r == *self,
    {
        Presence {
            protocol: self.protocol,
            device: self.device.clone(),
            signing: self.signing.clone(),
            encryption: self.encryption.clone(),
            session: self.session.clone(),
            issued: self.issued,
            expires: self.expires,
            version: self.version.clone(),
            platform: self.platform.clone(),
            signature: self.signature.clone(),
        }
    }
}

impl Presence {
    /// The presence as it is signed: with an empty signature.
    pub open spec fn json(&self) -> Json {
        Json::Object(
            seq![
                ("protocol"@, Json::Number(self.protocol as int)),
                ("device"@, Json::Text(self.device@)),
                ("signing"@, Json::Text(self.signing@)),
                ("encryption"@, Json::Text(self.encryption@)),
                ("session"@, Json::Text(self.session@)),
                ("issued"@, Json::Number(self.issued as int)),
                ("expires"@, Json::Number(self.expires as int)),
                ("version"@, Json::Text(self.version@)),
                ("platform"@, Json::Text(self.platform@)),
                ("signature"@, Json::Text(Seq::empty())),
            ],
        )
    }

    /// The text that a presence signature covers.
    pub open spec fn signing_text(&self) -> Seq<char> {
        "TwoDrive/presence/v1\0"@ + json_of(self.json())
    }

    fn signing_bytes(&self) -> (r: String)
        ensures
            r@ == self.signing_text(),
    {
        let mut o = ObjectText::new();
        o.unsigned("protocol", self.protocol as u64);
        o.string("device", self.device.as_str());
        o.string("signing", self.signing.as_str());
        o.string("encryption", self.encryption.as_str());
        o.string("session", self.session.as_str());
        o.signed("issued", self.issued);
        o.signed("expires", self.expires);
        o.string("version", self.version.as_str());
        o.string("platform", self.platform.as_str());
        o.string("signature", "");
        proof {
            reveal_strlit("");
            assert(""@ =~= Seq::<char>::empty());
            assert(Json::Object(o.fields()) == self.json()) by {
                assert(o.fields() =~= self.json()->Object_0);
            }
        }
        let j = o.finish();
        joined("TwoDrive/presence/v1\0", j.as_str())
    }

    /// The identifiers and the version have the right form.
    pub open spec fn shaped(&self) -> bool {
        self.protocol == 1 && is_valid_id(self.device@) && is_valid_id(self.session@)
    }

    /// The presence spans three minutes that hold `now`, allowing for clocks
    /// that differ by half a minute.
    pub open spec fn timely(&self, now: int) -> bool {
        &&& self.issued <= now + 30
        &&& self.expires > now
        &&& self.expires <= now + 210
        &&& self.expires - self.issued == 180
    }

    /// Why a presence is refused at a time, if it is.
    pub open spec fn check(&self, now: int) -> Result<(), PeerError> {
        if !self.shaped() {
            Err(PeerError::PresenceShape)
        } else if !self.timely(now) {
            Err(PeerError::PresenceTime)
        } else if encode_utf8(self.version@).len() >= 40 || encode_utf8(self.platform@).len()
            >= 40 {
            Err(PeerError::PresenceMetadata)
        } else if key_of(self.signing@) is Err {
            Err(key_of(self.signing@)->Err_0)
        } else if fingerprint(key_of(self.signing@)->Ok_0) != self.device@ {
            Err(PeerError::Fingerprint)
        } else if key_of(self.encryption@) is Err {
            Err(key_of(self.encryption@)->Err_0)
        } else {
            signature_check(self.signing@, encode_utf8(self.signing_text()), self.signature@)
        }
    }

    /// Verifies form, time, fingerprint and signature.
    pub fn verify(&self, now: i64) -> (r: Result<(), PeerError>)
        requires
            now + 210 <= i64::MAX,
        ensures
            r == self.check(now as int),
    {
        if !(self.protocol == 1 && valid_id(self.device.as_str()) && valid_id(
            self.session.as_str(),
        )) {
            return Err(PeerError::PresenceShape);
        }
        if !(self.issued <= now + 30 && self.expires > now && self.expires <= now + 210
            && self.expires.checked_sub(self.issued) == Some(180i64)) {
            return Err(PeerError::PresenceTime);
        }
        if !(self.version.as_str().as_bytes().len() < 40 && self.platform.as_str().as_bytes().len()
            < 40) {
            return Err(PeerError::PresenceMetadata);
        }
        let key = match bytes32(self.signing.as_str()) {
            Ok(k) => k,
            Err(e) => return Err(e),
        };
        let digest = sha256(key.as_slice());
        if !same_text(hex_text(digest.as_slice()).as_str(), self.device.as_str()) {
            return Err(PeerError::Fingerprint);
        }
        match bytes32(self.encryption.as_str()) {
            Ok(_) => {},
            Err(e) => return Err(e),
        }
        let text = self.signing_bytes();
        verify(self.signing.as_str(), text.as_str().as_bytes(), self.signature.as_str())
    }
}

/// The bytes that a presence signature covers fix every other field of it: a
/// signature cannot be moved to a presence that differs.
pub proof fn lemma_presence_signature_binds(a: Presence, b: Presence)
    requires
        encode_utf8(a.signing_text()) == encode_utf8(b.signing_text()),
    ensures
        same_presence(a, b),
{
    lemma_bytes_determine_text(a.signing_text(), b.signing_text());
    let p = "TwoDrive/presence/v1\0"@;
    crate::json::lemma_after_prefix(p, json_of(a.json()), json_of(b.json()));
    let end = seq!['.'];
    assert(ends_number(end));
    lemma_json_decodes(a.json(), b.json(), end, end);
    let f = a.json()->Object_0;
    let g = b.json()->Object_0;
    assert(f == g);
    assert(f[0] == g[0] && f[1] == g[1] && f[2] == g[2] && f[3] == g[3] && f[4] == g[4]);
    assert(f[5] == g[5] && f[6] == g[6] && f[7] == g[7] && f[8] == g[8]);
}

/// The secret keys of a device.
pub struct Identity {
    signing: [u8; 32],
    secret: [u8; 32],
}

/// A device's secret keys as they are kept on disk.
pub struct Stored {
    pub version: u8,
    pub signing: [u8; 32],
    pub encryption: [u8; 32],
}

/// A presence presents a device in a session, from a moment on and for three
/// minutes, with the device's signature.
pub open spec fn presents(
    identity: Identity,
    session: Seq<char>,
    platform: Seq<char>,
    now: int,
    p: Presence,
) -> bool {
    &&& p.protocol == 1
    &&& p.device@ == identity.device()
    &&& p.signing@ == hex_of(identity.public())
    &&& p.encryption@ == hex_of(x25519_public_of(identity.agreement_secret()))
    &&& p.session@ == session
    &&& p.issued == now
    &&& p.expires == now + 180
    &&& p.version@ == VERSION@
    &&& p.platform@ == platform
    &&& p.signature@ == hex_of(
        ed25519_signature_of(identity.signing_seed(), encode_utf8(p.signing_text())),
    )
}

/// A presence verifies until it expires, on clocks that are at most half a
/// minute behind, where the name of the platform is short and the commitment of
/// the signature is not the neutral point of the curve.
pub open spec fn presence_stands(identity: Identity, now: int, p: Presence) -> bool {
    encode_utf8(p.platform@).len() < 40 && ed25519_signature_of(
        identity.signing_seed(),
        encode_utf8(p.signing_text()),
    ).take(32) != neutral_point() ==> forall|at: int|
        now - 30 <= at < now + 180 ==> #[trigger] p.check(at) is Ok
}

/// A key takes signatures of certain texts and of no others. That holds of a
/// device that signed these texts as far as its signatures cannot be forged.
pub open spec fn signs_only(key: Seq<u8>, texts: Set<Seq<u8>>) -> bool {
    forall|text: Seq<u8>, signature: Seq<u8>| #[trigger]
        ed25519_accepts(key, text, signature) ==> texts.contains(text)
}

/// Two presences agree in everything but the signature.
pub open spec fn same_presence(a: Presence, b: Presence) -> bool {
    &&& a.protocol == b.protocol
    &&& a.device@ == b.device@
    &&& a.signing@ == b.signing@
    &&& a.encryption@ == b.encryption@
    &&& a.session@ == b.session@
    &&& a.issued == b.issued
    &&& a.expires == b.expires
    &&& a.version@ == b.version@
    &&& a.platform@ == b.platform@
}

/// The presence of a device is valid at a time exactly where it was issued at
/// most half a minute later and expires after it.
pub proof fn lemma_presence_is_valid_for_its_time(
    identity: Identity,
    session: Seq<char>,
    platform: Seq<char>,
    issued: int,
    p: Presence,
    now: int,
)
    requires
        presents(identity, session, platform, issued, p),
        presence_stands(identity, issued, p),
        encode_utf8(platform).len() < 40,
        ed25519_signature_of(identity.signing_seed(), encode_utf8(p.signing_text())).take(32)
            != neutral_point(),
    ensures
        p.check(now) is Ok <==> issued - 30 <= now < issued + 180,
{
}

/// A presence that is altered is refused: one under the key of a device that
/// signed no other presence is valid only if it agrees with the one that it
/// signed in everything but the signature. The device may have signed other
/// texts, and its signatures cannot be forged.
pub proof fn lemma_altered_presence_is_refused(
    p: Presence,
    q: Presence,
    texts: Set<Seq<u8>>,
    now: int,
)
    requires
        key_of(p.signing@) is Ok,
        key_of(q.signing@) == key_of(p.signing@),
        signs_only(key_of(p.signing@)->Ok_0, texts),
        forall|other: Presence|
            texts.contains(encode_utf8(#[trigger] other.signing_text())) ==> encode_utf8(
                other.signing_text(),
            ) == encode_utf8(p.signing_text()),
    ensures
        q.check(now) is Ok ==> same_presence(q, p),
{
    if q.check(now) is Ok {
        assert(texts.contains(encode_utf8(q.signing_text())));
        lemma_presence_signature_binds(q, p);
    }
}

impl Identity {
    /// The secret signing key.
    pub closed spec fn signing_seed(&self) -> Seq<u8> {
        self.signing@
    }

    /// The secret of the key agreement.
    pub closed spec fn agreement_secret(&self) -> Seq<u8> {
        self.secret@
    }

    /// The public signing key.
    pub open spec fn public(&self) -> Seq<u8> {
        ed25519_public_of(self.signing_seed())
    }

    /// The identifier of the device.
    pub open spec fn device(&self) -> Seq<char> {
        fingerprint(self.public())
    }

    /// Both secrets of a device have thirty-two bytes.
    pub proof fn lemma_secret_lengths(self)
        ensures
            self.signing_seed().len() == 32,
            self.agreement_secret().len() == 32,
    {
    }

    /// Makes the keys of a new device.
    pub fn generate() -> (r: Self)
        ensures
            r.signing_seed().len() == 32,
            r.agreement_secret().len() == 32,
    {
        Identity { signing: random_signing_key(), secret: random_secret() }
    }

    /// The keys that were kept on disk.
    pub fn from_stored(stored: &Stored) -> (r: Result<Self, PeerError>)
        ensures
            match r {
                Ok(id) => {
                    &&& stored.version == 1
                    &&& id.signing_seed() == stored.signing@
                    &&& id.agreement_secret() == stored.encryption@
                },
                Err(e) => stored.version != 1 && e == PeerError::IdentityVersion,
            },
    {
        if stored.version != 1 {
            return Err(PeerError::IdentityVersion);
        }
        Ok(Identity { signing: stored.signing, secret: stored.encryption })
    }

    /// The keys as they are to be kept on disk: reading them back gives the
    /// same device.
    pub fn to_stored(&self) -> (r: Stored)
        ensures
            r.version == 1,
            r.signing@ == self.signing_seed(),
            r.encryption@ == self.agreement_secret(),
    {
        Stored { version: 1, signing: self.signing, encryption: self.secret }
    }

    /// The identifier of the device: the fingerprint of its signing key.
    pub fn id(&self) -> (r: String)
        ensures
            r@ == self.device(),
            is_valid_id(r@),
    {
        let public = ed25519_public(&self.signing);
        let digest = sha256(public.as_slice());
        proof {
            lemma_hex_is_valid_id(digest@);
        }
        hex_text(digest.as_slice())
    }

    /// Signs bytes. The signature verifies with the device's own key, unless
    /// its commitment is the neutral point of the curve.
    pub fn sign(&self, data: &[u8]) -> (r: String)
        ensures
            r@ == hex_of(ed25519_signature_of(self.signing_seed(), data@)),
            ed25519_signature_of(self.signing_seed(), data@).take(32) != neutral_point()
                ==> signature_check(hex_of(self.public()), data@, r@) is Ok,
    {
        let s = ed25519_sign(&self.signing, data);
        let public = ed25519_public(&self.signing);
        proof {
            lemma_unhex_hex(s@);
            lemma_unhex_hex(public@);
        }
        hex_text(s.as_slice())
    }

    /// What the key agreement with a public key gives.
    pub open spec fn agreed(&self, public: Seq<char>) -> Result<Seq<u8>, PeerError> {
        match key_of(public) {
            Err(e) => Err(e),
            Ok(p) => {
                let shared = x25519_shared_of(self.agreement_secret(), p);
                if all_zero(shared) {
                    Err(PeerError::NotContributory)
                } else {
                    Ok(shared)
                }
            },
        }
    }

    /// Agrees on a secret with the owner of a public key.
    pub fn shared(&self, public: &str) -> (r: Result<[u8; 32], PeerError>)
        ensures
            match r {
                Ok(s) => self.agreed(public@) == Ok::<Seq<u8>, PeerError>(s@),
                Err(e) => self.agreed(public@) == Err::<Seq<u8>, PeerError>(e),
            },
    {
        let p = match bytes32(public) {
            Ok(p) => p,
            Err(e) => return Err(e),
        };
        let (shared, contributory) = x25519_shared(&self.secret, &p);
        if !contributory {
            return Err(PeerError::NotContributory);
        }
        Ok(shared)
    }

    /// What the device announces in a session at a time. The presence is
    /// valid then, and throughout the three minutes from half a minute before,
    /// unless the commitment of its signature is the neutral point of the
    /// curve or the platform's name is too long.
    pub fn presence(&self, session: &str, now: i64, platform: &str) -> (r: Presence)
        requires
            now + 180 <= i64::MAX,
        ensures
            presents(*self, session@, platform@, now as int, r),
            is_valid_id(session@) ==> presence_stands(*self, now as int, r),
    {
        let public = ed25519_public(&self.signing);
        let encryption = x25519_public(&self.secret);
        let mut p = Presence {
            protocol: 1,
            device: self.id(),
            signing: hex_text(public.as_slice()),
            encryption: hex_text(encryption.as_slice()),
            session: session.to_owned(),
            issued: now,
            expires: now + 180,
            version: VERSION.to_owned(),
            platform: platform.to_owned(),
            signature: String::new(),
        };
        let text = p.signing_bytes();
        p.signature = self.sign(text.as_str().as_bytes());
        proof {
            lemma_unhex_hex(public@);
            lemma_unhex_hex(encryption@);
            assert(p.signing_text() == text@);
            lemma_version_is_short();
        }
        p
    }
}

/// The announced version is a short text.
pub proof fn lemma_version_is_short()
    ensures
        encode_utf8(VERSION@).len() == 5,
{
    reveal_strlit("0.1.0");
    vstd::utf8::is_ascii_chars_encode_utf8(VERSION@);
}

} // verus!
