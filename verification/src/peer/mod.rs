//! The device peer: identities, sealed control messages, the control protocol
//! between devices and signed updates.

pub mod crypto;
pub mod identity;
pub mod laws;
pub mod local;
pub mod primitives;
pub mod protocol;
pub mod runtime;
pub mod tick;
pub mod update;
pub mod version;

use vstd::prelude::*;

verus! {

/// The version that this peer announces.
pub const VERSION: &'static str = "0.1.0";

/// Why the peer refuses something.
#[derive(Clone, Copy, PartialEq, Eq, Structural, Debug)]
pub enum PeerError {
    /// A text that should be hexadecimal notation is not.
    NotHex,
    /// A key is not thirty-two bytes long.
    KeyLength,
    /// A key agreement to which the other key contributes nothing.
    NotContributory,
    /// The stored identity has another version.
    IdentityVersion,
    /// A presence has another version or malformed identifiers.
    PresenceShape,
    /// A presence is stale or spans a wrong time.
    PresenceTime,
    /// A presence has an overlong version or platform.
    PresenceMetadata,
    /// The device identifier is not the fingerprint of the signing key.
    Fingerprint,
    /// A signature does not verify.
    Signature,
    /// An envelope is too large, has another version or a malformed identifier.
    EnvelopeShape,
    /// An envelope is for another device, sender or session.
    EnvelopeRoute,
    /// An envelope has expired or spans a wrong time.
    EnvelopeTime,
    /// A cipher nonce is not twenty-four bytes long.
    NonceLength,
    /// A recipient's key contributes nothing to the key agreement.
    RecipientKey,
    /// Encryption failed.
    Encryption,
    /// Decryption failed.
    Authentication,
    /// A release tag is not of the form that releases have.
    Tag,
    /// A release is of another product or schema.
    UpdateProduct,
    /// A release is for another platform or names another file.
    UpdatePlatform,
    /// A release is not a newer stable version.
    UpdateVersion,
    /// A release has an impossible size or a malformed digest.
    UpdateSize,
    /// A file is not the one that its release describes.
    UpdateBytes,
    /// Updates are not installed by themselves on this platform.
    InstallPlatform,
    /// A release notification is not newer than what is known.
    NotNewer,
    /// A release is not the one that its tag names.
    TagMismatch,
    /// What is installed under a version has another release proof.
    ExistingDiffers,
    /// What is installed under a version is of another version.
    InstalledVersion,
    /// A pending version is not newer than what was active before.
    PendingRollback,
    /// A file cannot be read.
    Unreadable,
    /// A candidate did not answer its health check rightly.
    Health,
    /// A presence is the device's own.
    SelfPresence,
    /// As many peers are known as can be.
    PeerLimit,
    /// No peer is known under an identifier.
    UnknownPeer,
    /// A peer has announced no presence yet.
    NotDiscovered,
    /// A peer has not been authenticated.
    HandshakeIncomplete,
    /// A message that only the handshake may use.
    ReservedMessage,
    /// A malformed ping, or as many pings are outstanding as can be.
    PingLimit,
    /// A message comes from a device that is no peer.
    UntrustedSender,
    /// What an envelope held is no message.
    Malformed,
    /// A message was received before.
    Replayed,
    /// As many messages are remembered as can be.
    ReplayWindow,
    /// A malformed challenge.
    Challenge,
    /// An answer to another challenge than the one that stands.
    ChallengeMismatch,
    /// A message before the handshake.
    BeforeHandshake,
    /// A malformed ping.
    BadPing,
    /// An answer to no outstanding ping.
    UnsolicitedPong,
    /// An impossible status.
    BadStatus,
    /// A malformed fingerprint of a device to trust.
    BadFingerprint,
    /// As many devices are trusted as can be.
    TrustLimit,
    /// A message is for a device that is not trusted.
    UntrustedRecipient,
    /// As many messages wait to be sent as can.
    OutboxFull,
    /// An object or a file is too large.
    TooLarge,
    /// An object in a mailbox has another name than its envelope.
    MailName,
    /// A peer's executable did not start.
    StartupFailed,
    /// A peer's executable ended badly.
    WorkerStopped,
    /// A directory holds another program's data.
    ForeignState,
    /// A directory is neither empty nor a peer's.
    OccupiedState,
    /// A peer's directory has a wrong marker.
    StateMarker,
    /// A directory cannot be found.
    NoHome,
    /// Something to be selected is no directory.
    NotDirectory,
    /// A platform for which no releases are made.
    ReleasePlatform,
    /// The self test failed.
    SelfTest,
}

} // verus!
