//! Signed updates. The trust in a release is independent of the cloud storage:
//! a message from a peer supplies the tag of a release, never a key, an
//! address or a command.

use super::identity::{bytes32, is_valid_id, signature_check, valid_id, verify};
use super::primitives::{
    ed25519_public, ed25519_public_of, ed25519_sign, ed25519_signature_of, hex_of, hex_text,
    lemma_unhex_hex, neutral_point, random_signing_key, sha256, sha256_of,
};
use super::version::{exceeds, is_own_version, own_version, semver_parse, stable_text, Version};
use super::PeerError;
use crate::json::{
    ends_number, json_of, lemma_after_prefix, lemma_json_decodes, Json, ObjectText,
};
use crate::text::{joined, lemma_bytes_determine_text, same_text, without_prefix};
use vstd::prelude::*;
use vstd::string::StrSliceExecFns;
use vstd::utf8::encode_utf8;

verus! {

/// The largest executable that is installed.
pub const MAX_EXE: usize = 134217728;

/// Where releases are published.
pub const REPOSITORY: &'static str = "https://github.com/LumiaBlack51/twodrive/releases/download";

/// A published release and its proof.
#[derive(Debug)]
pub struct Release {
    pub schema: u8,
    pub product: String,
    pub version: Version,
    pub platform: String,
    pub file: String,
    pub size: u64,
    pub sha256: String,
    pub signature: String,
}

impl Clone for Release {
    fn clone(&self) -> (r: Self)
        ensures
            r == *self,
    {
        Release {
            schema: self.schema,
            product: self.product.clone(),
            version: self.version.clone(),
            platform: self.platform.clone(),
            file: self.file.clone(),
            size: self.size,
            sha256: self.sha256.clone(),
            signature: self.signature.clone(),
        }
    }
}

/// The name of the executable on a platform.
pub open spec fn executable_name_of(platform: Seq<char>) -> Seq<char> {
    if platform == "windows-x86_64"@ {
        "twodrive-peer.exe"@
    } else {
        "twodrive-peer"@
    }
}

/// The name of the executable on a platform.
pub fn executable_name(platform: &str) -> (r: &'static str)
    ensures
        r@ == executable_name_of(platform@),
{
    if same_text(platform, "windows-x86_64") {
        "twodrive-peer.exe"
    } else {
        "twodrive-peer"
    }
}

impl Release {
    /// The release as it is signed: with an empty signature.
    pub open spec fn json(&self) -> Json {
        Json::Object(
            seq![
                ("schema"@, Json::Number(self.schema as int)),
                ("product"@, Json::Text(self.product@)),
                ("version"@, Json::Text(self.version.text())),
                ("platform"@, Json::Text(self.platform@)),
                ("file"@, Json::Text(self.file@)),
                ("size"@, Json::Number(self.size as int)),
                ("sha256"@, Json::Text(self.sha256@)),
                ("signature"@, Json::Text(Seq::empty())),
            ],
        )
    }

    /// The text that a release signature covers.
    pub open spec fn signing_text(&self) -> Seq<char> {
        "TwoDrive/release/v1\0"@ + json_of(self.json())
    }

    /// The bytes that a release signature covers.
    pub fn signing_bytes(&self) -> (r: Vec<u8>)
        ensures
            r@ == encode_utf8(self.signing_text()),
    {
        let mut o = ObjectText::new();
        o.unsigned("schema", self.schema as u64);
        o.string("product", self.product.as_str());
        let version = self.version.to_text();
        o.string("version", version.as_str());
        o.string("platform", self.platform.as_str());
        o.string("file", self.file.as_str());
        o.unsigned("size", self.size);
        o.string("sha256", self.sha256.as_str());
        o.string("signature", "");
        proof {
            reveal_strlit("");
            assert(""@ =~= Seq::<char>::empty());
            assert(o.fields() =~= self.json()->Object_0);
        }
        let j = o.finish();
        let text = joined("TwoDrive/release/v1\0", j.as_str());
        text.as_str().as_bytes_vec()
    }

    /// Why a release is refused on a platform and by a key, if it is. `newer`
    /// says whether it is newer than it has to be.
    pub open spec fn check(
        &self,
        key: Seq<char>,
        platform: Seq<char>,
        newer: bool,
    ) -> Result<(), PeerError> {
        if !(self.schema == 1 && self.product@ == "twodrive-peer"@) {
            Err(PeerError::UpdateProduct)
        } else if !(self.platform@ == platform && self.file@ == executable_name_of(platform)) {
            Err(PeerError::UpdatePlatform)
        } else if !(newer && self.version.stable()) {
            Err(PeerError::UpdateVersion)
        } else if !(0 < self.size <= MAX_EXE && is_valid_id(self.sha256@)) {
            Err(PeerError::UpdateSize)
        } else {
            signature_check(key, encode_utf8(self.signing_text()), self.signature@)
        }
    }

    /// Verifies product, platform, version, size and signature.
    pub fn verify_key(&self, key: &str, platform: &str, floor: &Version) -> (r: Result<
        (),
        PeerError,
    >)
        ensures
            r == self.check(key@, platform@, self.version.newer(*floor)),
    {
        if !(self.schema == 1 && same_text(self.product.as_str(), "twodrive-peer")) {
            return Err(PeerError::UpdateProduct);
        }
        if !(same_text(self.platform.as_str(), platform) && same_text(
            self.file.as_str(),
            executable_name(platform),
        )) {
            return Err(PeerError::UpdatePlatform);
        }
        if !(exceeds(&self.version, floor) && self.version.is_stable()) {
            return Err(PeerError::UpdateVersion);
        }
        if !(self.size > 0 && self.size <= MAX_EXE as u64 && valid_id(self.sha256.as_str())) {
            return Err(PeerError::UpdateSize);
        }
        match bytes32(key) {
            Ok(_) => {},
            Err(e) => return Err(e),
        }
        let covered = self.signing_bytes();
        verify(key, covered.as_slice(), self.signature.as_str())
    }

    /// The bytes are the file that the release describes.
    pub open spec fn describes(&self, bytes: Seq<u8>) -> bool {
        bytes.len() == self.size && hex_of(sha256_of(bytes)) == self.sha256@
    }

    /// Whether bytes are the file that the release describes.
    pub fn check_bytes(&self, bytes: &[u8]) -> (r: Result<(), PeerError>)
        ensures
            r == if self.describes(bytes@) {
                Ok(())
            } else {
                Err(PeerError::UpdateBytes)
            },
    {
        let digest = sha256(bytes);
        if bytes.len() as u64 == self.size && same_text(
            hex_text(digest.as_slice()).as_str(),
            self.sha256.as_str(),
        ) {
            Ok(())
        } else {
            Err(PeerError::UpdateBytes)
        }
    }
}

/// The bytes that a release signature covers fix every field of the release: a
/// signature cannot be moved to another version, platform, file or digest.
pub proof fn lemma_release_signature_binds(a: Release, b: Release)
    requires
        encode_utf8(a.signing_text()) == encode_utf8(b.signing_text()),
    ensures
        a.schema == b.schema,
        a.product@ == b.product@,
        a.version.text() == b.version.text(),
        a.platform@ == b.platform@,
        a.file@ == b.file@,
        a.size == b.size,
        a.sha256@ == b.sha256@,
{
    lemma_bytes_determine_text(a.signing_text(), b.signing_text());
    lemma_after_prefix("TwoDrive/release/v1\0"@, json_of(a.json()), json_of(b.json()));
    let end = seq!['.'];
    assert(ends_number(end));
    lemma_json_decodes(a.json(), b.json(), end, end);
    let f = a.json()->Object_0;
    let g = b.json()->Object_0;
    assert(f == g);
    assert(f[0] == g[0] && f[1] == g[1] && f[2] == g[2] && f[3] == g[3] && f[4] == g[4]);
    assert(f[5] == g[5] && f[6] == g[6]);
}

/// `tag` is the tag of the release of a stable version.
pub open spec fn is_tag(tag: Seq<char>, v: Version) -> bool {
    &&& encode_utf8(tag).len() < 64
    &&& v.stable()
    &&& tag == "peer-v"@ + stable_text(v.major, v.minor, v.patch)
}

/// The version that a release tag names.
pub fn validate_tag(tag: &str) -> (r: Result<Version, PeerError>)
    ensures
        match r {
            Ok(v) => is_tag(tag@, v),
            Err(e) => e == PeerError::Tag && forall|v: Version| !is_tag(tag@, v),
        },
{
    if !(tag.as_bytes().len() < 64) {
        return Err(PeerError::Tag);
    }
    let rest = match without_prefix(tag, "peer-v") {
        Some(rest) => rest,
        None => {
            proof {
                assert forall|v: Version| !is_tag(tag@, v) by {
                    let s = "peer-v"@ + stable_text(v.major, v.minor, v.patch);
                    assert(s.take("peer-v"@.len() as int) =~= "peer-v"@);
                }
            }
            return Err(PeerError::Tag);
        },
    };
    proof {
        assert forall|v: Version| is_tag(tag@, v) implies rest@ == stable_text(
            v.major,
            v.minor,
            v.patch,
        ) by {
            lemma_after_prefix("peer-v"@, rest@, stable_text(v.major, v.minor, v.patch));
        }
    }
    let v = match semver_parse(rest.as_str()) {
        Some(v) => v,
        None => {
            return Err(PeerError::Tag);
        },
    };
    let text = v.to_text();
    if v.is_stable() && same_text(tag, joined("peer-v", text.as_str()).as_str()) {
        proof {
            assert(v.text() =~= stable_text(v.major, v.minor, v.patch));
        }
        Ok(v)
    } else {
        proof {
            assert forall|w: Version| !is_tag(tag@, w) by {
                if is_tag(tag@, w) {
                    assert(rest@ == stable_text(w.major, w.minor, w.patch));
                    assert(v.stable());
                    assert(false);
                }
            }
        }
        Err(PeerError::Tag)
    }
}

/// Which versions are installed, and the highest that was ever active.
#[derive(Debug)]
pub struct UpdateState {
    pub active: Option<Version>,
    pub previous: Option<Version>,
    pub pending: Option<Version>,
    pub highwater: Option<Version>,
}

impl Default for UpdateState {
    fn default() -> (r: Self)
        ensures
            r.active is None && r.previous is None && r.pending is None && r.highwater is None,
    {
        UpdateState { active: None, previous: None, pending: None, highwater: None }
    }
}

fn copy_version(v: &Option<Version>) -> (r: Option<Version>)
    ensures
        r == *v,
{
    match v {
        Some(v) => Some(v.clone()),
        None => None,
    }
}

impl Clone for UpdateState {
    fn clone(&self) -> (r: Self)
        ensures
            r == *self,
    {
        UpdateState {
            active: copy_version(&self.active),
            previous: copy_version(&self.previous),
            pending: copy_version(&self.pending),
            highwater: copy_version(&self.highwater),
        }
    }
}

impl UpdateState {
    /// `v` is the floor: the highest version that was ever active or is
    /// announced, whichever is newer.
    pub open spec fn is_floor(&self, v: Version) -> bool {
        match self.highwater {
            Some(h) => if h.newer(announced()) {
                v == h
            } else {
                is_own_version(v)
            },
            None => is_own_version(v),
        }
    }

    /// `v` is newer than the floor.
    pub open spec fn above_floor(&self, v: Version) -> bool {
        match self.highwater {
            Some(h) => if h.newer(announced()) {
                v.newer(h)
            } else {
                v.newer(announced())
            },
            None => v.newer(announced()),
        }
    }

    /// The version that an update has to exceed.
    pub fn floor(&self) -> (r: Version)
        ensures
            self.is_floor(r),
            forall|v: Version| #[trigger] v.newer(r) == self.above_floor(v),
    {
        let own = own_version();
        proof {
            lemma_announced(own);
        }
        match &self.highwater {
            Some(h) => if exceeds(h, &own) {
                h.clone()
            } else {
                own
            },
            None => own,
        }
    }
}

/// The announced version.
pub open spec fn announced() -> Version {
    choose|v: Version| is_own_version(v)
}

/// Versions are compared alike with every value that stands for the announced
/// version.
proof fn lemma_announced(own: Version)
    requires
        is_own_version(own),
    ensures
        is_own_version(announced()),
        forall|v: Version| #[trigger] v.newer(own) == v.newer(announced()),
        forall|v: Version| own.newer(v) == #[trigger] announced().newer(v),
{
    let a = announced();
    assert(a.pre@ =~= own.pre@);
    assert(a.build@ =~= own.build@);
}

/// What is found installed: a release proof and an executable.
pub struct Installed {
    pub release: Release,
    pub bytes: Vec<u8>,
}

/// What staging a release gives: whether its files are to be installed, or why
/// it is refused. Staging again what is installed already is in order; another
/// file or another proof under the same version is not.
pub open spec fn stage_result(
    state: UpdateState,
    release: Release,
    bytes: Seq<u8>,
    existing: Option<Installed>,
    key: Seq<char>,
    platform: Seq<char>,
) -> Result<bool, PeerError> {
    match release.check(key, platform, state.above_floor(release.version)) {
        Err(e) => Err(e),
        Ok(_) => if !release.describes(bytes) {
            Err(PeerError::UpdateBytes)
        } else {
            match existing {
                None => Ok(true),
                Some(i) => if !release.describes(i.bytes@) {
                    Err(PeerError::UpdateBytes)
                } else if i.release.signature@ != release.signature@ {
                    Err(PeerError::ExistingDiffers)
                } else {
                    Ok(false)
                },
            }
        },
    }
}

/// Stages a release: verifies it and its file, compares it with what is
/// installed under its version, and makes it the pending version. The result
/// says whether the files are still to be installed.
pub fn stage_local(
    state: &mut UpdateState,
    release: &Release,
    bytes: &[u8],
    existing: &Option<Installed>,
    key: &str,
    platform: &str,
) -> (r: Result<bool, PeerError>)
    ensures
        r == stage_result(*old(state), *release, bytes@, *existing, key@, platform@),
        *final(state) == if r is Ok {
            (UpdateState { pending: Some(release.version), ..*old(state) })
        } else {
            *old(state)
        },
{
    let floor = state.floor();
    assert(release.version.newer(floor) == state.above_floor(release.version));
    match release.verify_key(key, platform, &floor) {
        Ok(_) => {},
        Err(e) => return Err(e),
    }
    match release.check_bytes(bytes) {
        Ok(_) => {},
        Err(e) => return Err(e),
    }
    let install = match existing {
        None => true,
        Some(i) => {
            match release.check_bytes(i.bytes.as_slice()) {
                Ok(_) => {},
                Err(e) => return Err(e),
            }
            if !same_text(i.release.signature.as_str(), release.signature.as_str()) {
                return Err(PeerError::ExistingDiffers);
            }
            false
        },
    };
    state.pending = Some(release.version.clone());
    Ok(install)
}

/// The addresses of a release.
pub struct Download {
    pub version: Version,
    pub manifest: String,
    pub binary: String,
}

/// Where the release that a tag names is fetched from. Only a well-formed tag
/// of a version above the floor gives addresses, and only the tag's own text
/// enters them.
pub fn download_plan(tag: &str, platform: &str, state: &UpdateState) -> (r: Result<
    Download,
    PeerError,
>)
    ensures
        match r {
            Ok(d) => {
                &&& is_tag(tag@, d.version)
                &&& platform@ == "windows-x86_64"@
                &&& state.above_floor(d.version)
                &&& d.manifest@ == REPOSITORY@ + "/"@ + tag@
                    + "/twodrive-peer-windows-x86_64.json"@
                &&& d.binary@ == REPOSITORY@ + "/"@ + tag@ + "/twodrive-peer.exe"@
            },
            Err(e) => {
                ||| e == PeerError::Tag && forall|v: Version| !is_tag(tag@, v)
                ||| {
                    &&& e == PeerError::InstallPlatform
                    &&& exists|v: Version| is_tag(tag@, v)
                    &&& platform@ != "windows-x86_64"@
                }
                ||| {
                    &&& e == PeerError::NotNewer
                    &&& platform@ == "windows-x86_64"@
                    &&& exists|v: Version| #[trigger] is_tag(tag@, v) && !state.above_floor(v)
                }
            },
        },
{
    let version = match validate_tag(tag) {
        Ok(v) => v,
        Err(e) => return Err(e),
    };
    if !same_text(platform, "windows-x86_64") {
        return Err(PeerError::InstallPlatform);
    }
    let floor = state.floor();
    if !exceeds(&version, &floor) {
        return Err(PeerError::NotNewer);
    }
    let slash = joined(REPOSITORY, "/");
    let root = joined(slash.as_str(), tag);
    Ok(
        Download {
            version,
            manifest: joined(root.as_str(), "/twodrive-peer-windows-x86_64.json"),
            binary: joined(root.as_str(), "/twodrive-peer.exe"),
        },
    )
}

/// Whether the release that was fetched for a tag is to be fetched on: it must
/// verify and be of the version that the tag names.
pub fn accept_download(
    version: &Version,
    release: &Release,
    key: &str,
    platform: &str,
    state: &UpdateState,
) -> (r: Result<(), PeerError>)
    ensures
        r == match release.check(key@, platform@, state.above_floor(release.version)) {
            Err(e) => Err(e),
            Ok(_) => if release.version.same(*version) {
                Ok(())
            } else {
                Err(PeerError::TagMismatch)
            },
        },
{
    let floor = state.floor();
    match release.verify_key(key, platform, &floor) {
        Ok(_) => {},
        Err(e) => return Err(e),
    }
    if release.version.equals(version) {
        Ok(())
    } else {
        Err(PeerError::TagMismatch)
    }
}

/// What is installed under a version is that version with a release proof. It
/// need not exceed the floor.
pub open spec fn installed_check(
    installed: Installed,
    version: Version,
    key: Seq<char>,
    platform: Seq<char>,
) -> Result<(), PeerError> {
    let v = installed.release.version;
    match installed.release.check(
        key,
        platform,
        !(v.major == 0 && v.minor == 0 && v.patch == 0),
    ) {
        Err(e) => Err(e),
        Ok(_) => if !v.same(version) {
            Err(PeerError::InstalledVersion)
        } else if !installed.release.describes(installed.bytes@) {
            Err(PeerError::UpdateBytes)
        } else {
            Ok(())
        },
    }
}

/// Verifies what is installed under a version.
pub fn verify_installed(installed: &Installed, version: &Version, key: &str, platform: &str) -> (r:
    Result<(), PeerError>)
    ensures
        r == installed_check(*installed, *version, key@, platform@),
{
    let zero = Version::new(0, 0, 0);
    match installed.release.verify_key(key, platform, &zero) {
        Ok(_) => {},
        Err(e) => return Err(e),
    }
    if !installed.release.version.equals(version) {
        return Err(PeerError::InstalledVersion);
    }
    installed.release.check_bytes(installed.bytes.as_slice())
}

/// A place below the directory of updates.
pub struct Location {
    pub directory: String,
    pub file: String,
}

/// A place is that of the executable that is installed under a version.
pub open spec fn place_of(version: Version, installed: Installed, place: Location) -> bool {
    place.directory@ == version.text() && place.file@ == installed.release.file@
}

/// Why what is found installed under a version is refused, if it is.
pub open spec fn inspection(
    version: Version,
    installed: Option<Installed>,
    key: Seq<char>,
    platform: Seq<char>,
) -> Result<(), PeerError> {
    match installed {
        None => Err(PeerError::Unreadable),
        Some(i) => installed_check(i, version, key, platform),
    }
}

/// Verifies what is found installed under a version, and gives the place of its
/// executable only if it does.
pub fn inspected(version: &Version, installed: &Option<Installed>, key: &str, platform: &str) -> (r:
    Result<Location, PeerError>)
    ensures
        match r {
            Ok(l) => {
                &&& *installed is Some
                &&& installed_check(installed->0, *version, key@, platform@) is Ok
                &&& place_of(*version, installed->0, l)
            },
            Err(e) => inspection(*version, *installed, key@, platform@) == Err::<(), PeerError>(e),
        },
{
    match installed {
        None => Err(PeerError::Unreadable),
        Some(i) => match verify_installed(i, version, key, platform) {
            Err(e) => Err(e),
            Ok(_) => Ok(Location { directory: version.to_text(), file: i.release.file.clone() }),
        },
    }
}

/// How the activation of a pending version begins.
pub enum Activation {
    /// Nothing is pending.
    Idle,
    /// The pending version is refused without looking at its files.
    Refused(PeerError),
    /// What is installed under the version is to be verified, and launched for
    /// its health check only if it does.
    Inspect(Version),
}

/// Begins the activation of the pending version.
pub fn activate_pending(state: &UpdateState) -> (r: Activation)
    ensures
        r == match state.pending {
            None => Activation::Idle,
            Some(v) => if state.above_floor(v) {
                Activation::Inspect(v)
            } else {
                Activation::Refused(PeerError::PendingRollback)
            },
        },
{
    match &state.pending {
        None => Activation::Idle,
        Some(v) => {
            let floor = state.floor();
            if exceeds(v, &floor) {
                Activation::Inspect(v.clone())
            } else {
                Activation::Refused(PeerError::PendingRollback)
            }
        },
    }
}

impl UpdateState {
    /// The state after an activation that succeeded or failed.
    pub open spec fn settled(&self, success: bool) -> UpdateState {
        if success {
            UpdateState {
                previous: self.active,
                active: self.pending,
                highwater: self.pending,
                pending: None,
            }
        } else {
            UpdateState { pending: None, ..*self }
        }
    }

    /// Ends an activation: in either case nothing is pending any more; only a
    /// success changes the active version and the floor.
    pub fn settle(&mut self, success: bool)
        ensures
            *final(self) == old(self).settled(success),
    {
        let version = self.pending.take();
        if success {
            self.previous = self.active.take();
            self.active = copy_version(&version);
            self.highwater = version;
        }
    }

    /// The state after going back to the previous version.
    pub open spec fn rolled_back(&self) -> UpdateState {
        UpdateState {
            active: self.previous,
            previous: None,
            pending: None,
            highwater: self.highwater,
        }
    }
}

/// Goes back to the previous version. The floor stays.
pub fn rollback(state: &mut UpdateState)
    ensures
        *final(state) == old(state).rolled_back(),
{
    state.active = state.previous.take();
    state.pending = None;
}

/// Ends the activation of the pending version: it is adopted only where what is
/// installed under it was verified and the candidate was healthy.
pub fn conclude_activation(
    state: &mut UpdateState,
    inspected: &Result<Location, PeerError>,
    healthy: bool,
)
    ensures
        *final(state) == old(state).settled(*inspected is Ok && healthy),
{
    state.settle(inspected.is_ok() && healthy);
}

/// The candidate for activation may be launched for its health check: the version
/// is pending and above the floor, what is installed under it verifies, and the
/// place is that of its executable.
pub open spec fn launchable(
    state: UpdateState,
    installed: Option<Installed>,
    key: Seq<char>,
    platform: Seq<char>,
    place: Location,
    version: Version,
) -> bool {
    &&& state.pending == Some(version)
    &&& state.above_floor(version)
    &&& installed is Some
    &&& installed_check(installed->0, version, key, platform) is Ok
    &&& place_of(version, installed->0, place)
}

/// Activates the pending version, if there is one. `installed` is what is found
/// under it, and `health` launches a candidate for its health check.
///
/// `health` may rely on its candidate: it is called once for a version above the
/// floor whose installed package verifies, with the place of its executable, and
/// otherwise not at all. The version becomes the active one exactly where `health`
/// was called and returned that all is well. In any case nothing is pending
/// afterwards.
pub fn activate<F: FnOnce(&Location, &Version) -> Result<(), PeerError>>(
    state: &mut UpdateState,
    installed: &Option<Installed>,
    key: &str,
    platform: &str,
    health: F,
) -> (r: Result<(), PeerError>)
    requires
        forall|l: Location, v: Version|
            launchable(*old(state), *installed, key@, platform@, l, v) ==> #[trigger] health.requires(
                (&l, &v),
            ),
    ensures
        match old(state).pending {
            None => r is Ok && *final(state) == *old(state),
            Some(v) => if !old(state).above_floor(v) {
                &&& r == Err::<(), PeerError>(PeerError::PendingRollback)
                &&& *final(state) == old(state).settled(false)
            } else {
                match inspection(v, *installed, key@, platform@) {
                    Err(e) => {
                        &&& r == Err::<(), PeerError>(e)
                        &&& *final(state) == old(state).settled(false)
                    },
                    Ok(_) => {
                        &&& exists|l: Location|
                            launchable(*old(state), *installed, key@, platform@, l, v)
                                && #[trigger] health.ensures((&l, &v), r)
                        &&& *final(state) == old(state).settled(r is Ok)
                    },
                }
            },
        },
{
    let version = match activate_pending(state) {
        Activation::Idle => return Ok(()),
        Activation::Refused(e) => {
            state.settle(false);
            return Err(e);
        },
        Activation::Inspect(v) => v,
    };
    let inspected = inspected(&version, installed, key, platform);
    let result = match &inspected {
        Err(e) => Err(*e),
        Ok(place) => health(place, &version),
    };
    conclude_activation(state, &inspected, result.is_ok());
    result
}

/// Which executable is to run: that of the active version, if what is
/// installed under it verifies, and the first one where no version is active.
pub fn active_executable(
    state: &UpdateState,
    installed: &Option<Installed>,
    key: &str,
    platform: &str,
) -> (r: Result<Option<Location>, PeerError>)
    ensures
        match r {
            Ok(None) => state.active is None,
            Ok(Some(l)) => {
                &&& state.active is Some && *installed is Some
                &&& installed_check(installed->0, state.active->0, key@, platform@) is Ok
                &&& place_of(state.active->0, installed->0, l)
            },
            Err(e) => {
                &&& state.active is Some
                &&& match *installed {
                    None => e == PeerError::Unreadable,
                    Some(i) => installed_check(i, state.active->0, key@, platform@) == Err::<
                        (),
                        PeerError,
                    >(e),
                }
            },
        },
{
    match &state.active {
        None => Ok(None),
        Some(v) => match inspected(v, installed, key, platform) {
            Err(e) => Err(e),
            Ok(l) => Ok(Some(l)),
        },
    }
}

/// What waiting for a candidate's health check calls for.
#[derive(Clone, Copy, PartialEq, Eq, Structural, Debug)]
pub enum HealthWait {
    /// It has ended well; its answer is to be read.
    Read,
    /// It has ended badly.
    Failed,
    /// It has run for too long and is to be killed.
    Kill,
    /// It is to be asked again after a tenth of a second.
    Again,
}

/// What is to be done about a candidate that has ended (well or badly) or
/// still runs after some nanoseconds: more than twenty seconds are too long.
pub fn health_wait(ended: Option<bool>, elapsed: u64) -> (r: HealthWait)
    ensures
        r == match ended {
            Some(true) => HealthWait::Read,
            Some(false) => HealthWait::Failed,
            None => if elapsed > 20_000_000_000 {
                HealthWait::Kill
            } else {
                HealthWait::Again
            },
        },
{
    match ended {
        Some(true) => HealthWait::Read,
        Some(false) => HealthWait::Failed,
        None => if elapsed > 20_000_000_000 {
            HealthWait::Kill
        } else {
            HealthWait::Again
        },
    }
}

/// Whether a candidate's answer is that of the version and platform asked for.
pub fn health_answer(
    version: &Option<String>,
    answered: &Option<String>,
    ok: Option<bool>,
    expected: &Version,
    platform: &str,
) -> (r: Result<(), PeerError>)
    ensures
        r == if (*version matches Some(v) && v@ == expected.text()) && (*answered matches Some(p)
            && p@ == platform@) && ok == Some(true) {
            Ok(())
        } else {
            Err(PeerError::Health)
        },
{
    let text = expected.to_text();
    let same_version = match version {
        Some(v) => same_text(v.as_str(), text.as_str()),
        None => false,
    };
    let same_platform = match answered {
        Some(p) => same_text(p.as_str(), platform),
        None => false,
    };
    let well = match ok {
        Some(b) => b,
        None => false,
    };
    if same_version && same_platform && well {
        Ok(())
    } else {
        Err(PeerError::Health)
    }
}

/// A new key pair of the publisher: the secret key, and the public key as the
/// line that the programs are built with.
pub fn keygen() -> (r: ([u8; 32], String))
    ensures
        r.1@ == hex_of(ed25519_public_of(r.0@)) + "\n"@,
{
    let secret = random_signing_key();
    let public = ed25519_public(&secret);
    (secret, joined(&hex_text(&public), "\n"))
}

/// Makes the release of an executable and signs it. It verifies with the
/// publisher's public key wherever its version is new and stable and its size
/// is in bounds, unless the commitment of its signature is the neutral point
/// of the curve.
pub fn sign_release(secret: &[u8; 32], bytes: &[u8], version: Version, platform: &str) -> (r:
    Result<Release, PeerError>)
    ensures
        match r {
            Err(e) => {
                &&& e == PeerError::ReleasePlatform
                &&& platform@ != "windows-x86_64"@
                &&& platform@ != "linux-x86_64"@
            },
            Ok(release) => {
                let signature = ed25519_signature_of(
                    secret@,
                    encode_utf8(release.signing_text()),
                );
                &&& platform@ == "windows-x86_64"@ || platform@ == "linux-x86_64"@
                &&& release.schema == 1
                &&& release.product@ == "twodrive-peer"@
                &&& release.version == version
                &&& release.platform@ == platform@
                &&& release.file@ == executable_name_of(platform@)
                &&& release.describes(bytes@)
                &&& release.signature@ == hex_of(signature)
                &&& version.stable() && 0 < bytes@.len() <= MAX_EXE && signature.take(32)
                    != neutral_point() ==> release.check(
                    hex_of(ed25519_public_of(secret@)),
                    platform@,
                    true,
                ) is Ok
            },
        },
{
    if !(same_text(platform, "windows-x86_64") || same_text(platform, "linux-x86_64")) {
        return Err(PeerError::ReleasePlatform);
    }
    let digest = sha256(bytes);
    let mut release = Release {
        schema: 1,
        product: "twodrive-peer".to_owned(),
        version,
        platform: platform.to_owned(),
        file: executable_name(platform).to_owned(),
        size: bytes.len() as u64,
        sha256: hex_text(digest.as_slice()),
        signature: String::new(),
    };
    let covered = release.signing_bytes();
    let signature = ed25519_sign(secret, covered.as_slice());
    let public = ed25519_public(secret);
    let ghost unsigned = release;
    release.signature = hex_text(signature.as_slice());
    proof {
        assert(release.signing_text() == unsigned.signing_text());
        lemma_unhex_hex(signature@);
        lemma_unhex_hex(public@);
        super::identity::lemma_hex_is_valid_id(digest@);
    }
    Ok(release)
}

/// The floor only rises: what exceeds it after an activation exceeded it
/// before, and the version that was activated does not exceed it any more.
pub proof fn lemma_activation_raises_floor(state: UpdateState, v: Version)
    requires
        state.pending is Some,
        state.pending->0.stable(),
        state.above_floor(state.pending->0),
        state.highwater is Some ==> state.highwater->0.stable(),
        v.stable(),
    ensures
        state.settled(true).above_floor(v) ==> state.above_floor(v),
        !state.settled(true).above_floor(state.pending->0),
{
    let own = Version {
        major: 0,
        minor: 1,
        patch: 0,
        pre: v.pre,
        build: v.build,
    };
    lemma_announced(own);
}

/// Neither a failed activation nor going back lowers the floor.
pub proof fn lemma_floor_survives(state: UpdateState, v: Version)
    ensures
        state.settled(false).above_floor(v) == state.above_floor(v),
        state.rolled_back().above_floor(v) == state.above_floor(v),
{
}

/// After an activation neither the version that was activated nor any that is not
/// newer can be staged, with whatever proof, file, key and platform.
pub proof fn lemma_no_restaging(
    state: UpdateState,
    release: Release,
    bytes: Seq<u8>,
    existing: Option<Installed>,
    key: Seq<char>,
    platform: Seq<char>,
)
    requires
        state.pending is Some,
        state.pending->0.stable(),
        state.above_floor(state.pending->0),
        state.highwater is Some ==> state.highwater->0.stable(),
        !release.version.newer(state.pending->0),
    ensures
        stage_result(state.settled(true), release, bytes, existing, key, platform) is Err,
{
    if release.version.stable() {
        lemma_activation_raises_floor(state, release.version);
        assert(!state.settled(true).above_floor(release.version));
    }
}

/// A failed activation leaves the active and the previous version as they
/// were.
pub proof fn lemma_failure_preserves_active(state: UpdateState)
    ensures
        state.settled(false).active == state.active,
        state.settled(false).previous == state.previous,
        state.settled(false).highwater == state.highwater,
        state.settled(false).pending is None,
{
}

} // verus!
