use vstd::prelude::*;
use vstd::string::StringExecFns;
use vstd::utf8::{decode_utf8, valid_utf8};

use crate::platform::{
    chosen_installer, is_installer, listed, names_of, signature_name, AssetMatch, MatchError,
    Platform, PlatformMatcher, RuleKind,
};
use crate::release::{asset_names, id_of, text_or_empty, ReleaseDescriptor};
use crate::text::decimal;
use crate::text::decimal_text;
use crate::version::{semver_accepts, semver_display, semver_newer, strip_v, SemVer};

verus! {

/// Why an update check or a download failed.
#[derive(Debug)]
pub enum UpdateError {
    /// The product is not in the configuration table.
    ProductNotFound,
    /// The caller's current version is not a semantic version.
    InvalidCurrentVersion,
    /// The upstream release tag is not a semantic version.
    InvalidLatestVersion,
    /// No installer, or no signature for it, among the release's assets.
    Match(MatchError),
    /// The upstream release fetch or asset download failed.
    UpstreamUnavailable,
    /// A chosen file name has no asset id in the release.
    InternalInconsistency(String),
}

impl UpdateError {
    /// The HTTP status that reports this error.
    pub fn status_code(&self) -> (r: u16)
        ensures
            r == match self {
                UpdateError::ProductNotFound => 404u16,
                UpdateError::InvalidCurrentVersion => 400u16,
                UpdateError::Match(_) => 404u16,
                _ => 500u16,
            },
    {
        match self {
            UpdateError::ProductNotFound => 404,
            UpdateError::InvalidCurrentVersion => 400,
            UpdateError::Match(e) => e.status_code(),
            _ => 500,
        }
    }
}

/// The update descriptor handed to an updater client.
#[derive(Debug, Clone)]
pub struct UpdateResponse {
    pub version: String,
    pub pub_date: String,
    pub url: String,
    pub signature: String,
    pub notes: String,
}

/// An update that has been decided on, waiting for the contents of its signature file.
#[derive(Debug, Clone)]
pub struct PendingUpdate {
    pub version: String,
    pub pub_date: String,
    pub url: String,
    pub notes: String,
    /// The asset whose bytes are the installer's detached signature.
    pub signature_asset_id: u64,
}

/// What an update check decided.
#[derive(Debug, Clone)]
pub enum UpdateStep {
    /// The caller is up to date.
    NoUpdate,
    /// A newer release has an installer and signature; fetch the signature next.
    FetchSignature(PendingUpdate),
}

/// The text sent in place of a signature whose bytes are not UTF-8.
pub open spec fn unreadable_signature() -> Seq<char> {
    "Failed to read signature"@
}

/// The rules that update checks use.
pub open spec fn default_rules() -> Seq<RuleKind> {
    seq![RuleKind::WindowsMsi, RuleKind::MacOS, RuleKind::Linux]
}

/// The public URL through which a client downloads an asset.
pub open spec fn download_url(
    host: Seq<char>,
    product: Seq<char>,
    id: u64,
    filename: Seq<char>,
) -> Seq<char> {
    host + "/"@ + product + "/download/"@ + decimal(id as nat) + "/"@ + filename
}

/// The upstream API address of a release asset.
pub open spec fn asset_api_url(owner: Seq<char>, repo: Seq<char>, id: u64) -> Seq<char> {
    "https://api.github.com/repos/"@ + owner + "/"@ + repo + "/releases/assets/"@ + decimal(
        id as nat,
    )
}

/// The installer that an update check picks from a release.
pub open spec fn planned_installer(
    release: ReleaseDescriptor,
    platform: Platform,
    feature: Seq<char>,
) -> Option<Seq<char>> {
    chosen_installer(
        default_rules(),
        platform.target@,
        platform.arch@,
        Some(feature),
        asset_names(release.assets@),
    )
}

/// An update is owed: both versions are well-formed and the release is newer.
pub open spec fn update_owed(release: ReleaseDescriptor, current: Seq<char>) -> bool {
    &&& semver_accepts(current)
    &&& semver_accepts(strip_v(release.tag@))
    &&& semver_newer(strip_v(release.tag@), current)
}

/// The chosen installer is among the names.
pub proof fn lemma_chosen_is_listed(
    rules: Seq<RuleKind>,
    target: Seq<char>,
    arch: Seq<char>,
    feature: Option<Seq<char>>,
    names: Seq<Seq<char>>,
)
    ensures
        chosen_installer(rules, target, arch, feature, names) matches Some(f) ==> names.contains(
            f,
        ),
    decreases names.len(),
{
    if names.len() > 0 && !is_installer(rules, target, arch, feature, names[0]) {
        lemma_chosen_is_listed(rules, target, arch, feature, names.drop_first());
        if let Some(f) = chosen_installer(rules, target, arch, feature, names.drop_first()) {
            let k = choose|k: int| 0 <= k < names.drop_first().len() && names.drop_first()[k] == f;
            assert(names[k + 1] == f);
        }
    }
}

/// A listed name has an id.
pub proof fn lemma_listed_has_id(assets: Seq<crate::release::ReleaseAsset>, name: Seq<char>)
    requires
        asset_names(assets).contains(name),
    ensures
        id_of(assets, name) is Some,
    decreases assets.len(),
{
    if assets[0].name@ != name {
        let k = choose|k: int| 0 <= k < asset_names(assets).len() && asset_names(assets)[k] == name;
        assert(k > 0);
        assert(asset_names(assets.drop_first())[k - 1] == name);
        lemma_listed_has_id(assets.drop_first(), name);
    }
}

/// Relies on `String::from_utf8`: `Ok` exactly for valid UTF-8, holding the
/// characters that the bytes encode.
#[verifier::external_body]
fn utf8_to_string(bytes: Vec<u8>) -> (r: Option<String>)
    ensures
        r is Some <==> valid_utf8(bytes@),
        r matches Some(s) ==> s@ == decode_utf8(bytes@),
{
    String::from_utf8(bytes).ok()
}

/// The public download URL of an asset.
pub fn download_url_text(host: &str, product: &str, id: u64, filename: &str) -> (r: String)
    ensures
        r@ == download_url(host@, product@, id, filename@),
{
    let digits = decimal_text(id);
    let r = String::from_str(host).concat("/").concat(product).concat("/download/").concat(
        digits.as_str(),
    ).concat("/").concat(filename);
    r
}

/// The upstream API address from which an asset's bytes are fetched.
pub fn asset_api_url_text(owner: &str, repo: &str, id: u64) -> (r: String)
    ensures
        r@ == asset_api_url(owner@, repo@, id),
{
    let digits = decimal_text(id);
    String::from_str("https://api.github.com/repos/").concat(owner).concat("/").concat(
        repo,
    ).concat("/releases/assets/").concat(digits.as_str())
}

/// The `Content-Disposition` header value for a downloaded file.
pub fn content_disposition(filename: &str) -> (r: String)
    ensures
        r@ == "attachment; filename="@ + filename@,
{
    String::from_str("attachment; filename=").concat(filename)
}

/// Decides whether `release` is an update for a caller at `current_version`, and if
/// so which installer and signature it delivers for `platform` and `feature`.
/// `host` and `product` form the download URL.
pub fn plan_update(
    release: &ReleaseDescriptor,
    platform: &Platform,
    feature: &str,
    current_version: &str,
    host: &str,
    product: &str,
) -> (r: Result<UpdateStep, UpdateError>)
    ensures
        !semver_accepts(strip_v(release.tag@)) ==> r matches Err(UpdateError::InvalidLatestVersion),
        semver_accepts(strip_v(release.tag@)) && !semver_accepts(current_version@) ==> r matches Err(
            UpdateError::InvalidCurrentVersion,
        ),
        semver_accepts(current_version@) && semver_accepts(strip_v(release.tag@)) ==> (r matches Ok(
            UpdateStep::NoUpdate,
        ) <==> !semver_newer(strip_v(release.tag@), current_version@)),
        semver_accepts(current_version@) && current_version@ == strip_v(release.tag@) ==> r matches Ok(
            UpdateStep::NoUpdate,
        ),
        semver_accepts(current_version@) && semver_accepts(strip_v(release.tag@)) && semver_newer(
            current_version@,
            strip_v(release.tag@),
        ) ==> r matches Ok(UpdateStep::NoUpdate),
        update_owed(*release, current_version@) ==> match planned_installer(
            *release,
            *platform,
            feature@,
        ) {
            None => r matches Err(UpdateError::Match(MatchError::NoMatch { target, arch }))
                && target@ == platform.target@ && arch@ == platform.arch@,
            Some(f) => if asset_names(release.assets@).contains(signature_name(f)) {
                r matches Ok(UpdateStep::FetchSignature(p)) && id_of(release.assets@, f) is Some
                    && id_of(release.assets@, signature_name(f)) is Some && p.version@
                    == semver_display(strip_v(release.tag@)) && p.url@ == download_url(
                    host@,
                    product@,
                    id_of(release.assets@, f)->0,
                    f,
                ) && p.signature_asset_id == id_of(release.assets@, signature_name(f))->0
                    && p.pub_date@ == text_or_empty(release.published_at) && p.notes@
                    == release.notes@
            } else {
                r matches Err(UpdateError::Match(MatchError::NoSignature(n))) && n@ == f
            },
        },
{
    let latest = match SemVer::parse(release.version_text()) {
        Some(v) => v,
        None => {
            return Err(UpdateError::InvalidLatestVersion);
        },
    };
    let current = match SemVer::parse(current_version) {
        Some(v) => v,
        None => {
            return Err(UpdateError::InvalidCurrentVersion);
        },
    };
    let newer = latest.is_newer_than(&current);
    if !newer {
        return Ok(UpdateStep::NoUpdate);
    }
    proof {
        assert(semver_newer(strip_v(release.tag@), current_version@));
    }
    let matcher = PlatformMatcher::new();
    let names = release.asset_names();
    proof {
        assert(names_of(names@) == asset_names(release.assets@));
    }
    let found = matcher.find_matching_asset(platform, names.as_slice(), Some(feature));
    let m: AssetMatch = match found {
        Ok(m) => m,
        Err(e) => {
            return Err(UpdateError::Match(e));
        },
    };
    proof {
        lemma_chosen_is_listed(
            default_rules(),
            platform.target@,
            platform.arch@,
            Some(feature@),
            asset_names(release.assets@),
        );
        lemma_listed_has_id(release.assets@, m.filename@);
    }
    let sig_name = match m.signature_filename {
        Some(s) => s,
        None => {
            proof {
                if asset_names(release.assets@).contains(signature_name(m.filename@)) {
                    let k = choose|k: int|
                        0 <= k < asset_names(release.assets@).len() && asset_names(
                            release.assets@,
                        )[k] == signature_name(m.filename@);
                    assert(names@[k]@ == signature_name(m.filename@));
                    assert(listed(names@, signature_name(m.filename@)));
                }
            }
            return Err(UpdateError::Match(MatchError::NoSignature(m.filename)));
        },
    };
    proof {
        let k = choose|k: int| 0 <= k < names@.len() && (#[trigger] names@[k])@ == sig_name@;
        assert(names_of(names@)[k] == sig_name@);
        assert(asset_names(release.assets@).contains(sig_name@));
        lemma_listed_has_id(release.assets@, sig_name@);
    }
    let installer_id = match release.asset_id_of(m.filename.as_str()) {
        Some(id) => id,
        None => {
            return Err(UpdateError::InternalInconsistency(m.filename));
        },
    };
    let signature_asset_id = match release.asset_id_of(sig_name.as_str()) {
        Some(id) => id,
        None => {
            return Err(UpdateError::InternalInconsistency(sig_name));
        },
    };
    let url = download_url_text(host, product, installer_id, m.filename.as_str());
    let pub_date = match &release.published_at {
        Some(d) => d.clone(),
        None => String::new(),
    };
    Ok(
        UpdateStep::FetchSignature(
            PendingUpdate {
                version: latest.to_text(),
                pub_date,
                url,
                notes: release.notes.clone(),
                signature_asset_id,
            },
        ),
    )
}

impl PendingUpdate {
    /// The update descriptor, with the signature file's bytes as its signature text;
    /// bytes that are not UTF-8 give a fixed placeholder text instead.
    pub fn complete(self, signature_bytes: Vec<u8>) -> (r: UpdateResponse)
        ensures
            r.version@ == self.version@,
            r.pub_date@ == self.pub_date@,
            r.url@ == self.url@,
            r.notes@ == self.notes@,
            r.signature@ == if valid_utf8(signature_bytes@) {
                decode_utf8(signature_bytes@)
            } else {
                unreadable_signature()
            },
    {
        let signature = match utf8_to_string(signature_bytes) {
            Some(s) => s,
            None => String::from_str("Failed to read signature"),
        };
        UpdateResponse {
            version: self.version,
            pub_date: self.pub_date,
            url: self.url,
            signature,
            notes: self.notes,
        }
    }
}

} // verus!
