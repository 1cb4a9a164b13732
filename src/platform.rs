use vstd::prelude::*;
use vstd::string::StringExecFns;
use vstd::string::StrSliceExecFns;

use crate::text::{
    chars_of, contains_chars, ends_with_chars, eq_ascii_folded, eq_ignore_ascii_case,
    has_prefix, has_suffix, lower_of, lowercase, occurs_in, same_text, starts_with_chars,
    upper_of, uppercase,
};

verus! {

/// A target operating system and architecture, as named in a request path.
#[derive(Debug, Clone, PartialEq, Eq)]
pub struct Platform {
    pub target: String,
    pub arch: String,
}

impl Platform {
    /// The platform as `"<target> <arch>"`.
    pub fn describe(&self) -> (r: String)
        ensures
            r@ == self.target@ + " "@ + self.arch@,
    {
        self.target.clone().concat(" ").concat(self.arch.as_str())
    }
}

/// The installer chosen for a platform, and its detached signature when one is listed.
#[derive(Debug, Clone, PartialEq, Eq)]
pub struct AssetMatch {
    pub filename: String,
    pub signature_filename: Option<String>,
}

/// Why no update could be delivered for a platform.
#[derive(Debug)]
pub enum MatchError {
    NoMatch { target: String, arch: String },
    NoSignature(String),
}

impl MatchError {
    /// The HTTP status that reports this error: every variant is a not-found.
    pub fn status_code(&self) -> (r: u16)
        ensures
            r == 404,
    {
        match self {
            MatchError::NoMatch { .. } => 404,
            MatchError::NoSignature(_) => 404,
        }
    }

    /// A one-line description of the error.
    pub fn message(&self) -> (r: String)
        ensures
            r@ == match self {
                MatchError::NoMatch { target, arch } => "No matching asset found for "@ + target@
                    + " "@ + arch@,
                MatchError::NoSignature(name) => "No matching signature found for "@ + name@,
            },
    {
        match self {
            MatchError::NoMatch { target, arch } => String::from_str(
                "No matching asset found for ",
            ).concat(target.as_str()).concat(" ").concat(arch.as_str()),
            MatchError::NoSignature(name) => String::from_str(
                "No matching signature found for ",
            ).concat(name.as_str()),
        }
    }
}

/// Windows installers: an `.msi` whose lower-cased name carries the architecture tag.
pub open spec fn windows_msi_accepts(target: Seq<char>, arch: Seq<char>, name: Seq<char>) -> bool {
    &&& target == "windows"@
    &&& if arch == "x86_64"@ {
        occurs_in(lower_of(name), "_x64"@) && has_suffix(lower_of(name), ".msi"@)
    } else if arch == "i686"@ || arch == "x86"@ {
        occurs_in(lower_of(name), "_x86"@) && has_suffix(lower_of(name), ".msi"@)
    } else {
        false
    }
}

/// macOS bundles: an `.app.tar.gz` or `.dmg` whose lower-cased name carries the architecture.
pub open spec fn macos_accepts(target: Seq<char>, arch: Seq<char>, name: Seq<char>) -> bool {
    &&& target == "darwin"@
    &&& if arch == "x86_64"@ {
        occurs_in(lower_of(name), "_x64"@)
    } else if arch == "aarch64"@ {
        occurs_in(lower_of(name), "aarch64"@)
    } else {
        false
    }
    &&& (has_suffix(lower_of(name), ".app.tar.gz"@) || has_suffix(lower_of(name), ".dmg"@))
}

/// Linux images: an `amd64` AppImage, for `x86_64` only.
pub open spec fn linux_accepts(target: Seq<char>, arch: Seq<char>, name: Seq<char>) -> bool {
    &&& target == "linux"@
    &&& arch == "x86_64"@
    &&& occurs_in(lower_of(name), "amd64"@)
    &&& has_suffix(lower_of(name), ".appimage"@)
}

/// The rule families are disjoint: for one platform and file name at most one of
/// them accepts, since each asks for a different target.
pub proof fn lemma_rule_families_disjoint(target: Seq<char>, arch: Seq<char>, name: Seq<char>)
    ensures
        !(windows_msi_accepts(target, arch, name) && macos_accepts(target, arch, name)),
        !(windows_msi_accepts(target, arch, name) && linux_accepts(target, arch, name)),
        !(macos_accepts(target, arch, name) && linux_accepts(target, arch, name)),
{
    reveal_strlit("windows");
    reveal_strlit("darwin");
    reveal_strlit("linux");
    assert("windows"@.len() != "darwin"@.len());
    assert("windows"@.len() != "linux"@.len());
    assert("darwin"@[0] != "linux"@[0]);
}

/// A predicate over (platform, file name) for one family of installers.
pub trait MatchRule {
    spec fn accepts(&self, target: Seq<char>, arch: Seq<char>, name: Seq<char>) -> bool;

    spec fn signature_extension(&self) -> Seq<char>;

    fn matches(&self, platform: &Platform, filename: &str) -> (r: bool)
        ensures
            r == self.accepts(platform.target@, platform.arch@, filename@),
    ;

    fn get_signature_extension(&self) -> (r: &str)
        ensures
            r@ == self.signature_extension(),
    ;
}

/// The Windows MSI rule.
pub struct WindowsMsiRule;

/// The macOS rule.
pub struct MacOSRule;

/// The Linux AppImage rule.
pub struct LinuxRule;

impl MatchRule for WindowsMsiRule {
    open spec fn accepts(&self, target: Seq<char>, arch: Seq<char>, name: Seq<char>) -> bool {
        windows_msi_accepts(target, arch, name)
    }

    open spec fn signature_extension(&self) -> Seq<char> {
        ".msi.sig"@
    }

    fn matches(&self, platform: &Platform, filename: &str) -> (r: bool) {
        if !same_text(platform.target.as_str(), "windows") {
            return false;
        }
        let lower = chars_of(lowercase(filename).as_str());
        let arch = platform.arch.as_str();
        if same_text(arch, "x86_64") {
            contains_chars(&lower, &chars_of("_x64")) && ends_with_chars(&lower, &chars_of(".msi"))
        } else if same_text(arch, "i686") || same_text(arch, "x86") {
            contains_chars(&lower, &chars_of("_x86")) && ends_with_chars(&lower, &chars_of(".msi"))
        } else {
            false
        }
    }

    fn get_signature_extension(&self) -> (r: &str) {
        ".msi.sig"
    }
}

impl MatchRule for MacOSRule {
    open spec fn accepts(&self, target: Seq<char>, arch: Seq<char>, name: Seq<char>) -> bool {
        macos_accepts(target, arch, name)
    }

    open spec fn signature_extension(&self) -> Seq<char> {
        ".sig"@
    }

    fn matches(&self, platform: &Platform, filename: &str) -> (r: bool) {
        if !same_text(platform.target.as_str(), "darwin") {
            return false;
        }
        let lower = chars_of(lowercase(filename).as_str());
        let arch = platform.arch.as_str();
        let arch_match = if same_text(arch, "x86_64") {
            contains_chars(&lower, &chars_of("_x64"))
        } else if same_text(arch, "aarch64") {
            contains_chars(&lower, &chars_of("aarch64"))
        } else {
            false
        };
        arch_match && (ends_with_chars(&lower, &chars_of(".app.tar.gz")) || ends_with_chars(
            &lower,
            &chars_of(".dmg"),
        ))
    }

    fn get_signature_extension(&self) -> (r: &str) {
        ".sig"
    }
}

impl MatchRule for LinuxRule {
    open spec fn accepts(&self, target: Seq<char>, arch: Seq<char>, name: Seq<char>) -> bool {
        linux_accepts(target, arch, name)
    }

    open spec fn signature_extension(&self) -> Seq<char> {
        ".sig"@
    }

    fn matches(&self, platform: &Platform, filename: &str) -> (r: bool) {
        if !same_text(platform.target.as_str(), "linux") {
            return false;
        }
        let lower = chars_of(lowercase(filename).as_str());
        same_text(platform.arch.as_str(), "x86_64") && contains_chars(&lower, &chars_of("amd64"))
            && ends_with_chars(&lower, &chars_of(".appimage"))
    }

    fn get_signature_extension(&self) -> (r: &str) {
        ".sig"
    }
}

/// The built-in rule families, as a closed set.
#[derive(Debug, Clone, Copy, PartialEq, Eq)]
pub enum RuleKind {
    WindowsMsi,
    MacOS,
    Linux,
}

/// Whether `rule` accepts `name` for the platform (`target`, `arch`).
pub open spec fn rule_accepts(rule: RuleKind, target: Seq<char>, arch: Seq<char>, name: Seq<char>) -> bool {
    match rule {
        RuleKind::WindowsMsi => windows_msi_accepts(target, arch, name),
        RuleKind::MacOS => macos_accepts(target, arch, name),
        RuleKind::Linux => linux_accepts(target, arch, name),
    }
}

impl MatchRule for RuleKind {
    open spec fn accepts(&self, target: Seq<char>, arch: Seq<char>, name: Seq<char>) -> bool {
        rule_accepts(*self, target, arch, name)
    }

    open spec fn signature_extension(&self) -> Seq<char> {
        match self {
            RuleKind::WindowsMsi => ".msi.sig"@,
            _ => ".sig"@,
        }
    }

    fn matches(&self, platform: &Platform, filename: &str) -> (r: bool) {
        match self {
            RuleKind::WindowsMsi => WindowsMsiRule.matches(platform, filename),
            RuleKind::MacOS => MacOSRule.matches(platform, filename),
            RuleKind::Linux => LinuxRule.matches(platform, filename),
        }
    }

    fn get_signature_extension(&self) -> (r: &str) {
        match self {
            RuleKind::WindowsMsi => WindowsMsiRule.get_signature_extension(),
            RuleKind::MacOS => MacOSRule.get_signature_extension(),
            RuleKind::Linux => LinuxRule.get_signature_extension(),
        }
    }
}

/// The characters of an optional text.
pub open spec fn opt_text(o: Option<&str>) -> Option<Seq<char>> {
    match o {
        Some(t) => Some(t@),
        None => None,
    }
}

/// The prefix that a feature tag demands of installer names: none when the tag is
/// absent, empty, or `stable` in any ASCII case; else the upper-cased tag and a dot.
pub open spec fn feature_prefix(feature: Option<Seq<char>>) -> Option<Seq<char>> {
    match feature {
        None => None,
        Some(f) => if f.len() == 0 || eq_ascii_folded(f, "stable"@) {
            None
        } else {
            Some(upper_of(f).push('.'))
        },
    }
}

/// Whether `name` passes the feature gate given by `prefix`.
pub open spec fn passes_gate(prefix: Option<Seq<char>>, name: Seq<char>) -> bool {
    match prefix {
        None => true,
        Some(p) => has_prefix(name, p),
    }
}

/// Whether some rule of `rules` accepts `name` for the platform.
pub open spec fn any_rule_accepts(
    rules: Seq<RuleKind>,
    target: Seq<char>,
    arch: Seq<char>,
    name: Seq<char>,
) -> bool {
    exists|i: int| 0 <= i < rules.len() && rule_accepts(#[trigger] rules[i], target, arch, name)
}

/// Whether `name` may be chosen as the installer: it passes the feature gate and a rule.
pub open spec fn is_installer(
    rules: Seq<RuleKind>,
    target: Seq<char>,
    arch: Seq<char>,
    feature: Option<Seq<char>>,
    name: Seq<char>,
) -> bool {
    passes_gate(feature_prefix(feature), name) && any_rule_accepts(rules, target, arch, name)
}

/// The names of a list of texts.
pub open spec fn names_of(assets: Seq<String>) -> Seq<Seq<char>> {
    assets.map_values(|s: String| s@)
}

/// The installer that a matcher picks from `names`: the first, in list order, that
/// passes the feature gate and a rule.
pub open spec fn chosen_installer(
    rules: Seq<RuleKind>,
    target: Seq<char>,
    arch: Seq<char>,
    feature: Option<Seq<char>>,
    names: Seq<Seq<char>>,
) -> Option<Seq<char>>
    decreases names.len(),
{
    if names.len() == 0 {
        None
    } else if is_installer(rules, target, arch, feature, names[0]) {
        Some(names[0])
    } else {
        chosen_installer(rules, target, arch, feature, names.drop_first())
    }
}

/// When no name carries the prefix that the feature tag demands, nothing is selected:
/// a matcher then answers `NoMatch`, whatever the rules would accept.
pub proof fn lemma_feature_mismatch_selects_nothing(
    rules: Seq<RuleKind>,
    target: Seq<char>,
    arch: Seq<char>,
    feature: Option<Seq<char>>,
    names: Seq<Seq<char>>,
)
    requires
        forall|i: int| 0 <= i < names.len() ==> !passes_gate(feature_prefix(feature), #[trigger] names[i]),
    ensures
        chosen_installer(rules, target, arch, feature, names) is None,
        selection(rules, target, arch, feature, names) is None,
    decreases names.len(),
{
    if names.len() > 0 {
        assert(!passes_gate(feature_prefix(feature), names[0]));
        assert forall|i: int| 0 <= i < names.drop_first().len() implies !passes_gate(
            feature_prefix(feature),
            #[trigger] names.drop_first()[i],
        ) by {
            assert(names.drop_first()[i] == names[i + 1]);
        }
        lemma_feature_mismatch_selects_nothing(rules, target, arch, feature, names.drop_first());
    }
}

/// The name of the detached signature that belongs to an installer.
pub open spec fn signature_name(installer: Seq<char>) -> Seq<char> {
    installer + ".sig"@
}

/// Whether `name` stands in `assets`.
pub open spec fn listed(assets: Seq<String>, name: Seq<char>) -> bool {
    exists|k: int| 0 <= k < assets.len() && (#[trigger] assets[k])@ == name
}

/// The signature that belongs to `installer`, when `assets` lists it.
pub fn signature_in(assets: &[String], installer: &String) -> (r: Option<String>)
    ensures
        match r {
            Some(s) => s@ == signature_name(installer@) && listed(assets@, s@),
            None => !listed(assets@, signature_name(installer@)),
        },
{
    let sig = installer.clone().concat(".sig");
    let mut n: usize = 0;
    while n < assets.len()
        invariant
            n <= assets@.len(),
            sig@ == signature_name(installer@),
            forall|q: int| 0 <= q < n ==> (#[trigger] assets@[q])@ != sig@,
        decreases assets@.len() - n,
    {
        if assets[n] == sig {
            return Some(sig);
        }
        n = n + 1;
    }
    None
}

/// What a selection yields, as plain values: the installer name and the signature
/// name when one is listed; `None` when no installer is found.
pub open spec fn match_outcome(r: Result<AssetMatch, MatchError>) -> Option<
    (Seq<char>, Option<Seq<char>>),
> {
    match r {
        Ok(m) => Some(
            (
                m.filename@,
                match m.signature_filename {
                    Some(s) => Some(s@),
                    None => None,
                },
            ),
        ),
        Err(_) => None,
    }
}

/// The selection that the inputs determine.
pub open spec fn selection(
    rules: Seq<RuleKind>,
    target: Seq<char>,
    arch: Seq<char>,
    feature: Option<Seq<char>>,
    names: Seq<Seq<char>>,
) -> Option<(Seq<char>, Option<Seq<char>>)> {
    match chosen_installer(rules, target, arch, feature, names) {
        None => None,
        Some(f) => Some(
            (
                f,
                if names.contains(signature_name(f)) {
                    Some(signature_name(f))
                } else {
                    None
                },
            ),
        ),
    }
}

/// Selects, from release asset names, the installer and signature for a platform.
pub struct PlatformMatcher {
    rules: Vec<RuleKind>,
}

impl View for PlatformMatcher {
    type V = Seq<RuleKind>;

    /// The rules, in the order in which they are tried.
    closed spec fn view(&self) -> Seq<RuleKind> {
        self.rules@
    }
}

impl PlatformMatcher {
    /// The built-in rules: Windows MSI, then macOS, then Linux.
    pub fn new() -> (m: Self)
        ensures
            m@ == seq![RuleKind::WindowsMsi, RuleKind::MacOS, RuleKind::Linux],
    {
        let rules: Vec<RuleKind> = vec![RuleKind::WindowsMsi, RuleKind::MacOS, RuleKind::Linux];
        PlatformMatcher { rules }
    }

    /// A matcher that tries the given rules, in the given order.
    pub fn with_rules(rules: Vec<RuleKind>) -> (m: Self)
        ensures
            m@ == rules@,
    {
        PlatformMatcher { rules }
    }

    /// Whether one of the rules accepts `filename` for `platform`.
    pub fn any_rule_matches(&self, platform: &Platform, filename: &str) -> (r: bool)
        ensures
            r == any_rule_accepts(self@, platform.target@, platform.arch@, filename@),
    {
        let mut i: usize = 0;
        while i < self.rules.len()
            invariant
                i <= self.rules@.len(),
                forall|j: int|
                    0 <= j < i ==> !rule_accepts(
                        #[trigger] self.rules@[j],
                        platform.target@,
                        platform.arch@,
                        filename@,
                    ),
            decreases self.rules@.len() - i,
        {
            if self.rules[i].matches(platform, filename) {
                return true;
            }
            i = i + 1;
        }
        false
    }

    /// Picks the first asset, in list order, that passes the feature gate and one of
    /// the rules; pairs it with `<installer>.sig` when that name is in the list.
    pub fn find_matching_asset(
        &self,
        platform: &Platform,
        assets: &[String],
        feature: Option<&str>,
    ) -> (r: Result<AssetMatch, MatchError>)
        ensures
            r is Err <==> forall|i: int|
                0 <= i < assets@.len() ==> !is_installer(
                    self@,
                    platform.target@,
                    platform.arch@,
                    opt_text(feature),
                    (#[trigger] assets@[i])@,
                ),
            r matches Ok(m) ==> chosen_installer(
                self@,
                platform.target@,
                platform.arch@,
                opt_text(feature),
                names_of(assets@),
            ) == Some(m.filename@),
            r is Err ==> chosen_installer(
                self@,
                platform.target@,
                platform.arch@,
                opt_text(feature),
                names_of(assets@),
            ) is None,
            match_outcome(r) == selection(
                self@,
                platform.target@,
                platform.arch@,
                opt_text(feature),
                names_of(assets@),
            ),
            r matches Err(e) ==> e matches MatchError::NoMatch { target, arch } && target@
                == platform.target@ && arch@ == platform.arch@,
            r matches Ok(m) ==> exists|i: int|
                0 <= i < assets@.len() && is_installer(
                    self@,
                    platform.target@,
                    platform.arch@,
                    opt_text(feature),
                    (#[trigger] assets@[i])@,
                ) && (forall|j: int|
                    0 <= j < i ==> !is_installer(
                        self@,
                        platform.target@,
                        platform.arch@,
                        opt_text(feature),
                        (#[trigger] assets@[j])@,
                    )) && m.filename@ == assets@[i]@,
            r matches Ok(m) ==> match m.signature_filename {
                Some(s) => s@ == signature_name(m.filename@) && listed(assets@, s@),
                None => !listed(assets@, signature_name(m.filename@)),
            },
    {
        let prefix: Option<Vec<char>> = match feature {
            None => None,
            Some(f) => {
                if f.unicode_len() == 0 || eq_ignore_ascii_case(f, "stable") {
                    None
                } else {
                    let mut p = chars_of(uppercase(f).as_str());
                    p.push('.');
                    Some(p)
                }
            },
        };
        proof {
            assert(match prefix {
                Some(p) => feature_prefix(opt_text(feature)) == Some(p@),
                None => feature_prefix(opt_text(feature)) is None,
            });
        }
        assert(names_of(assets@).subrange(0, assets@.len() as int) =~= names_of(assets@));
        let mut i: usize = 0;
        while i < assets.len()
            invariant
                i <= assets@.len(),
                forall|j: int|
                    0 <= j < i ==> !is_installer(
                        self@,
                        platform.target@,
                        platform.arch@,
                        opt_text(feature),
                        (#[trigger] assets@[j])@,
                    ),
                match prefix {
                    Some(p) => feature_prefix(opt_text(feature)) == Some(p@),
                    None => feature_prefix(opt_text(feature)) is None,
                },
                chosen_installer(
                    self@,
                    platform.target@,
                    platform.arch@,
                    opt_text(feature),
                    names_of(assets@),
                ) == chosen_installer(
                    self@,
                    platform.target@,
                    platform.arch@,
                    opt_text(feature),
                    names_of(assets@).subrange(i as int, assets@.len() as int),
                ),
            decreases assets@.len() - i,
        {
            let ghost rest = names_of(assets@).subrange(i as int, assets@.len() as int);
            assert(rest[0] == assets@[i as int]@);
            assert(rest.drop_first() =~= names_of(assets@).subrange(i + 1, assets@.len() as int));
            let name = assets[i].as_str();
            let gate = match &prefix {
                None => true,
                Some(p) => starts_with_chars(&chars_of(name), p),
            };
            if gate && self.any_rule_matches(platform, name) {
                let filename = assets[i].clone();
                let signature_filename = signature_in(assets, &filename);
                proof {
                    let sig = signature_name(filename@);
                    if names_of(assets@).contains(sig) {
                        let k = choose|k: int|
                            0 <= k < names_of(assets@).len() && names_of(assets@)[k] == sig;
                        assert(assets@[k]@ == sig);
                    }
                    if listed(assets@, sig) {
                        let k = choose|k: int| 0 <= k < assets@.len() && (#[trigger] assets@[k])@ == sig;
                        assert(names_of(assets@)[k] == sig);
                    }
                }
                return Ok(AssetMatch { filename, signature_filename });
            }
            i = i + 1;
        }
        assert(names_of(assets@).subrange(i as int, assets@.len() as int).len() == 0);
        Err(MatchError::NoMatch { target: platform.target.clone(), arch: platform.arch.clone() })
    }
}

} // verus!
