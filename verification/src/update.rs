//! Update checks: whether a published release is newer than the running
//! build, what the update offer holds, and where the running application
//! bundle is.
//!
//! Fetching the release, downloading and installing stay with the
//! application; this module decides on the values they read.

use vstd::prelude::*;
use crate::text::{chars_of, str_eq, string_from_chars};

verus! {

#[verifier::external_type_specification]
#[verifier::external_body]
pub struct ExVersion(semver::Version);

/// A version the `semver` crate parsed: its numbers, its pre-release and
/// build texts, and the parsed value itself for comparisons. Only
/// `parse_version` makes one, so the parts always are those of the parsed
/// value.
pub struct SemVersion {
    major: u64,
    minor: u64,
    patch: u64,
    pre: String,
    build: String,
    version: semver::Version,
}

/// What `semver::Version::parse` makes of `text`: `None` when it refuses
/// it; else the major, minor and patch numbers and the pre-release and
/// build texts (empty when absent). It accepts exactly three dot-separated
/// numbers without leading zeros that fit a `u64`, then optional
/// `-pre-release` and `+build` parts of the allowed characters.
pub uninterp spec fn semver_parsed(text: Seq<char>) -> Option<(u64, u64, u64, Seq<char>, Seq<char>)>;

/// The sign of `m - n`: -1, 0 or 1.
pub open spec fn sign_of(m: int, n: int) -> int {
    if m < n { -1 } else if m > n { 1 } else { 0 }
}

/// `str`'s order on texts: lexicographic by character (UTF-8 keeps the
/// order of code points), a proper prefix first.
pub open spec fn text_order(a: Seq<char>, b: Seq<char>) -> int
    decreases a.len(),
{
    if a.len() == 0 || b.len() == 0 {
        sign_of(a.len() as int, b.len() as int)
    } else if a[0] != b[0] {
        sign_of(a[0] as int, b[0] as int)
    } else {
        text_order(a.drop_first(), b.drop_first())
    }
}

/// Whether every character of `s` is an ASCII digit.
pub open spec fn all_digits(s: Seq<char>) -> bool {
    forall|i: int| 0 <= i < s.len() ==> '0' <= #[trigger] s[i] <= '9'
}

/// `s` without its leading `0`s.
pub open spec fn trim_zeros(s: Seq<char>) -> Seq<char>
    decreases s.len(),
{
    if s.len() > 0 && s[0] == '0' { trim_zeros(s.drop_first()) } else { s }
}

/// The dot-separated identifiers of `s`, as `str::split('.')` gives them.
pub open spec fn dot_fields(s: Seq<char>) -> Seq<Seq<char>>
    decreases s.len(),
{
    if s.len() == 0 {
        seq![Seq::<char>::empty()]
    } else {
        let rest = dot_fields(s.drop_last());
        if s.last() == '.' {
            rest.push(Seq::<char>::empty())
        } else {
            rest.update(rest.len() - 1, rest.last().push(s.last()))
        }
    }
}

/// semver's order of two identifiers: digit-only ones below the others;
/// two digit-only ones by value (in build texts, ties broken by the number
/// of leading zeros), the others as text.
pub open spec fn ident_order(x: Seq<char>, y: Seq<char>, build: bool) -> int {
    if all_digits(x) && all_digits(y) {
        if build {
            let (tx, ty) = (trim_zeros(x), trim_zeros(y));
            if tx.len() != ty.len() {
                sign_of(tx.len() as int, ty.len() as int)
            } else if text_order(tx, ty) != 0 {
                text_order(tx, ty)
            } else {
                sign_of(x.len() as int, y.len() as int)
            }
        } else if x.len() != y.len() {
            sign_of(x.len() as int, y.len() as int)
        } else {
            text_order(x, y)
        }
    } else if all_digits(x) {
        -1
    } else if all_digits(y) {
        1
    } else {
        text_order(x, y)
    }
}

/// Identifier lists compared one by one; a list that runs out first,
/// all before being equal, is the smaller.
pub open spec fn fields_order(xs: Seq<Seq<char>>, ys: Seq<Seq<char>>, build: bool) -> int
    decreases xs.len(),
{
    if xs.len() == 0 || ys.len() == 0 {
        sign_of(xs.len() as int, ys.len() as int)
    } else if ident_order(xs[0], ys[0], build) != 0 {
        ident_order(xs[0], ys[0], build)
    } else {
        fields_order(xs.drop_first(), ys.drop_first(), build)
    }
}

/// `Ord for Prerelease`: equal texts are equal; no pre-release (a
/// release) is above any pre-release; else by identifiers.
pub open spec fn pre_order(a: Seq<char>, b: Seq<char>) -> int {
    if a == b {
        0
    } else if a.len() == 0 {
        1
    } else if b.len() == 0 {
        -1
    } else {
        fields_order(dot_fields(a), dot_fields(b), false)
    }
}

/// `Ord for BuildMetadata`: equal texts are equal; else by identifiers.
pub open spec fn build_order(a: Seq<char>, b: Seq<char>) -> int {
    if a == b { 0 } else { fields_order(dot_fields(a), dot_fields(b), true) }
}

/// The derived `Ord for Version`: major, minor, patch, pre-release, build,
/// each deciding when the ones before are equal. -1, 0 or 1.
pub open spec fn version_order(
    a: (u64, u64, u64, Seq<char>, Seq<char>),
    b: (u64, u64, u64, Seq<char>, Seq<char>),
) -> int {
    if a.0 != b.0 {
        sign_of(a.0 as int, b.0 as int)
    } else if a.1 != b.1 {
        sign_of(a.1 as int, b.1 as int)
    } else if a.2 != b.2 {
        sign_of(a.2 as int, b.2 as int)
    } else if pre_order(a.3, b.3) != 0 {
        pre_order(a.3, b.3)
    } else {
        build_order(a.4, b.4)
    }
}

impl SemVersion {
    /// The numbers and the pre-release and build texts.
    pub closed spec fn parts(&self) -> (u64, u64, u64, Seq<char>, Seq<char>) {
        (self.major, self.minor, self.patch, self.pre@, self.build@)
    }
}

/// `semver::Version::parse`: `Some` exactly when the text is a semantic
/// version, holding its parts and the parsed value.
#[verifier::external_body]
fn parse_version(text: &str) -> (r: Option<SemVersion>)
    ensures
        r is Some <==> semver_parsed(text@) is Some,
        r matches Some(v) ==> semver_parsed(text@) == Some(v.parts()),
{
    match semver::Version::parse(text) {
        Ok(v) => Some(SemVersion {
            major: v.major,
            minor: v.minor,
            patch: v.patch,
            pre: v.pre.as_str().to_string(),
            build: v.build.as_str().to_string(),
            version: v,
        }),
        Err(_) => None,
    }
}

/// `>` on `semver::Version`: the derived order of its fields, with
/// semver's own orders of pre-release and build texts (`version_order`).
#[verifier::external_body]
fn version_gt(a: &SemVersion, b: &SemVersion) -> (r: bool)
    ensures
        r == (version_order(a.parts(), b.parts()) > 0),
{
    a.version > b.version
}

/// Whether `latest` is newer than `current`: by semantic-version order
/// when both parse, else whenever the two texts differ.
pub open spec fn newer(latest: Seq<char>, current: Seq<char>) -> bool {
    match (semver_parsed(latest), semver_parsed(current)) {
        (Some(a), Some(b)) => version_order(a, b) > 0,
        _ => latest != current,
    }
}

proof fn lemma_text_order_antisymmetric(a: Seq<char>, b: Seq<char>)
    ensures
        text_order(a, b) == -text_order(b, a),
    decreases a.len(),
{
    if a.len() > 0 && b.len() > 0 && a[0] == b[0] {
        lemma_text_order_antisymmetric(a.drop_first(), b.drop_first());
    }
}

proof fn lemma_ident_order_antisymmetric(x: Seq<char>, y: Seq<char>, build: bool)
    ensures
        ident_order(x, y, build) == -ident_order(y, x, build),
{
    lemma_text_order_antisymmetric(x, y);
    lemma_text_order_antisymmetric(trim_zeros(x), trim_zeros(y));
}

proof fn lemma_fields_order_antisymmetric(xs: Seq<Seq<char>>, ys: Seq<Seq<char>>, build: bool)
    ensures
        fields_order(xs, ys, build) == -fields_order(ys, xs, build),
    decreases xs.len(),
{
    if xs.len() > 0 && ys.len() > 0 {
        lemma_ident_order_antisymmetric(xs[0], ys[0], build);
        lemma_fields_order_antisymmetric(xs.drop_first(), ys.drop_first(), build);
    }
}

/// semver's version order is antisymmetric: `a` is above `b` exactly when
/// `b` is below `a`, and a version is equal to itself.
pub proof fn law_version_order_antisymmetric(
    a: (u64, u64, u64, Seq<char>, Seq<char>),
    b: (u64, u64, u64, Seq<char>, Seq<char>),
)
    ensures
        version_order(a, b) == -version_order(b, a),
        version_order(a, a) == 0,
{
    lemma_fields_order_antisymmetric(dot_fields(a.3), dot_fields(b.3), false);
    lemma_fields_order_antisymmetric(dot_fields(a.4), dot_fields(b.4), true);
    if a.3.len() == 0 && b.3.len() == 0 {
        assert(a.3 =~= b.3);
    }
    assert(pre_order(a.3, b.3) == -pre_order(b.3, a.3));
    assert(build_order(a.4, b.4) == -build_order(b.4, a.4));
}

/// A version is never newer than itself, so the running release is never
/// offered again.
pub proof fn law_not_newer_than_itself(x: Seq<char>)
    ensures
        !newer(x, x),
{
    if let Some(p) = semver_parsed(x) {
        law_version_order_antisymmetric(p, p);
    }
}

/// Of two versions that both parse, at most one is newer than the other.
pub proof fn law_newer_is_antisymmetric(a: Seq<char>, b: Seq<char>)
    requires
        semver_parsed(a) is Some,
        semver_parsed(b) is Some,
    ensures
        !(newer(a, b) && newer(b, a)),
{
    law_version_order_antisymmetric(semver_parsed(a)->Some_0, semver_parsed(b)->Some_0);
}

/// What `is_newer` answers once the versions were compared: the
/// comparison when both parsed, else whether the texts differ at all.
pub fn decide_newer(comparison: Option<bool>, latest: &str, current: &str) -> (r: bool)
    ensures
        r == match comparison {
            Some(gt) => gt,
            None => latest@ != current@,
        },
{
    match comparison {
        Some(gt) => gt,
        None => !str_eq(latest, current),
    }
}

/// Whether release `latest` is newer than the running `current`: by
/// semantic-version order when both parse, else whenever the two differ.
pub fn is_newer(latest: &str, current: &str) -> (r: bool)
    ensures
        r == newer(latest@, current@),
{
    let l = parse_version(latest);
    let c = parse_version(current);
    let comparison = match (&l, &c) {
        (Some(a), Some(b)) => Some(version_gt(a, b)),
        _ => None,
    };
    decide_newer(comparison, latest, current)
}

/// A downloadable file of a release.
pub struct Asset {
    pub name: String,
    pub browser_download_url: String,
}

/// A published release as the release API describes it.
pub struct Release {
    pub tag_name: String,
    pub body: Option<String>,
    pub assets: Vec<Asset>,
}

/// An available update.
#[derive(Clone, Debug)]
pub struct UpdateInfo {
    pub version: String,
    pub download_url: String,
    pub can_auto_install: bool,
    pub release_notes: String,
}

/// `s` without its leading `v`s.
pub open spec fn strip_leading_v(s: Seq<char>) -> Seq<char>
    decreases s.len(),
{
    if s.len() > 0 && s[0] == 'v' {
        strip_leading_v(s.drop_first())
    } else {
        s
    }
}

/// Whether `s` ends with `.dmg`.
pub open spec fn is_disk_image(s: Seq<char>) -> bool {
    s.len() >= 4 && s.skip(s.len() - 4) == ".dmg"@
}

/// The index of the first asset that is a disk image, if any.
pub open spec fn first_disk_image(assets: Seq<Asset>, from: int) -> Option<int>
    decreases assets.len() - from,
{
    if from >= assets.len() {
        None
    } else if is_disk_image(assets[from].name@) {
        Some(from)
    } else {
        first_disk_image(assets, from + 1)
    }
}

/// The page of the latest release, offered when a release has no disk
/// image.
pub open spec fn latest_release_page() -> Seq<char> {
    "https://github.com/boytur/vterm/releases/latest"@
}

/// `s` without its leading `v`s.
pub fn trim_leading_v(s: &str) -> (r: String)
    ensures
        r@ == strip_leading_v(s@),
{
    let cs = chars_of(s);
    let mut i: usize = 0;
    assert(cs@.skip(0) =~= cs@);
    while i < cs.len() && cs[i] == 'v'
        invariant
            i <= cs@.len(),
            cs@ == s@,
            strip_leading_v(s@) == strip_leading_v(cs@.skip(i as int)),
        decreases cs@.len() - i,
    {
        assert(cs@.skip(i as int).drop_first() =~= cs@.skip(i + 1));
        i = i + 1;
    }
    let mut out: Vec<char> = Vec::new();
    let mut k: usize = i;
    while k < cs.len()
        invariant
            i <= k <= cs@.len(),
            out@ == cs@.subrange(i as int, k as int),
        decreases cs@.len() - k,
    {
        out.push(cs[k]);
        k = k + 1;
        assert(out@ =~= cs@.subrange(i as int, k as int));
    }
    assert(out@ =~= cs@.skip(i as int));
    string_from_chars(&out)
}

/// Whether `s` ends with `.dmg`.
pub fn ends_with_dmg(s: &str) -> (r: bool)
    ensures
        r == is_disk_image(s@),
{
    proof {
        reveal_strlit(".dmg");
    }
    let cs = chars_of(s);
    let n = cs.len();
    if n < 4 {
        return false;
    }
    let r = cs[n - 4] == '.' && cs[n - 3] == 'd' && cs[n - 2] == 'm' && cs[n - 1] == 'g';
    assert(r ==> cs@.skip(n - 4) =~= ".dmg"@);
    assert(cs@.skip(n - 4) =~= ".dmg"@ ==> r) by {
        if cs@.skip(n - 4) =~= ".dmg"@ {
            assert(cs@.skip(n - 4)[0] == cs@[n - 4]);
            assert(cs@.skip(n - 4)[1] == cs@[n - 3]);
            assert(cs@.skip(n - 4)[2] == cs@[n - 2]);
            assert(cs@.skip(n - 4)[3] == cs@[n - 1]);
        }
    }
    r
}

/// The update `release` offers to a build of version `current`: `None`
/// when its tag (leading `v`s dropped) is not newer than `current` (leading
/// `v`s dropped); else its version, the download of its first disk image
/// (or the latest-release page when it has none, which also rules out
/// installing automatically), and its notes (empty when it has none).
pub fn update_from_release(release: &Release, current: &str) -> (r: Option<UpdateInfo>)
    ensures
        ({
            let latest = strip_leading_v(release.tag_name@);
            let cur = strip_leading_v(current@);
            &&& (r is Some <==> newer(latest, cur))
            &&& r matches Some(info) ==> {
                &&& info.version@ == latest
                &&& info.can_auto_install == (first_disk_image(release.assets@, 0) is Some)
                &&& info.download_url@ == match first_disk_image(release.assets@, 0) {
                    Some(i) => release.assets@[i].browser_download_url@,
                    None => latest_release_page(),
                }
                &&& info.release_notes@ == match release.body {
                    Some(b) => b@,
                    None => Seq::empty(),
                }
            }
        }),
{
    let latest = trim_leading_v(release.tag_name.as_str());
    let cur = trim_leading_v(current);
    if !is_newer(latest.as_str(), cur.as_str()) {
        return None;
    }
    let mut found: Option<usize> = None;
    let mut i: usize = 0;
    let n = release.assets.len();
    while i < n && found.is_none()
        invariant
            n == release.assets@.len(),
            i <= n,
            found matches Some(k) ==> k < n && first_disk_image(release.assets@, 0) == Some(k as int),
            found is None ==> first_disk_image(release.assets@, 0) == first_disk_image(
                release.assets@,
                i as int,
            ),
        decreases n - i + if found is None {
            1int
        } else {
            0int
        },
    {
        if ends_with_dmg(release.assets[i].name.as_str()) {
            found = Some(i);
        } else {
            i = i + 1;
        }
    }
    proof {
        reveal_strlit("https://github.com/boytur/vterm/releases/latest");
    }
    let (download_url, can_auto_install) = match found {
        Some(i) => (release.assets[i].browser_download_url.clone(), true),
        None => ("https://github.com/boytur/vterm/releases/latest".to_owned(), false),
    };
    let release_notes = match &release.body {
        Some(b) => b.clone(),
        None => String::new(),
    };
    Some(UpdateInfo { version: latest, download_url, can_auto_install, release_notes })
}

/// Installing a downloaded update is supported on macOS only; everywhere
/// else the request is refused with this message.
pub fn install_update(_staged_app: &str) -> (r: Result<(), String>)
    ensures
        r matches Err(msg) && msg@ == "automatic updates are currently supported on macOS only"@,
{
    Err("automatic updates are currently supported on macOS only".to_owned())
}

/// What `Path::parent` gives for the path `p`, as text.
pub uninterp spec fn path_parent_of(p: Seq<char>) -> Option<Seq<char>>;

/// What `Path::extension` gives for the path `p`, as text.
pub uninterp spec fn path_extension_of(p: Seq<char>) -> Option<Seq<char>>;

/// `Path::parent`: the path without its final component, `None` for a
/// root or an empty path. Dropping a component makes the path shorter.
#[verifier::external_body]
fn path_parent(p: &str) -> (r: Option<String>)
    ensures
        r.deep_view() == path_parent_of(p@),
        r matches Some(q) ==> q@.len() < p@.len(),
{
    match std::path::Path::new(p).parent() {
        Some(q) => Some(q.to_string_lossy().into_owned()),
        None => None,
    }
}

/// `Path::extension`: the extension of the path's final component, if it
/// has one that is valid text.
#[verifier::external_body]
fn path_extension(p: &str) -> (r: Option<String>)
    ensures
        r.deep_view() == path_extension_of(p@),
{
    match std::path::Path::new(p).extension() {
        Some(e) => match e.to_str() {
            Some(t) => Some(t.to_owned()),
            None => None,
        },
        None => None,
    }
}

/// The innermost `.app` bundle that `p` lies in (`p` itself when it is
/// one), found by walking up the parents; `None` when there is none.
pub open spec fn app_bundle_of(p: Seq<char>) -> Option<Seq<char>>
    decreases p.len(),
{
    if path_extension_of(p) == Some("app"@) {
        Some(p)
    } else {
        match path_parent_of(p) {
            Some(q) => if q.len() < p.len() {
                app_bundle_of(q)
            } else {
                None
            },
            None => None,
        }
    }
}

/// The `.app` bundle the executable at `exe` runs from; see
/// `app_bundle_of`.
pub fn find_app_bundle(exe: &str) -> (r: Option<String>)
    ensures
        r.deep_view() == app_bundle_of(exe@),
{
    proof {
        reveal_strlit("app");
    }
    let mut p = exe.to_owned();
    loop
        invariant
            app_bundle_of(exe@) == app_bundle_of(p@),
        decreases p@.len(),
    {
        let ext = path_extension(p.as_str());
        let is_app = match &ext {
            Some(e) => str_eq(e.as_str(), "app"),
            None => false,
        };
        if is_app {
            return Some(p);
        }
        match path_parent(p.as_str()) {
            Some(q) => {
                p = q;
            },
            None => {
                return None;
            },
        }
    }
}

/// The update workflow of the running application: a check, a download
/// that stages the new bundle, and an install, each at most once at a
/// time. The application runs the jobs in the background and reports
/// their results here; the download progress (a fraction) stays with it.
pub struct UpdateState {
    pub checking: bool,
    pub downloading: bool,
    pub installing: bool,
    /// The newest update found.
    pub info: Option<UpdateInfo>,
    /// Where a downloaded update waits to be installed.
    pub staged: Option<String>,
    /// What went wrong last, for the settings page.
    pub error: Option<String>,
}

/// The text of the error shown when the session cannot be saved before an
/// update is installed.
pub open spec fn session_save_error(error: Seq<char>) -> Seq<char> {
    "Could not save session before update: "@ + error
}

impl UpdateState {
    /// Nothing found, nothing running.
    pub fn new() -> (s: UpdateState)
        ensures
            !s.checking && !s.downloading && !s.installing,
            s.info is None && s.staged is None && s.error is None,
    {
        UpdateState {
            checking: false,
            downloading: false,
            installing: false,
            info: None,
            staged: None,
            error: None,
        }
    }

    /// Starts a check unless any job is running; clears the last error.
    /// Returns whether the check starts.
    pub fn begin_check(&mut self) -> (started: bool)
        ensures
            started == !(old(self).checking || old(self).downloading || old(self).installing),
            started ==> final(self).checking && final(self).error is None,
            started ==> final(self).downloading == old(self).downloading && final(self).installing
                == old(self).installing && final(self).info == old(self).info && final(self).staged
                == old(self).staged,
            !started ==> *final(self) == *old(self),
    {
        if self.checking || self.downloading || self.installing {
            return false;
        }
        self.checking = true;
        self.error = None;
        true
    }

    /// Takes the result of a check. A newer update replaces the one known;
    /// when its version differs from that one, the update staged for the
    /// old one is dropped and its path returned for the application to
    /// delete. No update forgets the known one unless it is staged. A
    /// failure is recorded.
    pub fn finish_check(&mut self, result: Result<Option<UpdateInfo>, String>) -> (discard: Option<
        String,
    >)
        ensures
            !final(self).checking,
            final(self).downloading == old(self).downloading,
            final(self).installing == old(self).installing,
            match result {
                Ok(Some(info)) => {
                    let replaced = old(self).info matches Some(cur) && cur.version@ != info.version@;
                    &&& final(self).info == Some(info)
                    &&& final(self).error is None
                    &&& replaced ==> final(self).staged is None && discard == old(self).staged
                    &&& !replaced ==> final(self).staged == old(self).staged && discard is None
                },
                Ok(None) => {
                    &&& final(self).error is None
                    &&& final(self).staged == old(self).staged
                    &&& final(self).info == if old(self).staged is None {
                        None
                    } else {
                        old(self).info
                    }
                    &&& discard is None
                },
                Err(e) => {
                    &&& final(self).error == Some(e)
                    &&& final(self).info == old(self).info
                    &&& final(self).staged == old(self).staged
                    &&& discard is None
                },
            },
    {
        self.checking = false;
        match result {
            Ok(Some(info)) => {
                let replaced = match &self.info {
                    Some(cur) => !str_eq(cur.version.as_str(), info.version.as_str()),
                    None => false,
                };
                let discard = if replaced {
                    self.staged.take()
                } else {
                    None
                };
                self.info = Some(info);
                self.error = None;
                discard
            },
            Ok(None) => {
                self.error = None;
                if self.staged.is_none() {
                    self.info = None;
                }
                None
            },
            Err(e) => {
                self.error = Some(e);
                None
            },
        }
    }

    /// Starts downloading `info` unless a download runs, an update is
    /// already staged, or the release has no disk image; clears the last
    /// error. Returns whether the download starts.
    pub fn begin_download(&mut self, info: &UpdateInfo) -> (started: bool)
        ensures
            started == !(old(self).downloading || old(self).staged is Some || !info.can_auto_install),
            started ==> final(self).downloading && final(self).error is None,
            started ==> final(self).checking == old(self).checking && final(self).installing
                == old(self).installing && final(self).info == old(self).info && final(self).staged
                == old(self).staged,
            !started ==> *final(self) == *old(self),
    {
        if self.downloading || self.staged.is_some() || !info.can_auto_install {
            return false;
        }
        self.downloading = true;
        self.error = None;
        true
    }

    /// Takes the result of a download: the staged path, or the error.
    pub fn finish_download(&mut self, result: Result<String, String>)
        ensures
            !final(self).downloading,
            final(self).checking == old(self).checking,
            final(self).installing == old(self).installing,
            final(self).info == old(self).info,
            match result {
                Ok(path) => final(self).staged == Some(path) && final(self).error == old(self).error,
                Err(e) => final(self).staged == old(self).staged && final(self).error == Some(e),
            },
    {
        self.downloading = false;
        match result {
            Ok(path) => {
                self.staged = Some(path);
            },
            Err(e) => {
                self.error = Some(e);
            },
        }
    }

    /// Whether an install can start: none runs and an update is staged.
    pub fn can_install(&self) -> (r: bool)
        ensures
            r == (!self.installing && self.staged is Some),
    {
        !self.installing && self.staged.is_some()
    }

    /// Records that the session could not be saved, so the install does
    /// not start.
    pub fn session_save_failed(&mut self, error: &str)
        ensures
            final(self).error matches Some(e) && e@ == session_save_error(error@),
            final(self).checking == old(self).checking,
            final(self).downloading == old(self).downloading,
            final(self).installing == old(self).installing,
            final(self).info == old(self).info,
            final(self).staged == old(self).staged,
    {
        proof {
            reveal_strlit("Could not save session before update: ");
        }
        let mut text = chars_of("Could not save session before update: ");
        let rest = chars_of(error);
        let ghost head = text@;
        let mut k: usize = 0;
        while k < rest.len()
            invariant
                k <= rest@.len(),
                text@ == head + rest@.take(k as int),
            decreases rest@.len() - k,
        {
            text.push(rest[k]);
            k = k + 1;
            assert(text@ =~= head + rest@.take(k as int));
        }
        assert(rest@.take(rest@.len() as int) =~= rest@);
        self.error = Some(string_from_chars(&text));
    }

    /// Starts installing the staged update, if an install can start.
    /// Returns the staged path the application installs from.
    pub fn begin_install(&mut self) -> (staged: Option<String>)
        ensures
            old(self).installing || old(self).staged is None ==> staged is None && *final(self)
                == *old(self),
            !old(self).installing && old(self).staged is Some ==> staged == old(self).staged
                && final(self).installing && final(self).checking == old(self).checking
                && final(self).downloading == old(self).downloading && final(self).info == old(self).info && final(self).staged == old(self).staged && final(self).error == old(self).error,
    {
        if self.installing {
            return None;
        }
        match &self.staged {
            Some(path) => {
                let p = path.clone();
                self.installing = true;
                Some(p)
            },
            None => None,
        }
    }

    /// Takes the result of an install: a failure is recorded.
    pub fn finish_install(&mut self, result: Result<(), String>)
        ensures
            !final(self).installing,
            final(self).checking == old(self).checking,
            final(self).downloading == old(self).downloading,
            final(self).info == old(self).info,
            final(self).staged == old(self).staged,
            match result {
                Ok(()) => final(self).error == old(self).error,
                Err(e) => final(self).error == Some(e),
            },
    {
        self.installing = false;
        if let Err(e) = result {
            self.error = Some(e);
        }
    }
}

/// The line the settings page shows about updates: a running check, a
/// running download, a staged update waiting for a relaunch, a failure,
/// an available update (from the release page when it cannot be installed
/// automatically), or that the build is current, in that order of
/// precedence.
pub open spec fn status_text_spec(s: UpdateState) -> Seq<char> {
    if s.checking {
        "Checking for updates\u{2026}"@
    } else if s.downloading {
        "Downloading update in the background\u{2026}"@
    } else if s.staged is Some {
        "v"@ + (match s.info {
            Some(info) => info.version@,
            None => Seq::empty(),
        }) + " is ready \u{2014} relaunch when convenient"@
    } else if s.error is Some {
        "Could not prepare the update"@
    } else if s.info is Some {
        if s.info->Some_0.can_auto_install {
            "v"@ + s.info->Some_0.version@ + " is available"@
        } else {
            "v"@ + s.info->Some_0.version@ + " is available from the release page"@
        }
    } else {
        "You're up to date"@
    }
}

impl UpdateState {
    /// The update line of the settings page (`status_text_spec`).
    pub fn status_text(&self) -> (r: String)
        ensures
            r@ == status_text_spec(*self),
    {
        if self.checking {
            String::from_str("Checking for updates\u{2026}")
        } else if self.downloading {
            String::from_str("Downloading update in the background\u{2026}")
        } else if self.staged.is_some() {
            let mut r = String::from_str("v");
            match &self.info {
                Some(info) => r.append(info.version.as_str()),
                None => {},
            }
            r.append(" is ready \u{2014} relaunch when convenient");
            r
        } else if self.error.is_some() {
            String::from_str("Could not prepare the update")
        } else {
            match &self.info {
                Some(info) => {
                    let mut r = String::from_str("v");
                    r.append(info.version.as_str());
                    if info.can_auto_install {
                        r.append(" is available");
                    } else {
                        r.append(" is available from the release page");
                    }
                    r
                },
                None => String::from_str("You're up to date"),
            }
        }
    }
}

} // verus!
