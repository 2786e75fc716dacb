//! Over-the-air updates: which release to offer, which of its files to fetch, and whether what
//! arrived is what the release promised.
use vstd::prelude::*;

use sha2::Digest;

use crate::number::{parse_i32, parse_i32_spec, parse_unsigned, parse_unsigned_spec};
use crate::text::{
    back_class, chars_of, find_char, find_str, index_of, lemma_find_from,
    lemma_strip_end_range, lemma_strip_start_range, skip_class, str_eq, strip_start, trim,
    find_from, copy_string, nth_word, nth_word_range, second_line, second_line_range, CharClass,
};

verus! {

/// `"-flip."`, which separates a tag's base version from its build number.
pub open spec fn flip_marker() -> Seq<char> {
    seq!['-', 'f', 'l', 'i', 'p', '.']
}

/// One dot-separated number of a version, as `str::parse::<u32>` reads it.
pub open spec fn version_part(s: Seq<char>) -> Option<u32> {
    match parse_unsigned_spec(s, u32::MAX as nat) {
        Some(n) => Some(n as u32),
        None => None,
    }
}

/// `1.0.1` as its three numbers: exactly two dots, with a number before, between and after them.
pub open spec fn parse_base(base: Seq<char>) -> Option<(u32, u32, u32)> {
    let i = index_of(base, '.');
    let rest = base.skip(i + 1);
    let j = index_of(rest, '.');
    let last = rest.skip(j + 1);
    if i < 0 || j < 0 || index_of(last, '.') >= 0 {
        None
    } else {
        match (version_part(base.take(i)), version_part(rest.take(j)), version_part(last)) {
            (Some(a), Some(b), Some(c)) => Some((a, b, c)),
            _ => None,
        }
    }
}

/// A release tag as four numbers: `v1.0.1-flip.14` is `(1, 0, 1, 14)`. Surrounding whitespace and
/// any leading `v`s are ignored; a tag without `-flip.` has build 0, so it sorts before every
/// build of the same base version.
pub open spec fn parse_version_spec(tag: Seq<char>) -> Option<(u32, u32, u32, u32)> {
    let t = strip_start(trim(tag), CharClass::Exactly('v'));
    let k = find_from(t, flip_marker(), 0);
    let base = if k < 0 {
        t
    } else {
        t.take(k)
    };
    let build = if k < 0 {
        Some(0u32)
    } else {
        version_part(t.skip(k + 6))
    };
    match (build, parse_base(base)) {
        (Some(n), Some((a, b, c))) => Some((a, b, c, n)),
        _ => None,
    }
}

/// Lexicographic order on versions: the first differing number decides.
pub open spec fn version_gt(a: (u32, u32, u32, u32), b: (u32, u32, u32, u32)) -> bool {
    ||| a.0 > b.0
    ||| a.0 == b.0 && a.1 > b.1
    ||| a.0 == b.0 && a.1 == b.1 && a.2 > b.2
    ||| a.0 == b.0 && a.1 == b.1 && a.2 == b.2 && a.3 > b.3
}

/// Whether `latest` is offered over `current`: numerically greater when both parse, and merely
/// different when either does not.
pub open spec fn is_newer_spec(latest: Seq<char>, current: Seq<char>) -> bool {
    match (parse_version_spec(latest), parse_version_spec(current)) {
        (Some(l), Some(c)) => version_gt(l, c),
        _ => latest != current,
    }
}

fn parse_part(s: &Vec<char>, lo: usize, hi: usize) -> (r: Option<u32>)
    requires
        lo <= hi <= s.len(),
    ensures
        r == version_part(s@.subrange(lo as int, hi as int)),
{
    match parse_unsigned(s, lo, hi, 0xffff_ffff) {
        Some(n) => Some(n as u32),
        None => None,
    }
}

/// The three numbers of `s[lo..hi]`.
fn parse_base_range(s: &Vec<char>, lo: usize, hi: usize) -> (r: Option<(u32, u32, u32)>)
    requires
        lo <= hi <= s.len(),
    ensures
        r == parse_base(s@.subrange(lo as int, hi as int)),
{
    let ghost base = s@.subrange(lo as int, hi as int);
    let i = match find_char(s, lo, hi, '.') {
        Some(i) => i,
        None => return None,
    };
    let ghost rest = base.skip(i - lo + 1);
    assert(rest =~= s@.subrange(i + 1, hi as int));
    let j = match find_char(s, i + 1, hi, '.') {
        Some(j) => j,
        None => return None,
    };
    let ghost last = rest.skip(j - (i + 1) + 1);
    assert(last =~= s@.subrange(j + 1, hi as int));
    if find_char(s, j + 1, hi, '.').is_some() {
        return None;
    }
    assert(base.take(i - lo) =~= s@.subrange(lo as int, i as int));
    assert(rest.take(j - (i + 1)) =~= s@.subrange(i + 1, j as int));
    let a = parse_part(s, lo, i);
    let b = parse_part(s, i + 1, j);
    let c = parse_part(s, j + 1, hi);
    match (a, b, c) {
        (Some(a), Some(b), Some(c)) => Some((a, b, c)),
        _ => None,
    }
}

/// The characters `s[lo..hi]` as a vector of their own.
fn chars_in_range(s: &Vec<char>, lo: usize, hi: usize) -> (r: Vec<char>)
    requires
        lo <= hi <= s.len(),
    ensures
        r@ == s@.subrange(lo as int, hi as int),
{
    let mut r: Vec<char> = Vec::new();
    let mut i = lo;
    while i < hi
        invariant
            lo <= i <= hi <= s.len(),
            r@ == s@.subrange(lo as int, i as int),
        decreases hi - i,
    {
        r.push(s[i]);
        assert(s@.subrange(lo as int, i + 1) =~= s@.subrange(lo as int, i as int).push(s@[i as int]));
        i += 1;
    }
    r
}

/// `v1.0.1-flip.14` as `(1, 0, 1, 14)`; see [`parse_version_spec`].
pub fn parse_version(tag: &str) -> (r: Option<(u32, u32, u32, u32)>)
    ensures
        r == parse_version_spec(tag@),
{
    let s = chars_of(tag);
    let n = s.len();
    let a = skip_class(&s, 0, n, CharClass::Whitespace);
    let b = back_class(&s, a, n, CharClass::Whitespace);
    let lo = skip_class(&s, a, b, CharClass::Exactly('v'));
    proof {
        assert(s@.subrange(0, n as int) =~= s@);
        lemma_strip_start_range(s@, 0, n as int, CharClass::Whitespace);
        lemma_strip_end_range(s@, a as int, n as int, CharClass::Whitespace);
        lemma_strip_start_range(s@, a as int, b as int, CharClass::Exactly('v'));
    }
    let t = chars_in_range(&s, lo, b);
    assert(t@ == strip_start(trim(tag@), CharClass::Exactly('v')));
    let marker = vec!['-', 'f', 'l', 'i', 'p', '.'];
    assert(marker@ =~= flip_marker());
    let (base_end, build) = match find_str(&t, &marker) {
        Some(k) => {
            assert(t@.skip(k + 6) =~= t@.subrange(k + 6, t.len() as int));
            (k, parse_part(&t, k + 6, t.len()))
        },
        None => (t.len(), Some(0u32)),
    };
    assert(t@.take(base_end as int) =~= t@.subrange(0, base_end as int));
    assert(t@.subrange(0, t.len() as int) =~= t@);
    let base = parse_base_range(&t, 0, base_end);
    match (build, base) {
        (Some(n), Some((a, b, c))) => Some((a, b, c, n)),
        _ => None,
    }
}

fn version_greater(a: (u32, u32, u32, u32), b: (u32, u32, u32, u32)) -> (r: bool)
    ensures
        r == version_gt(a, b),
{
    if a.0 != b.0 {
        a.0 > b.0
    } else if a.1 != b.1 {
        a.1 > b.1
    } else if a.2 != b.2 {
        a.2 > b.2
    } else {
        a.3 > b.3
    }
}

/// Whether `latest` should be offered over `current`.
///
/// Both are parsed and compared numerically, so a device running anything but the newest build
/// is never offered a downgrade. If either does not parse (a build with no version file reads
/// `unknown`), inequality is the fallback: offering an update is the safe direction for a device
/// whose version cannot be established.
pub fn is_newer(latest: &str, current: &str) -> (r: bool)
    ensures
        r == is_newer_spec(latest@, current@),
{
    match (parse_version(latest), parse_version(current)) {
        (Some(l), Some(c)) => version_greater(l, c),
        _ => !str_eq(latest, current),
    }
}

/// A version is never newer than itself, whether or not it parses.
pub proof fn lemma_is_newer_irreflexive(v: Seq<char>)
    ensures
        !is_newer_spec(v, v),
{
}

/// Of two versions that both parse, at most one is newer than the other, so the device can never
/// be offered a release and then offered its own version back.
pub proof fn lemma_is_newer_asymmetric(a: Seq<char>, b: Seq<char>)
    requires
        parse_version_spec(a) is Some,
        parse_version_spec(b) is Some,
    ensures
        is_newer_spec(a, b) ==> !is_newer_spec(b, a),
{
}

/// Newer-than chains among versions that parse: offering `a` over `b` and `b` over `c` means `a`
/// is offered over `c`.
pub proof fn lemma_is_newer_transitive(a: Seq<char>, b: Seq<char>, c: Seq<char>)
    requires
        parse_version_spec(a) is Some,
        parse_version_spec(b) is Some,
        parse_version_spec(c) is Some,
        is_newer_spec(a, b),
        is_newer_spec(b, c),
    ensures
        is_newer_spec(a, c),
{
}

/// Two versions that parse to different numbers are ordered one way or the other.
pub proof fn lemma_is_newer_total(a: Seq<char>, b: Seq<char>)
    requires
        parse_version_spec(a) is Some,
        parse_version_spec(b) is Some,
        parse_version_spec(a) != parse_version_spec(b),
    ensures
        is_newer_spec(a, b) || is_newer_spec(b, a),
{
}

/// Whether the System Update screen contacts the release server at all.
#[derive(Clone, Copy, Debug, PartialEq, Eq, Structural)]
pub enum UpdateChannel {
    /// Never look for updates.
    Off,
    /// Offer the latest release.
    On,
}

impl Default for UpdateChannel {
    fn default() -> (r: Self)
        ensures
            r == UpdateChannel::On,
    {
        UpdateChannel::On
    }
}

/// Update settings that are kept on disk.
#[derive(Clone, Copy, Debug, PartialEq, Eq, Structural)]
pub struct UpdateSettings {
    pub channel: UpdateChannel,
}

impl Default for UpdateSettings {
    fn default() -> (r: Self)
        ensures
            r.channel == UpdateChannel::On,
    {
        UpdateSettings { channel: UpdateChannel::On }
    }
}

impl UpdateSettings {
    /// The settings to use given what was read from disk: those, or the defaults where there
    /// were none.
    pub fn load(stored: Option<UpdateSettings>) -> (r: UpdateSettings)
        ensures
            r == match stored {
                Some(s) => s,
                None => UpdateSettings { channel: UpdateChannel::On },
            },
    {
        match stored {
            Some(s) => s,
            None => UpdateSettings::default(),
        }
    }
}

/// A published release, as the release server describes it.
#[derive(Clone, Debug)]
pub struct GitHubRelease {
    pub tag_name: String,
    pub assets: Vec<GitHubAsset>,
    pub prerelease: bool,
}

/// One downloadable file of a release.
#[derive(Clone, Debug)]
pub struct GitHubAsset {
    pub name: String,
    pub browser_download_url: String,
    pub digest: Option<String>,
}

/// The version a release is known by: its tag, verbatim.
pub fn get_release_version(release: &GitHubRelease) -> (r: String)
    ensures
        r@ == release.tag_name@,
{
    release.tag_name.clone()
}

/// The release to offer a device running `current`: `release` itself when it is newer, else
/// nothing.
pub fn update_offer(release: GitHubRelease, current: &str) -> (r: Option<GitHubRelease>)
    ensures
        r is Some <==> is_newer_spec(release.tag_name@, current@),
        r is Some ==> r->0 == release,
{
    if is_newer(release.tag_name.as_str(), current) {
        Some(release)
    } else {
        None
    }
}

/// The file of a release that holds the system image.
pub const RELEASE_FILE: &'static str = "allium-armv7-unknown-linux-gnueabihf.zip";

/// What can go wrong between choosing a release and having it on the card.
#[derive(Clone, Debug)]
pub enum OtaError {
    /// The release has no file named [`RELEASE_FILE`].
    AssetNotFound,
    /// The file has no SHA-256 digest to check the download against.
    DigestMissing,
    /// What arrived does not hash to what the release promised.
    ChecksumMismatch { expected: String, calculated: String },
    /// The card has less room than an update needs: [`MIN_FREE_MB`] megabytes.
    InsufficientSpace { available_mb: i32 },
}

/// Where to fetch an update from, and the lowercase hex SHA-256 it must hash to.
#[derive(Clone, Debug)]
pub struct DownloadPlan {
    pub url: String,
    pub expected_hash: String,
}

/// `"sha256:"`, the prefix of a digest this updater can check.
pub open spec fn sha256_prefix() -> Seq<char> {
    seq!['s', 'h', 'a', '2', '5', '6', ':']
}

/// The hex digits of a `sha256:` digest, or nothing for a digest of another kind.
pub open spec fn sha256_of_digest(d: Seq<char>) -> Option<Seq<char>> {
    if d.len() >= 7 && d.take(7) == sha256_prefix() {
        Some(d.skip(7))
    } else {
        None
    }
}

/// The hex digits of a `sha256:` digest.
fn strip_sha256_prefix(d: &str) -> (r: Option<String>)
    ensures
        match r {
            Some(h) => sha256_of_digest(d@) == Some(h@),
            None => sha256_of_digest(d@) is None,
        },
{
    let s = chars_of(d);
    let prefix = vec!['s', 'h', 'a', '2', '5', '6', ':'];
    assert(prefix@ =~= sha256_prefix());
    if s.len() < 7 {
        return None;
    }
    let mut i: usize = 0;
    while i < 7
        invariant
            s.len() >= 7,
            s@ == d@,
            prefix@ == sha256_prefix(),
            i <= 7,
            forall|k: int| 0 <= k < i ==> s@[k] == prefix@[k],
        decreases 7 - i,
    {
        if s[i] != prefix[i] {
            assert(s@.take(7)[i as int] != sha256_prefix()[i as int]);
            return None;
        }
        i += 1;
    }
    assert(s@.take(7) =~= sha256_prefix());
    let h = crate::text::string_of_range(&s, 7, s.len());
    assert(s@.skip(7) =~= s@.subrange(7, s.len() as int));
    Some(h)
}

/// Where a release's system image is and what it must hash to: the first asset named
/// [`RELEASE_FILE`], and its `sha256:` digest.
pub fn download_plan(release: &GitHubRelease) -> (r: Result<DownloadPlan, OtaError>)
    ensures
        match r {
            Ok(plan) => exists|i: int|
                #![auto]
                0 <= i < release.assets.len() && release.assets[i].name@ == RELEASE_FILE@ && (
                forall|j: int| 0 <= j < i ==> #[trigger] release.assets[j].name@ != RELEASE_FILE@)
                    && plan.url@ == release.assets[i].browser_download_url@
                    && release.assets[i].digest is Some && sha256_of_digest(
                    release.assets[i].digest->0@,
                ) == Some(plan.expected_hash@),
            Err(OtaError::AssetNotFound) => forall|j: int|
                0 <= j < release.assets.len() ==> #[trigger] release.assets[j].name@
                    != RELEASE_FILE@,
            Err(OtaError::DigestMissing) => exists|i: int|
                #![auto]
                0 <= i < release.assets.len() && release.assets[i].name@ == RELEASE_FILE@ && (
                forall|j: int| 0 <= j < i ==> #[trigger] release.assets[j].name@ != RELEASE_FILE@)
                    && (release.assets[i].digest is None || sha256_of_digest(
                    release.assets[i].digest->0@,
                ) is None),
            Err(OtaError::ChecksumMismatch { .. }) => false,
            Err(OtaError::InsufficientSpace { .. }) => false,
        },
{
    let mut i: usize = 0;
    while i < release.assets.len()
        invariant
            i <= release.assets.len(),
            forall|j: int| 0 <= j < i ==> #[trigger] release.assets[j].name@ != RELEASE_FILE@,
        decreases release.assets.len() - i,
    {
        let asset = &release.assets[i];
        if str_eq(asset.name.as_str(), RELEASE_FILE) {
            let expected = match &asset.digest {
                Some(d) => strip_sha256_prefix(d.as_str()),
                None => None,
            };
            return match expected {
                Some(h) => Ok(DownloadPlan { url: asset.browser_download_url.clone(), expected_hash: h }),
                None => Err(OtaError::DigestMissing),
            };
        }
        i += 1;
    }
    Err(OtaError::AssetNotFound)
}

/// `sha2::Sha256`, a hasher in progress, carried through as it is.
#[verifier::external_type_specification]
#[verifier::external_body]
pub struct ExSha256(sha2::Sha256);

/// The bytes a SHA-256 hasher has been fed, in order: a hasher holds nothing else that its
/// result depends on.
pub uninterp spec fn sha256_fed(h: sha2::Sha256) -> Seq<u8>;

/// The SHA-256 digest of a byte string.
pub uninterp spec fn sha256_digest(data: Seq<u8>) -> Seq<u8>;

/// A fresh hasher, through `sha2::Sha256::new`: it has been fed nothing.
#[verifier::external_body]
fn sha256_new() -> (h: sha2::Sha256)
    ensures
        sha256_fed(h) == Seq::<u8>::empty(),
{
    sha2::Sha256::new()
}

/// Feeds `chunk` to the hasher, through `Digest::update`: it is appended to what was fed.
#[verifier::external_body]
fn sha256_update(h: &mut sha2::Sha256, chunk: &[u8])
    ensures
        sha256_fed(*final(h)) == sha256_fed(*old(h)) + chunk@,
{
    h.update(chunk);
}

/// The digest of everything fed, through `Digest::finalize`: the 32-byte SHA-256 of those bytes.
#[verifier::external_body]
fn sha256_finalize(h: sha2::Sha256) -> (d: Vec<u8>)
    ensures
        d@ == sha256_digest(sha256_fed(h)),
        d@.len() == 32,
{
    h.finalize().to_vec()
}

/// The lowercase hex digit for `n`, which is below 16.
pub open spec fn hex_digit(n: int) -> char {
    if n < 10 {
        ((n + 48) as u32) as char
    } else {
        ((n + 87) as u32) as char
    }
}

/// Bytes as lowercase hex, two digits each, high nibble first.
pub open spec fn hex_lower(b: Seq<u8>) -> Seq<char>
    decreases b.len(),
{
    if b.len() == 0 {
        Seq::empty()
    } else {
        hex_lower(b.drop_last()) + seq![hex_digit((b.last() / 16) as int), hex_digit((b.last() % 16) as int)]
    }
}

/// Bytes as lowercase hex, through `const_hex::encode`.
#[verifier::external_body]
fn hex_encode(bytes: &[u8]) -> (s: String)
    ensures
        s@ == hex_lower(bytes@),
{
    const_hex::encode(bytes)
}

/// How much of a download has arrived.
#[derive(Clone, Copy, Debug)]
pub struct DownloadProgress {
    pub downloaded: u64,
    pub total: u64,
}

impl DownloadProgress {
    /// Whole percent done, for the log. A server that omits the length leaves `total` zero, which
    /// reads as 0% rather than dividing by it.
    pub fn percent(&self) -> (r: u64)
        requires
            self.downloaded * 100 <= u64::MAX,
        ensures
            r == if self.total == 0 {
                0
            } else {
                (self.downloaded * 100) as int / self.total as int
            },
    {
        if self.total > 0 {
            self.downloaded * 100 / self.total
        } else {
            0
        }
    }
}

/// What a download reports to the screen showing it.
#[derive(Clone, Debug)]
pub enum DownloadEvent {
    Progress(DownloadProgress),
    Completed,
    Error(String),
}

/// The milliseconds between two progress reports.
pub const PROGRESS_INTERVAL_MS: u64 = 1000;

/// A download in flight: what has arrived, hashed as it arrives, and when progress was last
/// reported. The bytes themselves go straight to the card; only their digest is kept here.
pub struct Download {
    hasher: sha2::Sha256,
    downloaded: u64,
    total: u64,
    last_report_ms: u64,
    expected_hash: String,
}

impl Download {
    /// Everything received so far, in order.
    pub closed spec fn received(&self) -> Seq<u8> {
        sha256_fed(self.hasher)
    }

    pub closed spec fn wf(&self) -> bool {
        self.downloaded == self.received().len()
    }

    /// How many bytes the server announced, 0 when it did not say.
    pub closed spec fn total(&self) -> u64 {
        self.total
    }

    /// When progress was last reported, in the caller's milliseconds.
    pub closed spec fn last_report_ms(&self) -> u64 {
        self.last_report_ms
    }

    /// The hex digest the download must reach.
    pub closed spec fn expected_hash(&self) -> Seq<char> {
        self.expected_hash@
    }

    /// Starts a download of `total` bytes (0 when unknown) that must hash to `plan`'s digest,
    /// at time `now_ms`.
    pub fn start(plan: &DownloadPlan, total: u64, now_ms: u64) -> (d: Download)
        ensures
            d.wf(),
            d.received() == Seq::<u8>::empty(),
            d.total() == total,
            d.last_report_ms() == now_ms,
            d.expected_hash() == plan.expected_hash@,
    {
        Download {
            hasher: sha256_new(),
            downloaded: 0,
            total,
            last_report_ms: now_ms,
            expected_hash: plan.expected_hash.clone(),
        }
    }

    /// Progress so far.
    pub fn progress(&self) -> (p: DownloadProgress)
        requires
            self.wf(),
        ensures
            p.downloaded == self.received().len(),
            p.total == self.total(),
    {
        DownloadProgress { downloaded: self.downloaded, total: self.total }
    }

    /// Takes in the next `chunk` at time `now_ms`, and says what progress to report: some once a
    /// second at most, nothing in between.
    pub fn receive(&mut self, chunk: &[u8], now_ms: u64) -> (r: Option<DownloadProgress>)
        requires
            old(self).wf(),
            old(self).received().len() + chunk@.len() <= u64::MAX,
            old(self).last_report_ms() <= now_ms,
        ensures
            final(self).wf(),
            final(self).received() == old(self).received() + chunk@,
            final(self).total() == old(self).total(),
            final(self).expected_hash() == old(self).expected_hash(),
            r is Some <==> now_ms - old(self).last_report_ms() >= PROGRESS_INTERVAL_MS,
            final(self).last_report_ms() == if r is Some {
                now_ms
            } else {
                old(self).last_report_ms()
            },
            r is Some ==> r->0.downloaded == final(self).received().len() && r->0.total
                == old(self).total(),
    {
        sha256_update(&mut self.hasher, chunk);
        self.downloaded = self.downloaded + chunk.len() as u64;
        if now_ms - self.last_report_ms >= PROGRESS_INTERVAL_MS {
            self.last_report_ms = now_ms;
            Some(DownloadProgress { downloaded: self.downloaded, total: self.total })
        } else {
            None
        }
    }

    /// Ends the download: `Ok` exactly when what was received hashes to the expected digest.
    pub fn finish(self) -> (r: Result<(), OtaError>)
        requires
            self.wf(),
        ensures
            r is Ok <==> hex_lower(sha256_digest(self.received())) == self.expected_hash(),
            match r {
                Err(OtaError::ChecksumMismatch { expected, calculated }) => expected@
                    == self.expected_hash() && calculated@ == hex_lower(
                    sha256_digest(self.received()),
                ),
                Err(_) => false,
                Ok(_) => true,
            },
    {
        let digest = sha256_finalize(self.hasher);
        let calculated = hex_encode(digest.as_slice());
        if str_eq(calculated.as_str(), self.expected_hash.as_str()) {
            Ok(())
        } else {
            Err(OtaError::ChecksumMismatch { expected: self.expected_hash, calculated })
        }
    }
}


/// Megabytes the card must have free before an update is fetched.
pub const MIN_FREE_MB: i32 = 300;

/// The megabytes `df -m` reports free: the fourth word of its second line, as a number, or 0
/// where there is no such word or it is not one.
pub open spec fn df_available_spec(df_output: Seq<char>) -> int {
    match second_line(df_output) {
        Some(line) => match nth_word(line, 3) {
            Some(word) => match parse_i32_spec(word) {
                Some(v) => v,
                None => 0,
            },
            None => 0,
        },
        None => 0,
    }
}

/// The megabytes free by the output of `df -m`; see [`df_available_spec`].
pub fn available_megabytes(df_output: &str) -> (r: i32)
    ensures
        r == df_available_spec(df_output@),
{
    let s = chars_of(df_output);
    match second_line_range(&s) {
        None => 0,
        Some((a, b)) => match nth_word_range(&s, a, b, 3) {
            None => 0,
            Some((c, d)) => match parse_i32(&s, c, d) {
                Some(v) => v,
                None => 0,
            },
        },
    }
}

/// Whether the card has room for an update, by the output of `df -m`: `Ok` exactly when at least
/// [`MIN_FREE_MB`] megabytes are free, else the error names how many are.
pub fn check_free_space(df_output: &str) -> (r: Result<(), OtaError>)
    ensures
        r is Ok <==> df_available_spec(df_output@) >= MIN_FREE_MB,
        match r {
            Err(OtaError::InsufficientSpace { available_mb }) => available_mb == df_available_spec(
                df_output@,
            ),
            Err(_) => false,
            Ok(_) => true,
        },
{
    let available = available_megabytes(df_output);
    if available < MIN_FREE_MB {
        Err(OtaError::InsufficientSpace { available_mb: available })
    } else {
        Ok(())
    }
}

} // verus!
