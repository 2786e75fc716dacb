use allium::ota::{
    available_megabytes, check_free_space, download_plan, get_release_version, is_newer, parse_version, update_offer, Download,
    DownloadPlan, DownloadProgress, GitHubAsset, GitHubRelease, OtaError, UpdateChannel,
    UpdateSettings, MIN_FREE_MB, RELEASE_FILE,
};

fn release(tag: &str) -> GitHubRelease {
    GitHubRelease {
        tag_name: tag.to_string(),
        assets: vec![],
        prerelease: false,
    }
}

fn asset(name: &str, digest: Option<&str>) -> GitHubAsset {
    GitHubAsset {
        name: name.to_string(),
        browser_download_url: format!("https://example.invalid/{name}"),
        digest: digest.map(str::to_string),
    }
}

#[test]
fn version_is_the_tag_verbatim() {
    assert_eq!(
        get_release_version(&release("v1.0.1-flip.14")),
        "v1.0.1-flip.14"
    );
}

#[test]
fn parses_fork_tags_and_plain_semver() {
    assert_eq!(parse_version("v1.0.1-flip.14"), Some((1, 0, 1, 14)));
    assert_eq!(parse_version("v1.0.1"), Some((1, 0, 1, 0)));
    assert_eq!(parse_version("1.2.3"), Some((1, 2, 3, 0)));
    assert_eq!(parse_version("unknown"), None);
    assert_eq!(parse_version("v1.0"), None);
    assert_eq!(parse_version("v1.0.1.2"), None);
    assert_eq!(parse_version("v1.0.1-flip.x"), None);
}

#[test]
fn newer_means_numerically_greater() {
    assert!(is_newer("v1.0.1-flip.15", "v1.0.1-flip.14"));
    assert!(
        !is_newer("v1.0.1-flip.14", "v1.0.1-flip.15"),
        "a downgrade is not an update"
    );
    assert!(!is_newer("v1.0.1-flip.14", "v1.0.1-flip.14"));
    // A new base version beats any build of the old one
    assert!(is_newer("v1.0.2", "v1.0.1-flip.99"));
    assert!(is_newer("v1.0.1-flip.1", "v1.0.1"));
    // Build numbers compare as numbers, not strings
    assert!(is_newer("v1.0.1-flip.100", "v1.0.1-flip.99"));
}

#[test]
fn unparseable_versions_fall_back_to_inequality() {
    assert!(is_newer("v1.0.1-flip.14", "unknown"));
    assert!(!is_newer("unknown", "unknown"));
}

#[test]
fn parse_version_trims_and_drops_every_leading_v() {
    assert_eq!(parse_version("  vv2.3.4-flip.5\n"), Some((2, 3, 4, 5)));
    assert_eq!(parse_version("+1.+2.3"), Some((1, 2, 3, 0)));
    assert_eq!(parse_version("4294967296.0.0"), None);
    assert_eq!(parse_version("1..3"), None);
    assert_eq!(parse_version(""), None);
}

#[test]
fn newer_is_never_newer_than_itself() {
    for tag in ["v1.0.1", "unknown", "", "v9.9.9-flip.9"] {
        assert!(!is_newer(tag, tag), "{tag}");
    }
}

#[test]
fn unparseable_pairs_are_both_newer_than_each_other() {
    assert!(is_newer("v1.0.1", "unknown"));
    assert!(is_newer("unknown", "v1.0.1"));
}

#[test]
fn an_update_is_offered_only_when_newer() {
    let offered = update_offer(release("v1.0.1-flip.15"), "v1.0.1-flip.14");
    assert_eq!(offered.map(|r| r.tag_name), Some("v1.0.1-flip.15".to_string()));
    assert!(update_offer(release("v1.0.1-flip.14"), "v1.0.1-flip.15").is_none());
}

#[test]
fn update_channel_defaults_to_on() {
    assert_eq!(UpdateChannel::default(), UpdateChannel::On);
    assert_eq!(UpdateSettings::default().channel, UpdateChannel::On);
}

#[test]
fn the_plan_uses_the_first_release_file_and_its_sha256() {
    let mut r = release("v1.0.1");
    r.assets = vec![
        asset("other.zip", Some("sha256:00")),
        asset(RELEASE_FILE, Some("sha256:abcdef")),
        asset(RELEASE_FILE, Some("sha256:999999")),
    ];
    let plan = download_plan(&r).ok().unwrap();
    assert_eq!(plan.expected_hash, "abcdef");
    assert_eq!(plan.url, format!("https://example.invalid/{RELEASE_FILE}"));
}

#[test]
fn a_release_without_the_file_has_no_plan() {
    let mut r = release("v1.0.1");
    r.assets = vec![asset("other.zip", Some("sha256:00"))];
    assert!(matches!(download_plan(&r), Err(OtaError::AssetNotFound)));
}

#[test]
fn a_file_without_a_sha256_digest_has_no_plan() {
    let mut r = release("v1.0.1");
    r.assets = vec![asset(RELEASE_FILE, None)];
    assert!(matches!(download_plan(&r), Err(OtaError::DigestMissing)));
    r.assets = vec![asset(RELEASE_FILE, Some("md5:abc"))];
    assert!(matches!(download_plan(&r), Err(OtaError::DigestMissing)));
    r.assets = vec![asset(RELEASE_FILE, Some("sha256"))];
    assert!(matches!(download_plan(&r), Err(OtaError::DigestMissing)));
}

/// SHA-256 of "abc".
const ABC: &str = "ba7816bf8f01cfea414140de5dae2223b00361a396177a9cb410ff61f20015ad";

fn plan(expected: &str) -> DownloadPlan {
    DownloadPlan {
        url: String::new(),
        expected_hash: expected.to_string(),
    }
}

#[test]
fn a_download_that_hashes_right_finishes() {
    let mut d = Download::start(&plan(ABC), 3, 0);
    assert!(d.receive(b"a", 10).is_none());
    assert!(d.receive(b"bc", 20).is_none());
    assert!(d.finish().is_ok());
}

#[test]
fn a_download_that_hashes_wrong_reports_both_digests() {
    let mut d = Download::start(&plan("00"), 3, 0);
    d.receive(b"abc", 0);
    match d.finish() {
        Err(OtaError::ChecksumMismatch {
            expected,
            calculated,
        }) => {
            assert_eq!(expected, "00");
            assert_eq!(calculated, ABC);
        }
        other => panic!("unexpected {other:?}"),
    }
}

#[test]
fn the_chunks_are_hashed_in_order() {
    let mut d = Download::start(&plan(ABC), 3, 0);
    d.receive(b"bc", 0);
    d.receive(b"a", 0);
    assert!(d.finish().is_err());
}

#[test]
fn progress_is_reported_at_most_once_a_second() {
    let mut d = Download::start(&plan(ABC), 10, 0);
    assert!(d.receive(b"a", 999).is_none());
    let p = d.receive(b"b", 1000).unwrap();
    assert_eq!((p.downloaded, p.total), (2, 10));
    assert!(d.receive(b"c", 1999).is_none());
    let p = d.receive(b"", 2000).unwrap();
    assert_eq!(p.downloaded, 3);
    assert_eq!(d.progress().downloaded, 3);
}

#[test]
fn percent_is_zero_without_a_length() {
    let p = DownloadProgress {
        downloaded: 50,
        total: 0,
    };
    assert_eq!(p.percent(), 0);
    let p = DownloadProgress {
        downloaded: 1,
        total: 3,
    };
    assert_eq!(p.percent(), 33);
}

#[test]
fn update_settings_default_to_on_when_nothing_was_stored() {
    assert_eq!(UpdateSettings::load(None).channel, UpdateChannel::On);
    let off = UpdateSettings { channel: UpdateChannel::Off };
    assert_eq!(UpdateSettings::load(Some(off)).channel, UpdateChannel::Off);
}

const DF_HEADER: &str = "Filesystem           1M-blocks      Used Available Use% Mounted on\n";

#[test]
fn free_space_is_the_fourth_column_of_the_second_line() {
    let out = format!("{DF_HEADER}/dev/mmcblk0p1           30436     30236       200  99% /mnt/SDCARD\n");
    assert_eq!(available_megabytes(&out), 200);
    assert!(matches!(
        check_free_space(&out),
        Err(OtaError::InsufficientSpace { available_mb: 200 })
    ));
    let roomy = format!("{DF_HEADER}/dev/mmcblk0p1 30436 1000 29436 4% /mnt/SDCARD");
    assert_eq!(available_megabytes(&roomy), 29436);
    assert!(check_free_space(&roomy).is_ok());
    let edge = format!("{DF_HEADER}/dev/mmcblk0p1\t30436  30136  {MIN_FREE_MB}  99% /mnt/SDCARD\r\n");
    assert_eq!(available_megabytes(&edge), 300);
    assert!(check_free_space(&edge).is_ok());
}

#[test]
fn unreadable_df_output_counts_as_no_space() {
    assert_eq!(available_megabytes(""), 0);
    assert_eq!(available_megabytes(DF_HEADER), 0);
    assert_eq!(available_megabytes(&format!("{DF_HEADER}/dev/mmcblk0p1 30436 30236")), 0);
    assert_eq!(available_megabytes(&format!("{DF_HEADER}/dev/x 1 1 lots 99% /")), 0);
    assert_eq!(available_megabytes(&format!("{DF_HEADER}/dev/x 1 1 99999999999 1% /")), 0);
    assert_eq!(available_megabytes(&format!("{DF_HEADER}/dev/x 1 1 -5 1% /")), -5);
    assert!(matches!(
        check_free_space("df: /mnt/SDCARD: No such file or directory\n"),
        Err(OtaError::InsufficientSpace { available_mb: 0 })
    ));
}
