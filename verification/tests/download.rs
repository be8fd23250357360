use mcl_core::utils::{
    plan_download, plan_json_read, verify_response, CachePlan, DownloadResult, RequestError,
};

const ABC_SHA1: [u8; 20] = [
    0xa9, 0x99, 0x3e, 0x36, 0x47, 0x06, 0x81, 0x6a, 0xba, 0x3e, 0x25, 0x71, 0x78, 0x50, 0xc2,
    0x6c, 0x9c, 0xd0, 0xd8, 0x9d,
];

#[test]
fn sha1_verifies_known_digest() {
    assert!(mcl_core::utils::Hash::Sha1(ABC_SHA1).verify(b"abc"));
    assert!(!mcl_core::utils::Hash::Sha1(ABC_SHA1).verify(b"abd"));
    assert!(!mcl_core::utils::Hash::Sha1([0u8; 20]).verify(b"abc"));
}

#[test]
fn unchecked_hash_accepts_anything() {
    assert!(mcl_core::utils::Hash::Unchecked.verify(b""));
    assert!(mcl_core::utils::Hash::Unchecked.verify(b"whatever"));
}

#[test]
fn skip_request_skips_without_network() {
    let r = plan_download(true, &None, &None);
    assert_eq!(r, DownloadResult::Skipped);
    let r = plan_download(true, &Some(b"junk".to_vec()), &Some(mcl_core::utils::Hash::Sha1([0u8; 20])));
    assert_eq!(r, DownloadResult::Skipped);
}

#[test]
fn verified_cache_skips_network() {
    let cached = Some(b"abc".to_vec());
    let r = plan_download(false, &cached, &Some(mcl_core::utils::Hash::Sha1(ABC_SHA1)));
    assert_eq!(r, DownloadResult::Skipped);
}

#[test]
fn mismatching_cache_is_refetched() {
    let cached = Some(b"corrupted".to_vec());
    let r = plan_download(false, &cached, &Some(mcl_core::utils::Hash::Sha1(ABC_SHA1)));
    assert_eq!(r, DownloadResult::Downloaded);
}

#[test]
fn absent_hash_always_fetches() {
    let cached = Some(b"abc".to_vec());
    assert_eq!(plan_download(false, &cached, &None), DownloadResult::Downloaded);
    assert_eq!(plan_download(false, &None, &None), DownloadResult::Downloaded);
}

#[test]
fn response_hash_mismatch_is_fatal() {
    let bytes = b"tampered".to_vec();
    let r = verify_response(&bytes, &Some(mcl_core::utils::Hash::Sha1(ABC_SHA1)));
    assert_eq!(r, Err(RequestError::HashMismatch));
    let good = b"abc".to_vec();
    assert_eq!(verify_response(&good, &Some(mcl_core::utils::Hash::Sha1(ABC_SHA1))), Ok(()));
    assert_eq!(verify_response(&bytes, &None), Ok(()));
}

#[test]
fn json_cache_with_verified_hash_is_served() {
    let cached = Some(b"abc".to_vec());
    let r = plan_json_read(&cached, &Some(mcl_core::utils::Hash::Sha1(ABC_SHA1)), &None, &None);
    assert_eq!(r, CachePlan::UseCache);
}

#[test]
fn json_cache_within_freshness_window_is_served() {
    let cached = Some(b"{}".to_vec());
    let r = plan_json_read(&cached, &None, &Some(100), &Some(1800));
    assert_eq!(r, CachePlan::UseCache);
    let r = plan_json_read(&cached, &None, &Some(2000), &Some(1800));
    assert_eq!(r, CachePlan::Fetch { fallback: true });
}

#[test]
fn json_freshness_never_overrides_a_failed_hash() {
    let cached = Some(b"stale".to_vec());
    let r = plan_json_read(&cached, &Some(mcl_core::utils::Hash::Sha1(ABC_SHA1)), &Some(0), &Some(1800));
    assert_eq!(r, CachePlan::Fetch { fallback: true });
}

#[test]
fn json_without_cache_fetches_without_fallback() {
    let r = plan_json_read(&None, &None, &None, &Some(1800));
    assert_eq!(r, CachePlan::Fetch { fallback: false });
}
