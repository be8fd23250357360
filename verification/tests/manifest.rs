use mcl_core::component::{Error, Tag, Version as Selector};
use mcl_core::version_manifest::{
    resolve_version_entry, Release, Version, VersionManifest, VersionType,
};

fn entry(id: &str, type_: VersionType) -> Version {
    Version {
        id: id.to_string(),
        type_,
        url: format!("https://example.invalid/{}.json", id),
        time: String::new(),
        release_time: String::new(),
        sha1: [0u8; 20],
        compliance_level: 1,
    }
}

fn manifest() -> VersionManifest {
    VersionManifest {
        latest: Release { release: "1.20".to_string(), snapshot: "1.20.1-rc1".to_string() },
        versions: vec![
            entry("1.20", VersionType::Release),
            entry("1.20.1-rc1", VersionType::Snapshot),
        ],
    }
}

fn snapshot_first_manifest() -> VersionManifest {
    VersionManifest {
        latest: Release { release: "1.20".to_string(), snapshot: "1.20.1-rc1".to_string() },
        versions: vec![
            entry("1.20.1-rc1", VersionType::Snapshot),
            entry("1.20", VersionType::Release),
        ],
    }
}

#[test]
fn stable_resolves_to_the_first_release() {
    let m = manifest();
    let i = resolve_version_entry(&m, &Selector::Tag(Tag::Stable)).unwrap();
    assert_eq!(m.versions[i].id, "1.20");
    let m = snapshot_first_manifest();
    let i = resolve_version_entry(&m, &Selector::Tag(Tag::Stable)).unwrap();
    assert_eq!(m.versions[i].id, "1.20");
}

#[test]
fn latest_resolves_to_the_first_entry() {
    let m = manifest();
    let i = resolve_version_entry(&m, &Selector::Tag(Tag::Latest)).unwrap();
    assert_eq!(i, 0);
    assert_eq!(m.versions[i].id, "1.20");
    let m = snapshot_first_manifest();
    let i = resolve_version_entry(&m, &Selector::Tag(Tag::Latest)).unwrap();
    assert_eq!(m.versions[i].id, "1.20.1-rc1");
}

#[test]
fn id_resolves_by_equality() {
    let m = manifest();
    let i = resolve_version_entry(&m, &Selector::Id("1.20.1-rc1".to_string())).unwrap();
    assert_eq!(m.versions[i].id, "1.20.1-rc1");
    assert_eq!(m.versions[i].type_, VersionType::Snapshot);
}

#[test]
fn missing_id_is_version_not_found() {
    let m = manifest();
    let r = resolve_version_entry(&m, &Selector::Id("missing".to_string()));
    assert_eq!(r, Err(Error::VersionNotFound));
}

#[test]
fn empty_manifest_never_resolves() {
    let m = VersionManifest {
        latest: Release { release: String::new(), snapshot: String::new() },
        versions: Vec::new(),
    };
    assert_eq!(
        resolve_version_entry(&m, &Selector::Tag(Tag::Latest)),
        Err(Error::VersionNotFound)
    );
}
