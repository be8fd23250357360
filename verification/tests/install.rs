use mcl_core::asset_index::{Asset, AssetIndex};
use mcl_core::component::State;
use mcl_core::minecraft::{
    append_arguments, append_classpath, asset_index_request, asset_requests, client_jar_request,
    manifest_request, version_meta_request, MANIFEST_FRESHNESS_SECS,
};
use mcl_core::rules::{OsRule, Platform, Rule, RuleAction};
use mcl_core::version::{
    Argument as RawArgument, Arguments, Artifact, AssetIndex as AssetIndexRef, Download,
    Downloads, Library, LibraryDownloadsArtifact, Version, VersionType,
};

fn linux() -> Platform {
    Platform { os_name: "linux".to_string(), os_arch: "x86_64".to_string() }
}

fn artifact(path: &str) -> Artifact {
    Artifact {
        path: path.to_string(),
        sha1: [7u8; 20],
        size: 1,
        url: format!("https://example.invalid/{}", path),
    }
}

fn single(path: &str, rules: Option<Vec<Rule>>) -> Library {
    Library::SingleArtifact {
        name: path.to_string(),
        rules,
        downloads: LibraryDownloadsArtifact { artifact: artifact(path) },
    }
}

fn deny_all() -> Option<Vec<Rule>> {
    Some(vec![Rule {
        action: RuleAction::Allow,
        os: Some(OsRule { name: Some("osx".to_string()), arch: None, version: None }),
        features: None,
    }])
}

fn version(libraries: Vec<Library>) -> Version {
    Version {
        id: "1.20".to_string(),
        arguments: None,
        minecraft_arguments: None,
        asset_index: AssetIndexRef {
            id: "5".to_string(),
            sha1: [3u8; 20],
            size: 10,
            total_size: 100,
            url: "https://example.invalid/assetindex.json".to_string(),
        },
        assets: "5".to_string(),
        downloads: Downloads {
            client: Download {
                sha1: [9u8; 20],
                size: 4,
                url: "https://example.invalid/client.jar".to_string(),
            },
            client_mappings: None,
            server: None,
            server_mappings: None,
        },
        libraries,
        logging: None,
        java_version: None,
        main_class: "net.minecraft.client.main.Main".to_string(),
        type_: VersionType::Release,
        time: String::new(),
        release_time: String::new(),
        compliance_level: Some(1),
        minimum_launcher_version: 21,
    }
}

#[test]
fn manifest_is_cached_under_meta_with_a_freshness_window() {
    let req = manifest_request("/data");
    assert_eq!(req.url, "https://piston-meta.mojang.com/mc/game/version_manifest_v2.json");
    assert_eq!(req.path, "/data/meta/minecraft.json");
    assert!(matches!(req.hash, mcl_core::utils::Hash::Unchecked));
    assert!(!req.skip);
    assert_eq!(MANIFEST_FRESHNESS_SECS, 1800);
}

#[test]
fn version_document_is_verified_against_the_manifest_digest() {
    let entry = mcl_core::version_manifest::Version {
        id: "1.20".to_string(),
        type_: mcl_core::version_manifest::VersionType::Release,
        url: "https://example.invalid/1.20.json".to_string(),
        time: String::new(),
        release_time: String::new(),
        sha1: [5u8; 20],
        compliance_level: 1,
    };
    let req = version_meta_request(&entry, "/data");
    assert_eq!(req.url, "https://example.invalid/1.20.json");
    assert_eq!(req.path, "/data/versions/1.20/meta.json");
    assert!(matches!(req.hash, mcl_core::utils::Hash::Sha1(d) if d == [5u8; 20]));
}

#[test]
fn client_jar_lands_in_the_version_directory() {
    let v = version(Vec::new());
    let req = client_jar_request(&v, "/data");
    assert_eq!(req.url, "https://example.invalid/client.jar");
    assert_eq!(req.path, "/data/versions/1.20/client.jar");
    assert!(matches!(req.hash, mcl_core::utils::Hash::Sha1(d) if d == [9u8; 20]));
}

#[test]
fn classpath_is_client_jar_first_then_passing_libraries_in_order() {
    let v = version(vec![
        single("a.jar", None),
        single("denied.jar", deny_all()),
        single("b.jar", None),
    ]);
    let mut state = State::new();
    append_classpath(&mut state, &v, &linux(), "/data");
    assert_eq!(
        state.classpath,
        vec![
            "/data/versions/1.20/client.jar".to_string(),
            "/data/libraries/a.jar".to_string(),
            "/data/libraries/b.jar".to_string(),
        ]
    );
}

#[test]
fn classpath_appends_are_append_only() {
    let v = version(vec![single("a.jar", None)]);
    let mut state = State::new();
    state.classpath.push("already-there.jar".to_string());
    append_classpath(&mut state, &v, &linux(), "/data");
    assert_eq!(state.classpath[0], "already-there.jar");
    assert_eq!(state.classpath.len(), 3);
}

#[test]
fn asset_index_is_cached_under_indexes() {
    let v = version(Vec::new());
    let req = asset_index_request(&v, "/data");
    assert_eq!(req.url, "https://example.invalid/assetindex.json");
    assert_eq!(req.path, "/data/assets/indexes/5.json");
    assert!(matches!(req.hash, mcl_core::utils::Hash::Sha1(d) if d == [3u8; 20]));
}

#[test]
fn asset_objects_are_addressed_by_their_hex_digest() {
    let hash: [u8; 20] = [
        0x00, 0x01, 0x02, 0x03, 0x04, 0x05, 0x06, 0x07, 0x08, 0x09, 0x0a, 0x0b, 0x0c, 0x0d,
        0x0e, 0x0f, 0x10, 0x11, 0x12, 0x13,
    ];
    let index = AssetIndex {
        objects: vec![("minecraft/sounds/ambient.ogg".to_string(), Asset { hash, size: 44 })],
    };
    let reqs = asset_requests(&index, "/data");
    assert_eq!(reqs.len(), 1);
    let digest = "000102030405060708090a0b0c0d0e0f10111213";
    assert_eq!(
        reqs[0].url,
        format!("https://resources.download.minecraft.net/00/{}", digest)
    );
    assert_eq!(reqs[0].path, format!("/data/assets/objects/00/{}", digest));
    assert!(matches!(reqs[0].hash, mcl_core::utils::Hash::Sha1(d) if d == hash));
    assert!(!reqs[0].skip);
}

#[test]
fn version_arguments_are_normalized_and_appended() {
    let mut state = State::new();
    let args = Arguments {
        game: vec![
            RawArgument::Basic("--username".to_string()),
            RawArgument::Basic("${auth_player_name}".to_string()),
        ],
        jvm: vec![RawArgument::Basic("-Xss1M".to_string())],
    };
    append_arguments(&mut state, args, &linux());
    assert_eq!(
        state.game_arguments,
        vec![mcl_core::component::Argument::Pair(
            "--username".to_string(),
            "${auth_player_name}".to_string()
        )]
    );
    assert_eq!(
        state.jvm_arguments,
        vec![mcl_core::component::Argument::Single("-Xss1M".to_string())]
    );
}
