use mcl_core::component::Error;
use mcl_core::library::{natives_classifier, plan_library, should_extract_entry, LibraryPlan};
use mcl_core::rules::{OsRule, Platform, Rule, RuleAction};
use mcl_core::version::{
    Artifact, Library, LibraryDownloadsArtifact, LibraryDownloadsClassifiers, LibraryExtract,
};

fn linux() -> Platform {
    Platform { os_name: "linux".to_string(), os_arch: "x86_64".to_string() }
}

fn artifact(path: &str) -> Artifact {
    Artifact {
        path: path.to_string(),
        sha1: [7u8; 20],
        size: 1,
        url: format!("https://example.invalid/{}", path),
    }
}

fn deny_all() -> Option<Vec<Rule>> {
    Some(vec![Rule {
        action: RuleAction::Allow,
        os: Some(OsRule { name: Some("osx".to_string()), arch: None, version: None }),
        features: None,
    }])
}

fn single(path: &str, rules: Option<Vec<Rule>>) -> Library {
    Library::SingleArtifact {
        name: path.to_string(),
        rules,
        downloads: LibraryDownloadsArtifact { artifact: artifact(path) },
    }
}

#[test]
fn denied_single_artifact_is_fetched_with_skip() {
    let lib = single("org/lwjgl/lwjgl.jar", deny_all());
    match plan_library(&lib, "1.20", &linux(), "/data").unwrap() {
        LibraryPlan::Artifact(req) => {
            assert!(req.skip);
            assert_eq!(req.path, "/data/libraries/org/lwjgl/lwjgl.jar");
            assert_eq!(req.url, "https://example.invalid/org/lwjgl/lwjgl.jar");
        },
        other => panic!("expected an artifact plan, got {:?}", other),
    }
}

#[test]
fn allowed_single_artifact_is_fetched() {
    let lib = single("com/google/guava.jar", None);
    match plan_library(&lib, "1.20", &linux(), "/data").unwrap() {
        LibraryPlan::Artifact(req) => {
            assert!(!req.skip);
            assert_eq!(req.path, "/data/libraries/com/google/guava.jar");
        },
        other => panic!("expected an artifact plan, got {:?}", other),
    }
}

fn natives(rules: Option<Vec<Rule>>, extract: Option<LibraryExtract>) -> Library {
    Library::ExtractNatives {
        name: "org/lwjgl/natives".to_string(),
        rules,
        downloads: LibraryDownloadsClassifiers {
            classifiers: vec![
                ("natives-linux".to_string(), artifact("lwjgl-natives-linux.jar")),
                ("natives-windows".to_string(), artifact("lwjgl-natives-windows.jar")),
            ],
        },
        extract,
    }
}

#[test]
fn denied_natives_bundle_is_omitted_entirely() {
    match plan_library(&natives(deny_all(), None), "1.20", &linux(), "/data").unwrap() {
        LibraryPlan::Omitted => {},
        other => panic!("expected an omitted plan, got {:?}", other),
    }
}

#[test]
fn natives_bundle_selects_the_platform_classifier() {
    match plan_library(&natives(None, None), "1.20", &linux(), "/data").unwrap() {
        LibraryPlan::Natives(job) => {
            assert_eq!(job.request.path, "/data/libraries/lwjgl-natives-linux.jar");
            assert!(!job.request.skip);
            assert_eq!(job.natives_dir, "/data/versions/1.20/natives");
            assert_eq!(job.exclude, None);
        },
        other => panic!("expected a natives plan, got {:?}", other),
    }
}

#[test]
fn unsupported_platform_is_a_hard_error() {
    let plan9 = Platform { os_name: "plan9".to_string(), os_arch: "mips".to_string() };
    assert!(natives_classifier(&plan9).is_none());
    match plan_library(&natives(None, None), "1.20", &plan9, "/data") {
        Err(Error::Unsupported) => {},
        other => panic!("expected an unsupported error, got {:?}", other),
    }
}

#[test]
fn missing_classifier_is_a_hard_error() {
    let lib = Library::ExtractNatives {
        name: "org/lwjgl/natives".to_string(),
        rules: None,
        downloads: LibraryDownloadsClassifiers {
            classifiers: vec![("natives-windows".to_string(), artifact("w.jar"))],
        },
        extract: None,
    };
    match plan_library(&lib, "1.20", &linux(), "/data") {
        Err(Error::Unsupported) => {},
        other => panic!("expected an unsupported error, got {:?}", other),
    }
}

#[test]
fn extraction_skips_meta_inf_by_default() {
    assert!(!should_extract_entry("META-INF/MANIFEST.MF", true, &None));
    assert!(should_extract_entry("liblwjgl.so", true, &None));
}

#[test]
fn extraction_never_materializes_directories() {
    assert!(!should_extract_entry("natives/", false, &None));
}

#[test]
fn explicit_exclude_prefixes_replace_the_default() {
    let exclude = Some(vec!["docs/".to_string(), "legal/".to_string()]);
    assert!(!should_extract_entry("docs/README", true, &exclude));
    assert!(!should_extract_entry("legal/LICENSE", true, &exclude));
    assert!(should_extract_entry("META-INF/MANIFEST.MF", true, &exclude));
    assert!(should_extract_entry("liblwjgl.so", true, &exclude));
}
