//! The library/native materializer's decisions: whether a library is
//! fetched, which classifier a natives bundle uses on the running platform,
//! where the files land, and which archive entries extraction materializes.

use vstd::prelude::*;
use vstd::string::{StrSliceExecFns, StringExecFns};

use crate::component::Error;
use crate::rules::{check, rules_pass, Platform};
use crate::text::{is_prefix, str_eq, str_starts_with};
use crate::utils::DownloadRequest;
use crate::version::{Artifact, Library};

verus! {

/// The classifier name a platform selects from a natives bundle.
pub open spec fn natives_key(os_name: Seq<char>) -> Option<Seq<char>> {
    if os_name == "linux"@ {
        Some("natives-linux"@)
    } else if os_name == "osx"@ {
        Some("natives-osx"@)
    } else if os_name == "windows"@ {
        Some("natives-windows"@)
    } else {
        None
    }
}

/// The platform's classifier name, or `None` on an unsupported platform.
pub fn natives_classifier(platform: &Platform) -> (r: Option<&'static str>)
    ensures
        match r {
            Some(k) => natives_key(platform.os_name@) == Some(k@),
            None => natives_key(platform.os_name@) is None,
        },
{
    if str_eq(platform.os_name.as_str(), "linux") {
        Some("natives-linux")
    } else if str_eq(platform.os_name.as_str(), "osx") {
        Some("natives-osx")
    } else if str_eq(platform.os_name.as_str(), "windows") {
        Some("natives-windows")
    } else {
        None
    }
}

/// The artifact bound to a classifier name, scanning front to back.
pub open spec fn lookup_classifier(cs: Seq<(String, Artifact)>, key: Seq<char>) -> Option<Artifact>
    decreases cs.len(),
{
    if cs.len() == 0 {
        None
    } else if cs.first().0@ == key {
        Some(cs.first().1)
    } else {
        lookup_classifier(cs.drop_first(), key)
    }
}

proof fn lemma_lookup_classifier_skip(cs: Seq<(String, Artifact)>, key: Seq<char>, i: int)
    requires
        0 <= i <= cs.len(),
        forall|j: int| 0 <= j < i ==> #[trigger] cs[j].0@ != key,
    ensures
        lookup_classifier(cs, key) == lookup_classifier(cs.skip(i), key),
    decreases i,
{
    if i == 0 {
        assert(cs.skip(0) =~= cs);
    } else {
        lemma_lookup_classifier_skip(cs, key, i - 1);
        assert(cs.skip(i - 1).first() == cs[i - 1]);
        assert(cs[i - 1].0@ != key);
        assert(cs.skip(i - 1).drop_first() =~= cs.skip(i));
    }
}

fn find_classifier<'a>(classifiers: &'a Vec<(String, Artifact)>, key: &str) -> (r: Option<
    &'a Artifact,
>)
    ensures
        match r {
            Some(a) => lookup_classifier(classifiers@, key@) == Some(*a),
            None => lookup_classifier(classifiers@, key@) is None,
        },
{
    let mut i: usize = 0;
    while i < classifiers.len()
        invariant
            i <= classifiers.len(),
            forall|j: int| 0 <= j < i ==> #[trigger] classifiers@[j].0@ != key@,
        decreases classifiers.len() - i,
    {
        if str_eq(classifiers[i].0.as_str(), key) {
            proof {
                lemma_lookup_classifier_skip(classifiers@, key@, i as int);
                assert(classifiers@.skip(i as int).first() == classifiers@[i as int]);
            }
            return Some(&classifiers[i].1);
        }
        i = i + 1;
    }
    proof {
        lemma_lookup_classifier_skip(classifiers@, key@, classifiers@.len() as int);
        assert(classifiers@.skip(classifiers@.len() as int) =~= Seq::<(String, Artifact)>::empty());
    }
    None
}

/// A fetch request for a library artifact stored under the shared library
/// store, skipped exactly when the rule list denied the library.
pub open spec fn artifact_request_ok(
    req: DownloadRequest,
    a: Artifact,
    data_root: Seq<char>,
    skip: bool,
) -> bool {
    &&& req.url@ == a.url@
    &&& req.path@ == data_root + "/libraries/"@ + a.path@
    &&& req.hash == crate::utils::Hash::Sha1(a.sha1)
    &&& req.skip == skip
}

/// Fetching and unpacking one natives bundle: the classifier artifact to
/// fetch, the per-version directory to unpack into, and the exclude
/// prefixes.
#[derive(Debug)]
pub struct NativesJob {
    pub request: DownloadRequest,
    pub natives_dir: String,
    pub exclude: Option<Vec<String>>,
}

/// What the materializer decides for one library.
#[derive(Debug)]
pub enum LibraryPlan {
    /// A natives bundle whose rule list denied it: nothing is fetched.
    Omitted,
    /// A single artifact: one fetch; its classpath entry is appended
    /// separately, in manifest order.
    Artifact(DownloadRequest),
    /// A natives bundle: fetch the classifier artifact, then unpack it.
    Natives(NativesJob),
}

/// Whether a plan carries the same exclude prefixes the library stated.
pub open spec fn exclude_matches(
    planned: Option<Vec<String>>,
    stated: Option<crate::version::LibraryExtract>,
) -> bool {
    match (planned, stated) {
        (Some(p), Some(e)) => p.deep_view() == e.exclude.deep_view(),
        (None, None) => true,
        _ => false,
    }
}

fn clone_string_vec(v: &Vec<String>) -> (r: Vec<String>)
    ensures
        r.deep_view() == v.deep_view(),
{
    let mut r: Vec<String> = Vec::new();
    let mut i: usize = 0;
    while i < v.len()
        invariant
            i <= v.len(),
            r.deep_view() =~= v.deep_view().take(i as int),
        decreases v.len() - i,
    {
        let ghost before = r.deep_view();
        r.push(v[i].clone());
        proof {
            assert(r.deep_view() =~= before.push(v@[i as int]@));
            assert(v.deep_view().take(i + 1) =~= v.deep_view().take(i as int).push(
                v.deep_view()[i as int],
            ));
        }
        i = i + 1;
    }
    proof {
        assert(v.deep_view().take(v@.len() as int) =~= v.deep_view());
    }
    r
}

fn store_path(data_root: &str, middle: &str, tail: &str) -> (r: String)
    ensures
        r@ == data_root@ + middle@ + tail@,
{
    let mut p = String::from_str(data_root);
    p.append(middle);
    p.append(tail);
    p
}

/// Decide one library: evaluate its rule list, pick the platform classifier
/// for a natives bundle, and lay out the fetch under the shared stores. A
/// platform with no classifier mapping, or a bundle missing its classifier,
/// is a hard `Unsupported` error, never a silent skip.
pub fn plan_library(
    library: &Library,
    version_id: &str,
    platform: &Platform,
    data_root: &str,
) -> (r: Result<LibraryPlan, Error>)
    ensures
        library matches Library::SingleArtifact { rules, downloads, .. } ==> (r matches Ok(
            LibraryPlan::Artifact(req),
        ) && artifact_request_ok(
            req,
            downloads.artifact,
            data_root@,
            !rules_pass(*rules, platform.os_name@, platform.os_arch@),
        )),
        library matches Library::ExtractNatives { rules, downloads, extract, .. } ==> (if !rules_pass(
            *rules,
            platform.os_name@,
            platform.os_arch@,
        ) {
            r matches Ok(LibraryPlan::Omitted)
        } else {
            match natives_key(platform.os_name@) {
                Some(k) => match lookup_classifier(downloads.classifiers@, k) {
                    Some(a) => r matches Ok(LibraryPlan::Natives(job)) && {
                        &&& artifact_request_ok(job.request, a, data_root@, false)
                        &&& job.natives_dir@ == data_root@ + "/versions/"@ + version_id@
                            + "/natives"@
                        &&& exclude_matches(job.exclude, *extract)
                    },
                    None => r == Err::<LibraryPlan, Error>(Error::Unsupported),
                },
                None => r == Err::<LibraryPlan, Error>(Error::Unsupported),
            }
        }),
{
    match library {
        Library::SingleArtifact { rules, downloads, .. } => {
            let skip = match rules {
                Some(rs) => !check(rs, platform),
                None => false,
            };
            let req = DownloadRequest {
                url: downloads.artifact.url.clone(),
                path: store_path(data_root, "/libraries/", downloads.artifact.path.as_str()),
                hash: crate::utils::Hash::Sha1(downloads.artifact.sha1),
                skip,
            };
            Ok(LibraryPlan::Artifact(req))
        },
        Library::ExtractNatives { rules, downloads, extract, .. } => {
            let passes = match rules {
                Some(rs) => check(rs, platform),
                None => true,
            };
            if !passes {
                return Ok(LibraryPlan::Omitted);
            }
            let key = match natives_classifier(platform) {
                Some(k) => k,
                None => {
                    return Err(Error::Unsupported);
                },
            };
            let artifact = match find_classifier(&downloads.classifiers, key) {
                Some(a) => a,
                None => {
                    return Err(Error::Unsupported);
                },
            };
            let request = DownloadRequest {
                url: artifact.url.clone(),
                path: store_path(data_root, "/libraries/", artifact.path.as_str()),
                hash: crate::utils::Hash::Sha1(artifact.sha1),
                skip: false,
            };
            let mut natives_dir = String::from_str(data_root);
            natives_dir.append("/versions/");
            natives_dir.append(version_id);
            natives_dir.append("/natives");
            let exclude = match extract {
                Some(e) => Some(clone_string_vec(&e.exclude)),
                None => None,
            };
            Ok(LibraryPlan::Natives(NativesJob { request, natives_dir, exclude }))
        },
    }
}

/// Whether any of the prefixes is a prefix of `name`.
pub open spec fn any_prefix(list: Seq<Seq<char>>, name: Seq<char>) -> bool
    decreases list.len(),
{
    if list.len() == 0 {
        false
    } else {
        is_prefix(list.first(), name) || any_prefix(list.drop_first(), name)
    }
}

proof fn lemma_any_prefix_skip(list: Seq<Seq<char>>, name: Seq<char>, i: int)
    requires
        0 <= i <= list.len(),
        forall|j: int| 0 <= j < i ==> !is_prefix(#[trigger] list[j], name),
    ensures
        any_prefix(list, name) == any_prefix(list.skip(i), name),
    decreases i,
{
    if i == 0 {
        assert(list.skip(0) =~= list);
    } else {
        lemma_any_prefix_skip(list, name, i - 1);
        assert(list.skip(i - 1).first() == list[i - 1]);
        assert(list.skip(i - 1).drop_first() =~= list.skip(i));
    }
}

/// Whether an archive entry name falls under the exclusions: the stated
/// prefixes when given, else everything under `META-INF/`.
pub open spec fn entry_excluded(name: Seq<char>, exclude: Option<Vec<String>>) -> bool {
    match exclude {
        Some(list) => any_prefix(list.deep_view(), name),
        None => is_prefix("META-INF/"@, name),
    }
}

/// Whether native extraction materializes one archive entry: files only,
/// and never one whose name falls under the exclusions. Directory entries
/// are never materialized as empty directories.
pub fn should_extract_entry(name: &str, is_file: bool, exclude: &Option<Vec<String>>) -> (r: bool)
    ensures
        r == (is_file && !entry_excluded(name@, *exclude)),
{
    if !is_file {
        return false;
    }
    match exclude {
        Some(list) => {
            let mut i: usize = 0;
            while i < list.len()
                invariant
                    i <= list.len(),
                    *exclude == Some(*list),
                    forall|j: int| 0 <= j < i ==> !is_prefix(#[trigger] list.deep_view()[j], name@),
                decreases list.len() - i,
            {
                proof {
                    assert(list.deep_view()[i as int] == list@[i as int]@);
                }
                if str_starts_with(name, list[i].as_str()) {
                    proof {
                        lemma_any_prefix_skip(list.deep_view(), name@, i as int);
                        assert(list.deep_view().skip(i as int).first() == list.deep_view()[i as int]);
                        assert(any_prefix(list.deep_view(), name@));
                    }
                    return false;
                }
                i = i + 1;
            }
            proof {
                lemma_any_prefix_skip(list.deep_view(), name@, list.deep_view().len() as int);
                assert(list.deep_view().skip(list.deep_view().len() as int) =~= Seq::<
                    Seq<char>,
                >::empty());
            }
            true
        },
        None => !str_starts_with(name, "META-INF/"),
    }
}

} // verus!
