//! The game-client component: resolves the remote manifest and version
//! document, and contributes the client jar, libraries, assets and arguments
//! to the install state. The caller drives the fetches; every decision --
//! what to fetch, where to put it, what joins the classpath and in which
//! order -- is made here.

use vstd::prelude::*;
use vstd::string::{StrSliceExecFns, StringExecFns};

use crate::arguments::{convert, normalized};
use crate::asset_index::{Asset, AssetIndex};
use crate::component::{State, Version};
use crate::rules::{check, rules_pass, Platform};
use crate::utils::{hex_encode, hex_of, lemma_hex_of_len, DownloadRequest};
use crate::version::Library;

verus! {

/// The well-known manifest endpoint.
pub const MANIFEST_URL: &'static str =
    "https://piston-meta.mojang.com/mc/game/version_manifest_v2.json";

/// How long a cached manifest stays trusted without a content check.
pub const MANIFEST_FRESHNESS_SECS: u64 = 30 * 60;

/// The asset object endpoint; objects are addressed below it by a two-digit
/// shard prefix and their full hex digest.
pub const ASSET_HOST: &'static str = "https://resources.download.minecraft.net/";

#[derive(Debug, Clone, PartialEq, Eq)]
pub struct MinecraftClient {
    pub version: Version,
}

impl From<Version> for MinecraftClient {
    fn from(version: Version) -> (r: Self) {
        MinecraftClient { version }
    }
}

impl vstd::std_specs::convert::FromSpecImpl<Version> for MinecraftClient {
    open spec fn obeys_from_spec() -> bool {
        true
    }

    open spec fn from_spec(version: Version) -> Self {
        MinecraftClient { version }
    }
}

impl MinecraftClient {
    /// Conflict detection placeholder, as on every component kind.
    pub fn is_compatible(&self, component: &crate::component::ComponentEnum) {
    }
}

/// Where the manifest is cached locally.
pub fn manifest_request(data_root: &str) -> (r: DownloadRequest)
    ensures
        r.url@ == MANIFEST_URL@,
        r.path@ == data_root@ + "/meta/minecraft.json"@,
        r.hash is Unchecked,
        !r.skip,
{
    let mut path = String::from_str(data_root);
    path.append("/meta/minecraft.json");
    DownloadRequest {
        url: String::from_str(MANIFEST_URL),
        path,
        hash: crate::utils::Hash::Unchecked,
        skip: false,
    }
}

/// The fetch of a resolved manifest entry's full version document, verified
/// against the entry's digest and cached under the version's directory.
pub fn version_meta_request(entry: &crate::version_manifest::Version, data_root: &str) -> (r:
    DownloadRequest)
    ensures
        r.url@ == entry.url@,
        r.path@ == data_root@ + "/versions/"@ + entry.id@ + "/meta.json"@,
        r.hash == crate::utils::Hash::Sha1(entry.sha1),
        !r.skip,
{
    let mut path = String::from_str(data_root);
    path.append("/versions/");
    path.append(entry.id.as_str());
    path.append("/meta.json");
    DownloadRequest {
        url: entry.url.clone(),
        path,
        hash: crate::utils::Hash::Sha1(entry.sha1),
        skip: false,
    }
}

/// The local path of a version's client jar.
pub open spec fn client_jar_path(version_id: Seq<char>, data_root: Seq<char>) -> Seq<char> {
    data_root + "/versions/"@ + version_id + "/client.jar"@
}

/// The fetch of the client jar itself, verified against its digest.
pub fn client_jar_request(version: &crate::version::Version, data_root: &str) -> (r:
    DownloadRequest)
    ensures
        r.url@ == version.downloads.client.url@,
        r.path@ == client_jar_path(version.id@, data_root@),
        r.hash == crate::utils::Hash::Sha1(version.downloads.client.sha1),
        !r.skip,
{
    let mut path = String::from_str(data_root);
    path.append("/versions/");
    path.append(version.id.as_str());
    path.append("/client.jar");
    DownloadRequest {
        url: version.downloads.client.url.clone(),
        path,
        hash: crate::utils::Hash::Sha1(version.downloads.client.sha1),
        skip: false,
    }
}

/// The classpath entry one library contributes: a single artifact whose rule
/// list passes (or is absent) contributes its store path; a natives bundle
/// contributes nothing.
pub open spec fn lib_classpath_entry(
    lib: Library,
    os_name: Seq<char>,
    os_arch: Seq<char>,
    data_root: Seq<char>,
) -> Seq<Seq<char>> {
    match lib {
        Library::SingleArtifact { rules, downloads, .. } => {
            if rules_pass(rules, os_name, os_arch) {
                seq![data_root + "/libraries/"@ + downloads.artifact.path@]
            } else {
                Seq::empty()
            }
        },
        Library::ExtractNatives { .. } => Seq::empty(),
    }
}

/// The classpath entries of the libraries from position `i` on, in manifest
/// order.
pub open spec fn lib_classpath_entries(
    libs: Seq<Library>,
    os_name: Seq<char>,
    os_arch: Seq<char>,
    data_root: Seq<char>,
    i: int,
) -> Seq<Seq<char>>
    decreases libs.len() - i,
{
    if i >= libs.len() || i < 0 {
        Seq::empty()
    } else {
        lib_classpath_entry(libs[i], os_name, os_arch, data_root) + lib_classpath_entries(
            libs,
            os_name,
            os_arch,
            data_root,
            i + 1,
        )
    }
}

/// Append this version's classpath: the client jar first, then the rule
/// passing single-artifact libraries in manifest order. Nothing else of the
/// state changes; the order is deterministic for a fixed library list and
/// platform.
pub fn append_classpath(
    state: &mut State,
    version: &crate::version::Version,
    platform: &Platform,
    data_root: &str,
)
    ensures
        final(state).classpath.deep_view() == old(state).classpath.deep_view() + seq![
            client_jar_path(version.id@, data_root@),
        ] + lib_classpath_entries(
            version.libraries@,
            platform.os_name@,
            platform.os_arch@,
            data_root@,
            0,
        ),
        final(state).main_class == old(state).main_class,
        final(state).variables == old(state).variables,
        final(state).game_arguments == old(state).game_arguments,
        final(state).jvm_arguments == old(state).jvm_arguments,
{
    let ghost os_name = platform.os_name@;
    let ghost os_arch = platform.os_arch@;
    let ghost root = data_root@;
    let ghost libs = version.libraries@;
    let ghost base = state.classpath.deep_view();

    let mut jar = String::from_str(data_root);
    jar.append("/versions/");
    jar.append(version.id.as_str());
    jar.append("/client.jar");
    let ghost jar_view = jar@;
    state.classpath.push(jar);
    proof {
        assert(state.classpath.deep_view() =~= base.push(jar_view));
    }
    let ghost with_jar = state.classpath.deep_view();

    let mut i: usize = 0;
    while i < version.libraries.len()
        invariant
            i <= version.libraries.len(),
            libs == version.libraries@,
            os_name == platform.os_name@,
            os_arch == platform.os_arch@,
            root == data_root@,
            with_jar + lib_classpath_entries(libs, os_name, os_arch, root, 0)
                == state.classpath.deep_view() + lib_classpath_entries(
                libs,
                os_name,
                os_arch,
                root,
                i as int,
            ),
            state.main_class == old(state).main_class,
            state.variables == old(state).variables,
            state.game_arguments == old(state).game_arguments,
            state.jvm_arguments == old(state).jvm_arguments,
        decreases version.libraries@.len() - i,
    {
        let ghost cp_before = state.classpath.deep_view();
        match &version.libraries[i] {
            Library::SingleArtifact { rules, downloads, .. } => {
                let passes = match rules {
                    Some(rs) => check(rs, platform),
                    None => true,
                };
                if passes {
                    let mut p = String::from_str(data_root);
                    p.append("/libraries/");
                    p.append(downloads.artifact.path.as_str());
                    let ghost pv = p@;
                    state.classpath.push(p);
                    proof {
                        assert(state.classpath.deep_view() =~= cp_before.push(pv));
                        assert(lib_classpath_entry(libs[i as int], os_name, os_arch, root) =~= seq![
                            pv,
                        ]);
                        assert(cp_before + lib_classpath_entries(libs, os_name, os_arch, root, i as int)
                            =~= state.classpath.deep_view() + lib_classpath_entries(
                            libs,
                            os_name,
                            os_arch,
                            root,
                            i + 1,
                        ));
                    }
                } else {
                    proof {
                        assert(lib_classpath_entry(libs[i as int], os_name, os_arch, root) =~= Seq::<
                            Seq<char>,
                        >::empty());
                        assert(lib_classpath_entries(libs, os_name, os_arch, root, i as int)
                            =~= lib_classpath_entries(libs, os_name, os_arch, root, i + 1));
                    }
                }
            },
            Library::ExtractNatives { .. } => {
                proof {
                    assert(lib_classpath_entry(libs[i as int], os_name, os_arch, root) =~= Seq::<
                        Seq<char>,
                    >::empty());
                    assert(lib_classpath_entries(libs, os_name, os_arch, root, i as int)
                        =~= lib_classpath_entries(libs, os_name, os_arch, root, i + 1));
                }
            },
        }
        i = i + 1;
    }
    proof {
        assert(lib_classpath_entries(libs, os_name, os_arch, root, libs.len() as int) =~= Seq::<
            Seq<char>,
        >::empty());
        assert(with_jar + lib_classpath_entries(libs, os_name, os_arch, root, 0)
            =~= state.classpath.deep_view());
        assert(with_jar =~= base.push(client_jar_path(version.id@, root)));
        assert(base.push(client_jar_path(version.id@, root)) =~= base + seq![
            client_jar_path(version.id@, root),
        ]);
    }
}

/// The fetch of the version's asset index document, verified against its
/// digest and cached under the index store.
pub fn asset_index_request(version: &crate::version::Version, data_root: &str) -> (r:
    DownloadRequest)
    ensures
        r.url@ == version.asset_index.url@,
        r.path@ == data_root@ + "/assets/indexes/"@ + version.asset_index.id@ + ".json"@,
        r.hash == crate::utils::Hash::Sha1(version.asset_index.sha1),
        !r.skip,
{
    let mut path = String::from_str(data_root);
    path.append("/assets/indexes/");
    path.append(version.asset_index.id.as_str());
    path.append(".json");
    DownloadRequest {
        url: version.asset_index.url.clone(),
        path,
        hash: crate::utils::Hash::Sha1(version.asset_index.sha1),
        skip: false,
    }
}

/// The content address of one asset object: its two-digit shard prefix, a
/// slash, and its full lowercase hex digest.
pub open spec fn asset_address(a: Asset) -> Seq<char> {
    hex_of(a.hash@).take(2) + "/"@ + hex_of(a.hash@)
}

/// A well-laid-out fetch of one asset object.
pub open spec fn asset_request_ok(req: DownloadRequest, a: Asset, data_root: Seq<char>) -> bool {
    &&& req.url@ == ASSET_HOST@ + asset_address(a)
    &&& req.path@ == data_root + "/assets/objects/"@ + asset_address(a)
    &&& req.hash == crate::utils::Hash::Sha1(a.hash)
    &&& !req.skip
}

/// One fetch per asset object, in index order, each addressed by its digest
/// both remotely and in the local store.
pub fn asset_requests(index: &AssetIndex, data_root: &str) -> (r: Vec<DownloadRequest>)
    ensures
        r@.len() == index.objects@.len(),
        forall|i: int|
            0 <= i < r@.len() ==> asset_request_ok(
                #[trigger] r@[i],
                index.objects@[i].1,
                data_root@,
            ),
{
    let mut r: Vec<DownloadRequest> = Vec::new();
    let mut i: usize = 0;
    while i < index.objects.len()
        invariant
            i <= index.objects.len(),
            r@.len() == i,
            forall|j: int|
                0 <= j < i ==> asset_request_ok(#[trigger] r@[j], index.objects@[j].1, data_root@),
        decreases index.objects@.len() - i,
    {
        let asset = index.objects[i].1;
        let hash_str = hex_encode(&asset.hash);
        proof {
            lemma_hex_of_len(asset.hash@);
        }
        let prefix = hash_str.as_str().substring_char(0, 2);
        let mut url = String::from_str(ASSET_HOST);
        url.append(prefix);
        url.append("/");
        url.append(hash_str.as_str());
        let mut path = String::from_str(data_root);
        path.append("/assets/objects/");
        path.append(prefix);
        path.append("/");
        path.append(hash_str.as_str());
        let req = DownloadRequest {
            url,
            path,
            hash: crate::utils::Hash::Sha1(asset.hash),
            skip: false,
        };
        proof {
            assert(hex_of(asset.hash@).subrange(0, 2) =~= hex_of(asset.hash@).take(2));
            assert(req.url@ =~= ASSET_HOST@ + asset_address(asset));
            assert(req.path@ =~= data_root@ + "/assets/objects/"@ + asset_address(asset));
            assert(asset == index.objects@[i as int].1);
            assert(asset_request_ok(req, index.objects@[i as int].1, data_root@));
        }
        r.push(req);
        i = i + 1;
    }
    r
}

/// Append the version document's jvm and game arguments, normalized, in
/// document order; everything else of the state is untouched.
pub fn append_arguments(state: &mut State, arguments: crate::version::Arguments, platform: &Platform)
    ensures
        final(state).jvm_arguments.deep_view() == old(state).jvm_arguments.deep_view()
            + normalized(arguments.jvm@, platform.os_name@, platform.os_arch@),
        final(state).game_arguments.deep_view() == old(state).game_arguments.deep_view()
            + normalized(arguments.game@, platform.os_name@, platform.os_arch@),
        final(state).main_class == old(state).main_class,
        final(state).classpath == old(state).classpath,
        final(state).variables == old(state).variables,
{
    let ghost jvm_raw = arguments.jvm@;
    let ghost game_raw = arguments.game@;
    let ghost jvm_before = state.jvm_arguments.deep_view();
    let ghost game_before = state.game_arguments.deep_view();
    let crate::version::Arguments { game, jvm } = arguments;
    let mut jvm_new = convert(jvm, platform);
    state.jvm_arguments.append(&mut jvm_new);
    proof {
        assert(state.jvm_arguments.deep_view() =~= jvm_before + normalized(
            jvm_raw,
            platform.os_name@,
            platform.os_arch@,
        ));
    }
    let mut game_new = convert(game, platform);
    state.game_arguments.append(&mut game_new);
    proof {
        assert(state.game_arguments.deep_view() =~= game_before + normalized(
            game_raw,
            platform.os_name@,
            platform.os_arch@,
        ));
    }
}

} // verus!
