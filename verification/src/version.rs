//! The full per-version document: download descriptors, the library list,
//! the asset index reference, and the raw conditional argument lists.

use vstd::prelude::*;

use crate::rules::Rule;

verus! {

#[derive(Debug, Clone, Copy, PartialEq, Eq, Structural)]
pub enum VersionType {
    Snapshot,
    Release,
    OldBeta,
    OldAlpha,
}

/// Reference to the version's asset index document.
#[derive(Debug)]
pub struct AssetIndex {
    pub id: String,
    pub sha1: [u8; 20],
    pub size: usize,
    pub total_size: usize,
    pub url: String,
}

/// The value(s) of one conditional argument.
#[derive(Debug, PartialEq, Eq)]
pub enum ArgumentValue {
    Single(String),
    Multiple(Vec<String>),
}

/// One raw argument as the document carries it: a bare token, or one or
/// many tokens guarded by a rule list.
#[derive(Debug)]
pub enum Argument {
    Basic(String),
    Conditional { rules: Vec<Rule>, value: ArgumentValue },
}

#[derive(Debug)]
pub struct Arguments {
    pub game: Vec<Argument>,
    pub jvm: Vec<Argument>,
}

/// One downloadable file: its digest, size and location.
#[derive(Debug)]
pub struct Download {
    pub sha1: [u8; 20],
    pub size: usize,
    pub url: String,
}

#[derive(Debug)]
pub struct Downloads {
    pub client: Download,
    pub client_mappings: Option<Download>,
    pub server: Option<Download>,
    pub server_mappings: Option<Download>,
}

#[derive(Debug)]
pub struct JavaVersion {
    pub component: String,
    pub major_version: u8,
}

#[derive(Debug)]
pub struct LibraryDownloadsArtifact {
    pub artifact: Artifact,
}

/// Platform-classified artifacts, keyed by classifier name in document
/// order.
#[derive(Debug)]
pub struct LibraryDownloadsClassifiers {
    pub classifiers: Vec<(String, Artifact)>,
}

/// A library artifact: its store-relative path and where to fetch it from.
#[derive(Debug)]
pub struct Artifact {
    pub path: String,
    pub sha1: [u8; 20],
    pub size: usize,
    pub url: String,
}

/// Archive entry prefixes excluded from native extraction.
#[derive(Debug)]
pub struct LibraryExtract {
    pub exclude: Vec<String>,
}

/// A library is either a single named artifact for the classpath, or a
/// bundle of per-platform native classifiers to extract. The source
/// documents carry no discriminator: the classifier-map shape is tried
/// before the single-artifact shape.
#[derive(Debug)]
pub enum Library {
    ExtractNatives {
        name: String,
        rules: Option<Vec<Rule>>,
        downloads: LibraryDownloadsClassifiers,
        extract: Option<LibraryExtract>,
    },
    SingleArtifact {
        name: String,
        rules: Option<Vec<Rule>>,
        downloads: LibraryDownloadsArtifact,
    },
}

#[derive(Debug)]
pub struct LoggingClientFile {
    pub id: String,
    pub sha1: [u8; 20],
    pub size: usize,
    pub url: String,
}

#[derive(Debug)]
pub struct LoggingClient {
    pub argument: String,
    pub file: LoggingClientFile,
    pub type_: String,
}

#[derive(Debug)]
pub struct Logging {
    pub client: LoggingClient,
}

/// The per-version document, fetched from the manifest entry's url and
/// verified against its digest.
#[derive(Debug)]
pub struct Version {
    pub id: String,
    pub arguments: Option<Arguments>,
    pub minecraft_arguments: Option<String>,
    pub asset_index: AssetIndex,
    pub assets: String,
    pub downloads: Downloads,
    pub libraries: Vec<Library>,
    pub logging: Option<Logging>,
    pub java_version: Option<JavaVersion>,
    pub main_class: String,
    pub type_: VersionType,
    pub time: String,
    pub release_time: String,
    pub compliance_level: Option<u8>,
    pub minimum_launcher_version: u8,
}

} // verus!
