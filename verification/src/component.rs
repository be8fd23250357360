//! The component abstraction: the closed set of installable units, the
//! version selector they carry, and the shared install state they mutate.

use vstd::prelude::*;
use vstd::string::StringExecFns;

use crate::authlib_injector::AuthlibInjector;
use crate::minecraft::MinecraftClient;
use crate::utils::RequestError;

verus! {

/// A symbolic version selector.
#[derive(Debug, Clone, Copy, PartialEq, Eq, Structural)]
pub enum Tag {
    Latest,
    Stable,
}

/// What a component asks to install: a symbolic tag or a concrete id.
#[derive(Debug, Clone, PartialEq, Eq)]
pub enum Version {
    Tag(Tag),
    Id(String),
}

/// Everything that can abort a component's install.
#[derive(Debug, Clone, Copy, PartialEq, Eq, Structural)]
pub enum Error {
    /// Obtaining a remote document failed.
    Request(RequestError),
    /// No manifest entry matches the selector; never silently substituted.
    VersionNotFound,
    /// No native classifier is mapped for the running platform.
    Unsupported,
}

/// A launch-ready argument. `Eq` renders as one `key=value` token, `Pair`
/// as two consecutive tokens.
#[derive(Debug, Clone, PartialEq, Eq)]
pub enum Argument {
    Single(String),
    Eq(String, String),
    Pair(String, String),
}

/// The mathematical shape of an [`Argument`].
pub enum ArgModel {
    Single(Seq<char>),
    Eq(Seq<char>, Seq<char>),
    Pair(Seq<char>, Seq<char>),
}

impl View for Argument {
    type V = ArgModel;

    open spec fn view(&self) -> ArgModel {
        match self {
            Argument::Single(v) => ArgModel::Single(v@),
            Argument::Eq(k, v) => ArgModel::Eq(k@, v@),
            Argument::Pair(k, v) => ArgModel::Pair(k@, v@),
        }
    }
}

impl DeepView for Argument {
    type V = ArgModel;

    open spec fn deep_view(&self) -> ArgModel {
        self.view()
    }
}

/// The transient install accumulator: created fresh per install, mutated
/// append-only by each component, consumed to produce the launch command.
#[derive(Debug)]
pub struct State {
    pub main_class: String,
    pub classpath: Vec<String>,
    pub variables: Vec<(String, String)>,
    pub game_arguments: Vec<Argument>,
    pub jvm_arguments: Vec<Argument>,
}

impl State {
    /// A fresh accumulator, defaulted to the known launcher entry point.
    pub fn new() -> (s: State)
        ensures
            s.main_class@ == "net.minecraft.client.main.Main"@,
            s.classpath@ == Seq::<String>::empty(),
            s.variables@ == Seq::<(String, String)>::empty(),
            s.game_arguments@ == Seq::<Argument>::empty(),
            s.jvm_arguments@ == Seq::<Argument>::empty(),
    {
        State {
            main_class: String::from_str("net.minecraft.client.main.Main"),
            classpath: Vec::new(),
            variables: Vec::new(),
            game_arguments: Vec::new(),
            jvm_arguments: Vec::new(),
        }
    }
}

/// The closed set of installable units.
#[derive(Debug, Clone, PartialEq, Eq)]
pub enum ComponentEnum {
    MinecraftClient(MinecraftClient),
    AuthlibInjector(AuthlibInjector),
}

/// Whether two components are of the same kind, whatever versions they
/// select. An instance may hold at most one component per kind.
pub open spec fn same_kind(a: ComponentEnum, b: ComponentEnum) -> bool {
    match (a, b) {
        (ComponentEnum::MinecraftClient(_), ComponentEnum::MinecraftClient(_)) => true,
        (ComponentEnum::AuthlibInjector(_), ComponentEnum::AuthlibInjector(_)) => true,
        _ => false,
    }
}

impl ComponentEnum {
    /// Kind equality, ignoring the selected versions.
    pub fn kind_eq(&self, other: &ComponentEnum) -> (r: bool)
        ensures
            r == same_kind(*self, *other),
    {
        match (self, other) {
            (ComponentEnum::MinecraftClient(_), ComponentEnum::MinecraftClient(_)) => true,
            (ComponentEnum::AuthlibInjector(_), ComponentEnum::AuthlibInjector(_)) => true,
            _ => false,
        }
    }

    /// Conflict detection between co-installed components. Reserved: every
    /// pairing is currently considered compatible, a placeholder contract.
    pub fn is_compatible(&self, component: &ComponentEnum) {
    }
}

} // verus!
