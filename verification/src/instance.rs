//! The instance lifecycle: a named, persisted set of components, each kind
//! at most once, and the rendering of the accumulated install state into the
//! final launch command line.

use vstd::prelude::*;
use vstd::string::{StrSliceExecFns, StringExecFns};

use crate::arguments::shaped;
use crate::component::{same_kind, ArgModel, Argument, ComponentEnum, State, Version};
use crate::minecraft::MinecraftClient;
use crate::text::{join, joined, lemma_find_char_first, push_char};
use crate::utils::{lemma_subst_without_sigil, replace_placeholders, set_var, subst};

verus! {

/// Everything that can abort an instance operation.
#[derive(Debug, Clone, Copy, PartialEq, Eq, Structural)]
pub enum Error {
    /// `new` against an id that already has a directory.
    InstanceAlreadyExists,
    /// `add_component` with a kind the instance already holds.
    ComponentAlreadyAdded,
    /// A component's install aborted.
    Component(crate::component::Error),
}

/// The mathematical shape of an [`Instance`].
pub struct InstanceModel {
    pub id: Seq<char>,
    pub components: Seq<ComponentEnum>,
}

/// A named, persisted installable configuration: an id (filesystem-safe by
/// construction of the caller) and an ordered component list holding at most
/// one component per kind.
#[derive(Debug, PartialEq, Eq)]
pub struct Instance {
    id: String,
    components: Vec<ComponentEnum>,
}

impl View for Instance {
    type V = InstanceModel;

    closed spec fn view(&self) -> InstanceModel {
        InstanceModel { id: self.id@, components: self.components@ }
    }
}

/// Whether some component of the list is of the same kind as `component`.
pub open spec fn has_kind(components: Seq<ComponentEnum>, component: ComponentEnum) -> bool
    decreases components.len(),
{
    if components.len() == 0 {
        false
    } else {
        same_kind(components.first(), component) || has_kind(components.drop_first(), component)
    }
}

proof fn lemma_has_kind_skip(components: Seq<ComponentEnum>, component: ComponentEnum, i: int)
    requires
        0 <= i <= components.len(),
        forall|j: int| 0 <= j < i ==> !same_kind(#[trigger] components[j], component),
    ensures
        has_kind(components, component) == has_kind(components.skip(i), component),
    decreases i,
{
    if i == 0 {
        assert(components.skip(0) =~= components);
    } else {
        lemma_has_kind_skip(components, component, i - 1);
        assert(components.skip(i - 1).first() == components[i - 1]);
        assert(components.skip(i - 1).drop_first() =~= components.skip(i));
    }
}

impl Instance {
    pub fn get_id(&self) -> (r: &String)
        ensures
            r@ == self@.id,
    {
        &self.id
    }

    pub fn get_components(&self) -> (r: &Vec<ComponentEnum>)
        ensures
            r@ == self@.components,
    {
        &self.components
    }

    /// The instance's backing directory under the data root.
    pub fn get_path(&self, data_root: &str) -> (r: String)
        ensures
            r@ == data_root@ + "/instances/"@ + self@.id,
    {
        let mut p = String::from_str(data_root);
        p.append("/instances/");
        p.append(self.id.as_str());
        p
    }

    /// Add a component; a second component of a kind the instance already
    /// holds is rejected, whatever version it selects, and the list is left
    /// unchanged.
    pub fn add_component(&mut self, component: ComponentEnum) -> (r: Result<(), Error>)
        ensures
            has_kind(old(self)@.components, component) ==> (r == Err::<(), Error>(
                Error::ComponentAlreadyAdded,
            ) && *final(self) == *old(self)),
            !has_kind(old(self)@.components, component) ==> (r is Ok && final(self)@.id == old(
                self,
            )@.id && final(self)@.components == old(self)@.components.push(component)),
    {
        let ghost all = self.components@;
        let mut i: usize = 0;
        while i < self.components.len()
            invariant
                i <= self.components.len(),
                all == self.components@,
                forall|j: int| 0 <= j < i ==> !same_kind(#[trigger] all[j], component),
            decreases self.components@.len() - i,
        {
            if self.components[i].kind_eq(&component) {
                proof {
                    lemma_has_kind_skip(all, component, i as int);
                    assert(all.skip(i as int).first() == all[i as int]);
                }
                return Err(Error::ComponentAlreadyAdded);
            }
            i = i + 1;
        }
        proof {
            lemma_has_kind_skip(all, component, all.len() as int);
            assert(all.skip(all.len() as int) =~= Seq::<ComponentEnum>::empty());
        }
        self.components.push(component);
        Ok(())
    }

    /// Create an instance around one game-client component. An id whose
    /// directory already exists is rejected before any mutation; the caller
    /// states whether it does.
    pub fn new(id: String, minecraft_version: Version, already_exists: bool) -> (r: Result<
        Instance,
        Error,
    >)
        ensures
            already_exists ==> r == Err::<Instance, Error>(Error::InstanceAlreadyExists),
            !already_exists ==> (r matches Ok(inst) && inst@.id == id@ && inst@.components == seq![
                ComponentEnum::MinecraftClient(MinecraftClient { version: minecraft_version }),
            ]),
    {
        if already_exists {
            return Err(Error::InstanceAlreadyExists);
        }
        let component: MinecraftClient = MinecraftClient::from(minecraft_version);
        let mut components: Vec<ComponentEnum> = Vec::new();
        components.push(ComponentEnum::MinecraftClient(component));
        let instance = Instance { id, components };
        Ok(instance)
    }

    /// Rebuild an instance from its persisted parts, as they were saved.
    pub fn from_parts(id: String, components: Vec<ComponentEnum>) -> (r: Instance)
        ensures
            r@.id == id@,
            r@.components == components@,
    {
        Instance { id, components }
    }

    /// Take the new id; the caller has moved the backing directory first.
    pub fn rename(&mut self, new_id: String)
        ensures
            final(self)@.id == new_id@,
            final(self)@.components == old(self)@.components,
    {
        self.id = new_id;
    }
}

/// The tokens one launch-ready argument renders to: its value substituted,
/// the whole argument dropped when a placeholder is unbound; `Eq` as one
/// `key=value` token, `Pair` as two.
pub open spec fn rendered_tokens(a: ArgModel, vars: Seq<(Seq<char>, Seq<char>)>) -> Seq<Seq<char>> {
    match a {
        ArgModel::Single(v) => match subst(v, vars) {
            Some(s) => seq![s],
            None => Seq::empty(),
        },
        ArgModel::Eq(k, v) => match subst(v, vars) {
            Some(s) => seq![k + seq!['='] + s],
            None => Seq::empty(),
        },
        ArgModel::Pair(k, v) => match subst(v, vars) {
            Some(s) => seq![k, s],
            None => Seq::empty(),
        },
    }
}

/// The rendering of the arguments from position `i` on, in order.
pub open spec fn rendered_from(
    args: Seq<ArgModel>,
    vars: Seq<(Seq<char>, Seq<char>)>,
    i: int,
) -> Seq<Seq<char>>
    decreases args.len() - i,
{
    if i >= args.len() || i < 0 {
        Seq::empty()
    } else {
        rendered_tokens(args[i], vars) + rendered_from(args, vars, i + 1)
    }
}

proof fn lemma_rendered_from_shift(
    a: Seq<ArgModel>,
    b: Seq<ArgModel>,
    vars: Seq<(Seq<char>, Seq<char>)>,
    j: int,
)
    requires
        0 <= j <= b.len(),
    ensures
        rendered_from(a + b, vars, a.len() + j) == rendered_from(b, vars, j),
    decreases b.len() - j,
{
    if j < b.len() {
        lemma_rendered_from_shift(a, b, vars, j + 1);
        assert((a + b)[a.len() + j] == b[j]);
    }
}

proof fn lemma_rendered_from_concat(
    a: Seq<ArgModel>,
    b: Seq<ArgModel>,
    vars: Seq<(Seq<char>, Seq<char>)>,
    i: int,
)
    requires
        0 <= i <= a.len(),
    ensures
        rendered_from(a + b, vars, i) == rendered_from(a, vars, i) + rendered_from(b, vars, 0),
    decreases a.len() - i,
{
    if i == a.len() {
        lemma_rendered_from_shift(a, b, vars, 0);
        assert(Seq::<Seq<char>>::empty() + rendered_from(b, vars, 0) =~= rendered_from(
            b,
            vars,
            0,
        ));
    } else {
        lemma_rendered_from_concat(a, b, vars, i + 1);
        assert((a + b)[i] == a[i]);
        assert(rendered_tokens(a[i], vars) + (rendered_from(a, vars, i + 1) + rendered_from(
            b,
            vars,
            0,
        )) =~= (rendered_tokens(a[i], vars) + rendered_from(a, vars, i + 1)) + rendered_from(
            b,
            vars,
            0,
        ));
    }
}

/// The variables the launch substitutes from: the accumulated ones, with
/// `classpath` bound to the colon-joined classpath in front.
pub open spec fn launch_vars(state: State) -> Seq<(Seq<char>, Seq<char>)> {
    state.variables.deep_view().insert(0, ("classpath"@, joined(state.classpath.deep_view(), ':')))
}

fn render_into(out: &mut Vec<String>, arguments: &Vec<Argument>, variables: &Vec<(String, String)>)
    ensures
        final(out).deep_view() == old(out).deep_view() + rendered_from(
            arguments.deep_view(),
            variables.deep_view(),
            0,
        ),
{
    let ghost args_model = arguments.deep_view();
    let ghost vars_model = variables.deep_view();
    let ghost base = out.deep_view();
    let mut i: usize = 0;
    while i < arguments.len()
        invariant
            i <= arguments.len(),
            args_model == arguments.deep_view(),
            vars_model == variables.deep_view(),
            args_model.len() == arguments@.len(),
            base + rendered_from(args_model, vars_model, 0) == out.deep_view() + rendered_from(
                args_model,
                vars_model,
                i as int,
            ),
        decreases arguments@.len() - i,
    {
        let ghost out_before = out.deep_view();
        proof {
            assert(args_model[i as int] == arguments@[i as int]@);
        }
        match &arguments[i] {
            Argument::Single(value) => {
                match replace_placeholders(value.as_str(), variables) {
                    Some(v) => {
                        let ghost vv = v@;
                        out.push(v);
                        proof {
                            assert(out.deep_view() =~= out_before.push(vv));
                            assert(rendered_tokens(args_model[i as int], vars_model) =~= seq![vv]);
                            assert(out_before + rendered_from(args_model, vars_model, i as int)
                                =~= out.deep_view() + rendered_from(
                                args_model,
                                vars_model,
                                i + 1,
                            ));
                        }
                    },
                    None => {
                        proof {
                            assert(rendered_tokens(args_model[i as int], vars_model) =~= Seq::<
                                Seq<char>,
                            >::empty());
                            assert(rendered_from(args_model, vars_model, i as int)
                                =~= rendered_from(args_model, vars_model, i + 1));
                        }
                    },
                }
            },
            Argument::Eq(key, value) => {
                match replace_placeholders(value.as_str(), variables) {
                    Some(v) => {
                        let mut token = key.clone();
                        push_char(&mut token, '=');
                        token.append(v.as_str());
                        let ghost tv = token@;
                        out.push(token);
                        proof {
                            assert(tv =~= key@ + seq!['='] + v@);
                            assert(out.deep_view() =~= out_before.push(tv));
                            assert(rendered_tokens(args_model[i as int], vars_model) =~= seq![tv]);
                            assert(out_before + rendered_from(args_model, vars_model, i as int)
                                =~= out.deep_view() + rendered_from(
                                args_model,
                                vars_model,
                                i + 1,
                            ));
                        }
                    },
                    None => {
                        proof {
                            assert(rendered_tokens(args_model[i as int], vars_model) =~= Seq::<
                                Seq<char>,
                            >::empty());
                            assert(rendered_from(args_model, vars_model, i as int)
                                =~= rendered_from(args_model, vars_model, i + 1));
                        }
                    },
                }
            },
            Argument::Pair(key, value) => {
                match replace_placeholders(value.as_str(), variables) {
                    Some(v) => {
                        let ghost kv = key@;
                        let ghost vv = v@;
                        out.push(key.clone());
                        out.push(v);
                        proof {
                            assert(out.deep_view() =~= out_before.push(kv).push(vv));
                            assert(rendered_tokens(args_model[i as int], vars_model) =~= seq![
                                kv,
                                vv,
                            ]);
                            assert(out_before + rendered_from(args_model, vars_model, i as int)
                                =~= out.deep_view() + rendered_from(
                                args_model,
                                vars_model,
                                i + 1,
                            ));
                        }
                    },
                    None => {
                        proof {
                            assert(rendered_tokens(args_model[i as int], vars_model) =~= Seq::<
                                Seq<char>,
                            >::empty());
                            assert(rendered_from(args_model, vars_model, i as int)
                                =~= rendered_from(args_model, vars_model, i + 1));
                        }
                    },
                }
            },
        }
        i = i + 1;
    }
    proof {
        assert(rendered_from(args_model, vars_model, arguments@.len() as int) =~= Seq::<
            Seq<char>,
        >::empty());
        assert(out.deep_view() =~= out.deep_view() + rendered_from(
            args_model,
            vars_model,
            arguments@.len() as int,
        ));
    }
}

/// Consume the accumulated install state and produce the launch command's
/// tokens: bind `classpath`, then render the jvm arguments followed by the
/// game arguments, dropping every argument with an unbound placeholder.
pub fn launch_arguments(state: State) -> (args: Vec<String>)
    ensures
        args.deep_view() == rendered_from(
            state.jvm_arguments.deep_view() + state.game_arguments.deep_view(),
            launch_vars(state),
            0,
        ),
{
    let ghost vars_model = launch_vars(state);
    let ghost jvm_model = state.jvm_arguments.deep_view();
    let ghost game_model = state.game_arguments.deep_view();
    let mut state = state;
    let classpath = join(&state.classpath, ':');
    set_var(&mut state.variables, String::from_str("classpath"), classpath);
    proof {
        assert(state.variables.deep_view() == vars_model);
    }
    let mut args: Vec<String> = Vec::new();
    render_into(&mut args, &state.jvm_arguments, &state.variables);
    render_into(&mut args, &state.game_arguments, &state.variables);
    proof {
        lemma_rendered_from_concat(jvm_model, game_model, vars_model, 0);
        assert(args.deep_view() =~= (Seq::<Seq<char>>::empty() + rendered_from(
            jvm_model,
            vars_model,
            0,
        )) + rendered_from(game_model, vars_model, 0));
    }
    args
}

/// Round trip of an `Eq` argument: a token `key=value` whose key carries no
/// `=` and does not open with the placeholder sigil normalizes to
/// `Eq(key, value)`, and rendering it with a value free of the sigil
/// reproduces the literal `key=value`.
pub proof fn lemma_eq_argument_round_trip(
    k: Seq<char>,
    v: Seq<char>,
    vars: Seq<(Seq<char>, Seq<char>)>,
)
    requires
        k.len() > 0 ==> k[0] != '$',
        forall|i: int| 0 <= i < k.len() ==> k[i] != '=',
        forall|i: int| 0 <= i < v.len() ==> v[i] != '$',
    ensures
        shaped(seq![k + seq!['='] + v]) == seq![ArgModel::Eq(k, v)],
        rendered_tokens(ArgModel::Eq(k, v), vars) == seq![k + seq!['='] + v],
{
    let t = k + seq!['='] + v;
    assert(t[k.len() as int] == '=');
    assert forall|j: int| 0 <= j < k.len() implies t[j] != '=' by {
        assert(t[j] == k[j]);
    }
    lemma_find_char_first(t, '=', k.len() as int);
    let toks = seq![t];
    assert(toks.first() == t);
    assert(t.len() > 0);
    assert(t[0] != '$');
    assert(t.subrange(0, k.len() as int) =~= k);
    assert(t.subrange(k.len() as int + 1, t.len() as int) =~= v);
    assert(toks.drop_first() =~= Seq::<Seq<char>>::empty());
    assert(seq![ArgModel::Eq(k, v)] + shaped(toks.drop_first()) =~= seq![ArgModel::Eq(k, v)]);
    lemma_subst_without_sigil(v, vars);
}

} // verus!
