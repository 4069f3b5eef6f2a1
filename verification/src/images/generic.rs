//! A description of an arbitrary image, put together step by step.

use crate::entries::{as_map, keys_distinct, lemma_entries_are_map_pairs, put};
use crate::image::Image;
use crate::string_map::StringMap;
use crate::wait_for::{WaitFor, WaitForView};
use vstd::prelude::*;

verus! {

/// What a `GenericImage` holds, as plain mathematics.
pub struct GenericImageView {
    /// The identifier of the image to run.
    pub descriptor: Seq<char>,
    /// The command arguments, in the order in which they are passed.
    pub arguments: Seq<Seq<char>>,
    /// The mounts, as `(host path, container path)` entries in the order in
    /// which the host paths were first given.
    pub volumes: Seq<(Seq<char>, Seq<char>)>,
    /// The environment, as `(name, value)` entries in the order in which the
    /// names were first given.
    pub env_vars: Seq<(Seq<char>, Seq<char>)>,
    /// The readiness conditions, in the order in which they were added.
    pub wait_for: Seq<WaitForView>,
    /// The entrypoint that replaces the image's own, if any.
    pub entrypoint: Option<Seq<char>>,
}

impl GenericImageView {
    /// The description of `descriptor` with nothing else said: no arguments,
    /// mounts, environment or readiness conditions, and the image's own
    /// entrypoint.
    pub open spec fn new(descriptor: Seq<char>) -> GenericImageView {
        GenericImageView {
            descriptor,
            arguments: Seq::empty(),
            volumes: Seq::empty(),
            env_vars: Seq::empty(),
            wait_for: Seq::empty(),
            entrypoint: None,
        }
    }

    /// Neither the mounts nor the environment name a key twice.
    pub open spec fn well_formed(self) -> bool {
        &&& keys_distinct(self.volumes)
        &&& keys_distinct(self.env_vars)
    }

    /// The mounts as a map from host path to container path.
    pub open spec fn volume_map(self) -> Map<Seq<char>, Seq<char>> {
        as_map(self.volumes)
    }

    /// The environment as a map from variable name to value.
    pub open spec fn env_map(self) -> Map<Seq<char>, Seq<char>> {
        as_map(self.env_vars)
    }

    /// This description with `from` mounted at `dest`.
    pub open spec fn with_volume(self, from: Seq<char>, dest: Seq<char>) -> GenericImageView {
        GenericImageView { volumes: put(self.volumes, from, dest), ..self }
    }

    /// This description with the variable `key` set to `value`.
    pub open spec fn with_env_var(self, key: Seq<char>, value: Seq<char>) -> GenericImageView {
        GenericImageView { env_vars: put(self.env_vars, key, value), ..self }
    }

    /// This description with `condition` added after its readiness conditions.
    pub open spec fn with_wait_for(self, condition: WaitForView) -> GenericImageView {
        GenericImageView { wait_for: self.wait_for.push(condition), ..self }
    }

    /// This description with `entrypoint` in place of the image's own.
    pub open spec fn with_entrypoint(self, entrypoint: Seq<char>) -> GenericImageView {
        GenericImageView { entrypoint: Some(entrypoint), ..self }
    }

    /// This description with `arguments` as its arguments.
    pub open spec fn with_args(self, arguments: Seq<Seq<char>>) -> GenericImageView {
        GenericImageView { arguments, ..self }
    }

    /// This description after `with_volume` for each `(host path, container
    /// path)` of `mounts`, from first to last.
    pub open spec fn with_volumes(self, mounts: Seq<(Seq<char>, Seq<char>)>) -> GenericImageView
        decreases mounts.len(),
    {
        if mounts.len() == 0 {
            self
        } else {
            let (from, dest) = mounts.last();
            self.with_volumes(mounts.drop_last()).with_volume(from, dest)
        }
    }

    /// This description after `with_env_var` for each `(name, value)` of
    /// `vars`, from first to last.
    pub open spec fn with_env_vars(self, vars: Seq<(Seq<char>, Seq<char>)>) -> GenericImageView
        decreases vars.len(),
    {
        if vars.len() == 0 {
            self
        } else {
            let (key, value) = vars.last();
            self.with_env_vars(vars.drop_last()).with_env_var(key, value)
        }
    }

    /// This description after `with_wait_for` for each condition of
    /// `conditions`, from first to last.
    pub open spec fn with_wait_fors(self, conditions: Seq<WaitForView>) -> GenericImageView
        decreases conditions.len(),
    {
        if conditions.len() == 0 {
            self
        } else {
            self.with_wait_fors(conditions.drop_last()).with_wait_for(conditions.last())
        }
    }
}

/// One call of a builder method of `GenericImage`, with what it was given as
/// plain mathematics.
pub enum Step {
    /// `with_volume`
    Volume { from: Seq<char>, dest: Seq<char> },
    /// `with_env_var`
    EnvVar { key: Seq<char>, value: Seq<char> },
    /// `with_wait_for`
    WaitFor { condition: WaitForView },
    /// `with_entrypoint`
    Entrypoint { entrypoint: Seq<char> },
    /// `with_args`
    Args { arguments: Seq<Seq<char>> },
}

impl GenericImageView {
    /// This description after the call `step`.
    pub open spec fn after(self, step: Step) -> GenericImageView {
        match step {
            Step::Volume { from, dest } => self.with_volume(from, dest),
            Step::EnvVar { key, value } => self.with_env_var(key, value),
            Step::WaitFor { condition } => self.with_wait_for(condition),
            Step::Entrypoint { entrypoint } => self.with_entrypoint(entrypoint),
            Step::Args { arguments } => self.with_args(arguments),
        }
    }

    /// This description after the calls of `steps`, from first to last.
    pub open spec fn after_all(self, steps: Seq<Step>) -> GenericImageView
        decreases steps.len(),
    {
        if steps.len() == 0 {
            self
        } else {
            self.after_all(steps.drop_last()).after(steps.last())
        }
    }
}

/// The entrypoint that the last `with_entrypoint` among `steps` was given;
/// `None` where there is no such call.
pub open spec fn last_entrypoint(steps: Seq<Step>) -> Option<Seq<char>>
    decreases steps.len(),
{
    if steps.len() == 0 {
        None
    } else {
        match steps.last() {
            Step::Entrypoint { entrypoint } => Some(entrypoint),
            _ => last_entrypoint(steps.drop_last()),
        }
    }
}

/// The arguments that the last `with_args` among `steps` was given; `None`
/// where there is no such call.
pub open spec fn last_arguments(steps: Seq<Step>) -> Option<Seq<Seq<char>>>
    decreases steps.len(),
{
    if steps.len() == 0 {
        None
    } else {
        match steps.last() {
            Step::Args { arguments } => Some(arguments),
            _ => last_arguments(steps.drop_last()),
        }
    }
}

/// A description of a container image to run: its identifier, the arguments,
/// mounts and environment to start it with, the conditions by which it counts
/// as ready, and an entrypoint where the image's own is not wanted.
///
/// A description is built from `new` by the `with_` methods, each of which
/// takes the description and returns the changed one.
#[derive(Debug)]
pub struct GenericImage {
    descriptor: String,
    arguments: Vec<String>,
    volumes: StringMap,
    env_vars: StringMap,
    wait_for: Vec<WaitFor>,
    entrypoint: Option<String>,
}

impl GenericImage {
    /// What holds of every description: neither the mounts nor the
    /// environment name a key twice.
    #[verifier::type_invariant]
    pub open spec fn well_formed(&self) -> bool {
        self@.well_formed()
    }
}

impl View for GenericImage {
    type V = GenericImageView;

    closed spec fn view(&self) -> GenericImageView {
        GenericImageView {
            descriptor: self.descriptor@,
            arguments: self.arguments.deep_view(),
            volumes: self.volumes.entries(),
            env_vars: self.env_vars.entries(),
            wait_for: self.wait_for.deep_view(),
            entrypoint: self.entrypoint.deep_view(),
        }
    }
}

impl Default for GenericImage {
    /// The description with an empty identifier and nothing else said.
    fn default() -> (image: Self)
        ensures
            image@ == GenericImageView::new(Seq::empty()),
    {
        let image = GenericImage {
            descriptor: String::new(),
            arguments: Vec::new(),
            volumes: StringMap::new(),
            env_vars: StringMap::new(),
            wait_for: Vec::new(),
            entrypoint: None,
        };
        assert(image.arguments.deep_view() =~= Seq::empty());
        assert(image.wait_for.deep_view() =~= Seq::empty());
        image
    }
}

impl GenericImage {
    /// The description of the image `descriptor` with nothing else said.
    /// Any identifier is taken as it is, the empty one too.
    pub fn new(descriptor: &str) -> (image: GenericImage)
        ensures
            image@ == GenericImageView::new(descriptor@),
    {
        GenericImage { descriptor: descriptor.to_owned(), ..Default::default() }
    }

    /// Mounts the host path `from` at the container path `dest`. A host path
    /// that is already mounted gets the new container path.
    pub fn with_volume(self, from: &str, dest: &str) -> (image: Self)
        ensures
            image@ == self@.with_volume(from@, dest@),
            image@.volume_map() == self@.volume_map().insert(from@, dest@),
    {
        proof {
            use_type_invariant(&self);
        }
        let mut volumes = self.volumes;
        volumes.insert(from.to_owned(), dest.to_owned());
        GenericImage { volumes, ..self }
    }

    /// Sets the environment variable `key` to `value`. A variable that is
    /// already set gets the new value.
    pub fn with_env_var(self, key: &str, value: &str) -> (image: Self)
        ensures
            image@ == self@.with_env_var(key@, value@),
            image@.env_map() == self@.env_map().insert(key@, value@),
    {
        proof {
            use_type_invariant(&self);
        }
        let mut env_vars = self.env_vars;
        env_vars.insert(key.to_owned(), value.to_owned());
        GenericImage { env_vars, ..self }
    }

    /// Adds `wait_for` after the readiness conditions given so far.
    pub fn with_wait_for(self, wait_for: WaitFor) -> (image: Self)
        ensures
            image@ == self@.with_wait_for(wait_for@),
    {
        proof {
            use_type_invariant(&self);
        }
        let mut conditions = self.wait_for;
        conditions.push(wait_for);
        assert(conditions.deep_view() =~= self@.wait_for.push(wait_for@));
        GenericImage { wait_for: conditions, ..self }
    }

    /// Runs `entrypoint` in place of the image's own entrypoint, and in place
    /// of any entrypoint given before.
    pub fn with_entrypoint(self, entrypoint: &str) -> (image: Self)
        ensures
            image@ == self@.with_entrypoint(entrypoint@),
    {
        proof {
            use_type_invariant(&self);
        }
        GenericImage { entrypoint: Some(entrypoint.to_owned()), ..self }
    }
}

impl Image for GenericImage {
    type Args = Vec<String>;

    open spec fn spec_descriptor(&self) -> Seq<char> {
        self@.descriptor
    }

    open spec fn spec_ready_conditions(&self) -> Seq<WaitForView> {
        self@.wait_for
    }

    open spec fn spec_args(&self) -> Seq<Seq<char>> {
        self@.arguments
    }

    open spec fn spec_env_vars(&self) -> Map<Seq<char>, Seq<char>> {
        self@.env_map()
    }

    open spec fn spec_volumes(&self) -> Map<Seq<char>, Seq<char>> {
        self@.volume_map()
    }

    open spec fn spec_entrypoint(&self) -> Option<Seq<char>> {
        self@.entrypoint
    }

    fn descriptor(&self) -> (descriptor: String)
        ensures
            descriptor@ == self@.descriptor,
    {
        self.descriptor.clone()
    }

    fn ready_conditions(&self) -> (conditions: Vec<WaitFor>)
        ensures
            conditions.deep_view() == self@.wait_for,
    {
        let conditions = self.wait_for.clone();
        assert(conditions.deep_view() =~= self.wait_for.deep_view());
        conditions
    }

    fn args(&self) -> (arguments: Vec<String>)
        ensures
            arguments.deep_view() == self@.arguments,
    {
        let arguments = self.arguments.clone();
        assert(arguments.deep_view() =~= self.arguments.deep_view());
        arguments
    }

    /// The environment as `(name, value)` pairs, in the order in which the
    /// names were first given.
    fn env_vars(&self) -> (pairs: Vec<(&String, &String)>)
        ensures
            pairs.deep_view() == self@.env_vars,
    {
        proof {
            use_type_invariant(self);
            lemma_entries_are_map_pairs(self@.env_vars);
        }
        self.env_vars.pairs()
    }

    /// The mounts as `(host path, container path)` pairs, in the order in
    /// which the host paths were first given.
    fn volumes(&self) -> (pairs: Vec<(&String, &String)>)
        ensures
            pairs.deep_view() == self@.volumes,
    {
        proof {
            use_type_invariant(self);
            lemma_entries_are_map_pairs(self@.volumes);
        }
        self.volumes.pairs()
    }

    fn with_args(self, arguments: Vec<String>) -> (image: Self)
        ensures
            image@ == self@.with_args(arguments.deep_view()),
    {
        proof {
            use_type_invariant(&self);
        }
        GenericImage { arguments, ..self }
    }

    fn entrypoint(&self) -> (entrypoint: Option<String>)
        ensures
            entrypoint.deep_view() == self@.entrypoint,
    {
        match &self.entrypoint {
            Some(entrypoint) => Some(entrypoint.clone()),
            None => None,
        }
    }
}

impl Clone for GenericImage {
    /// A description that says the same and shares nothing with this one.
    fn clone(&self) -> (copy: Self)
        ensures
            copy@ == self@,
    {
        proof {
            use_type_invariant(self);
        }
        let copy = GenericImage {
            descriptor: self.descriptor.clone(),
            arguments: self.args(),
            volumes: self.volumes.clone(),
            env_vars: self.env_vars.clone(),
            wait_for: self.ready_conditions(),
            entrypoint: self.entrypoint(),
        };
        copy
    }
}

} // verus!
