//! What a container runtime may ask of any image description.

use crate::entries::keys_distinct;
use crate::wait_for::{WaitFor, WaitForView};
use vstd::prelude::*;

verus! {

/// The capabilities through which a runtime driver reads an image description,
/// whatever concrete type stands behind it.
///
/// Each capability hands out a copy or read-only references, so a driver never
/// reaches the description's own state. The one transformation offered,
/// `with_args`, consumes the description and returns the changed one.
pub trait Image: Sized {
    /// How this kind of image writes down its launch arguments.
    type Args: DeepView;

    /// The identifier of the image to run.
    spec fn spec_descriptor(&self) -> Seq<char>;

    /// The readiness conditions, in the order in which they were added.
    spec fn spec_ready_conditions(&self) -> Seq<WaitForView>;

    /// The launch arguments.
    spec fn spec_args(&self) -> <Self::Args as DeepView>::V;

    /// The environment of the container: variable names with their values.
    spec fn spec_env_vars(&self) -> Map<Seq<char>, Seq<char>>;

    /// The mounts of the container: host paths with their container paths.
    spec fn spec_volumes(&self) -> Map<Seq<char>, Seq<char>>;

    /// The entrypoint that replaces the image's own, if any.
    spec fn spec_entrypoint(&self) -> Option<Seq<char>>;

    /// A copy of the image identifier.
    fn descriptor(&self) -> (descriptor: String)
        ensures
            descriptor@ == self.spec_descriptor(),
    ;

    /// A copy of the readiness conditions, in the order in which they were
    /// added.
    fn ready_conditions(&self) -> (conditions: Vec<WaitFor>)
        ensures
            conditions.deep_view() == self.spec_ready_conditions(),
    ;

    /// A copy of the launch arguments.
    fn args(&self) -> (arguments: Self::Args)
        ensures
            arguments.deep_view() == self.spec_args(),
    ;

    /// The environment variables as `(name, value)` pairs: one pair for each
    /// variable, in no order that a caller may count on.
    fn env_vars(&self) -> (pairs: Vec<(&String, &String)>)
        ensures
            keys_distinct(pairs.deep_view()),
            pairs.deep_view().to_set() == self.spec_env_vars().kv_pairs(),
    ;

    /// The mounts as `(host path, container path)` pairs: one pair for each
    /// host path, in no order that a caller may count on.
    fn volumes(&self) -> (pairs: Vec<(&String, &String)>)
        ensures
            keys_distinct(pairs.deep_view()),
            pairs.deep_view().to_set() == self.spec_volumes().kv_pairs(),
    ;

    /// The same description with `arguments` in place of its launch
    /// arguments, and nothing else changed.
    fn with_args(self, arguments: Self::Args) -> (image: Self)
        ensures
            image.spec_args() == arguments.deep_view(),
            image.spec_descriptor() == self.spec_descriptor(),
            image.spec_ready_conditions() == self.spec_ready_conditions(),
            image.spec_env_vars() == self.spec_env_vars(),
            image.spec_volumes() == self.spec_volumes(),
            image.spec_entrypoint() == self.spec_entrypoint(),
    ;

    /// A copy of the entrypoint override; `None` where the image's own
    /// entrypoint is to be used.
    fn entrypoint(&self) -> (entrypoint: Option<String>)
        ensures
            entrypoint.deep_view() == self.spec_entrypoint(),
    ;
}

} // verus!
