//! Changes to the environment of a command, as the configuration states them.

use crate::util::name_map::NameMap;
use crate::util::value::{Referable, SingleOrVec};
use vstd::prelude::*;

verus! {

/// The changes to the environment, by variable name.
pub type EnvSet = NameMap<EnvValueWithShorthand>;

/// What is done to one environment variable.
#[derive(Debug)]
#[allow(inconsistent_fields)]
pub enum EnvValue {
    /// The variable is set to `value`.
    Assign { value: String },
    /// The variable is removed.
    Unset,
    /// `value` is put behind what the variable holds, with `separator` between the parts.
    Append { value: SingleOrVec<String>, separator: String },
}

/// The separator of [`EnvValue::Append`] where none is written: one space.
pub fn env_value_append_separator_default() -> (separator: String)
    ensures
        separator@ == " "@,
{
    " ".to_owned()
}

/// What is done to one environment variable, as it may be written: in full, or as a bare
/// string, which sets the variable to that string.
#[derive(Debug)]
pub enum EnvValueWithShorthand {
    Shorthand(String),
    Full(EnvValue),
}

impl EnvValueWithShorthand {
    /// The operation this stands for: a bare string sets the variable to itself.
    pub open spec fn env_value(&self) -> EnvValue {
        match self {
            EnvValueWithShorthand::Shorthand(s) => EnvValue::Assign { value: *s },
            EnvValueWithShorthand::Full(e) => *e,
        }
    }

    /// The operation this stands for. One that is written in full is borrowed; for a
    /// bare string an `Assign` is made.
    pub fn as_env_value(&self) -> (operation: Referable<'_, EnvValue>)
        ensures
            operation.value() == self.env_value(),
            operation is Borrowed <==> self is Full,
    {
        match self {
            EnvValueWithShorthand::Shorthand(s) => Referable::Owned(
                EnvValue::Assign { value: s.clone() },
            ),
            EnvValueWithShorthand::Full(e) => Referable::Borrowed(e),
        }
    }
}

} // verus!
