//! A parameter as it is given on the command line: `name`, or `name=value`.

use crate::util::text::chars_of;
use core::convert::Infallible;
use core::str::FromStr;
use vstd::prelude::*;

verus! {

/// What a [`Parameter`] holds, as plain values.
pub struct ParameterView {
    pub name: Seq<char>,
    pub value: Option<Seq<char>>,
}

impl ParameterView {
    /// The parameter as it is written: the name, and behind `=` the value where there is
    /// one.
    pub open spec fn written(self) -> Seq<char> {
        match self.value {
            Some(value) => self.name.push('=') + value,
            None => self.name,
        }
    }
}

/// A parameter given with a command.
#[derive(Debug)]
pub struct Parameter {
    pub name: String,
    pub value: Option<String>,
}

impl View for Parameter {
    type V = ParameterView;

    open spec fn view(&self) -> ParameterView {
        ParameterView {
            name: self.name@,
            value: match self.value {
                Some(value) => Some(value@),
                None => None,
            },
        }
    }
}

impl Clone for Parameter {
    fn clone(&self) -> (copy: Self)
        ensures
            copy@ == self@,
    {
        let value = match &self.value {
            Some(value) => Some(value.clone()),
            None => None,
        };
        Parameter { name: self.name.clone(), value }
    }
}

impl Parameter {
    /// Reads a parameter. The name is what stands before the first `=`, the value what
    /// follows it; without a `=` the whole is the name and there is no value.
    pub fn parse(s: &str) -> (parameter: Self)
        ensures
            parameter@.written() == s@,
            !parameter@.name.contains('='),
            parameter@.value is Some <==> s@.contains('='),
    {
        let chars = chars_of(s);
        let n = chars.len();
        let mut i: usize = 0;
        while i < n
            invariant
                chars@ == s@,
                n == s@.len(),
                i <= n,
                forall|j: int| 0 <= j < i ==> s@[j] != '=',
            decreases n - i,
        {
            if chars[i] == '=' {
                let name = s.substring_char(0, i).to_owned();
                let value = s.substring_char(i + 1, n).to_owned();
                return Parameter { name, value: Some(value) };
            }
            i += 1;
        }
        Parameter { name: s.to_owned(), value: None }
    }
}

impl FromStr for Parameter {
    type Err = Infallible;

    /// Reads a parameter as [`Parameter::parse`] does. Every string is one.
    fn from_str(s: &str) -> (parsed: Result<Self, Infallible>)
        ensures
            parsed matches Ok(parameter) && parameter@.written() == s@ && !parameter@.name.contains(
                '=',
            ) && (parameter@.value is Some <==> s@.contains('=')),
    {
        Ok(Parameter::parse(s))
    }
}

} // verus!
