//! Parameter definitions: the templates a parameter expands to, and how a value is put in.

use crate::util::cstring::{
    arg_bytes, encoded, lemma_replace_all_nul_free, str_to_cstring, text_nul_free,
    texts_nul_free, CString,
};
use crate::util::name_map::NameMap;
use crate::util::text::{
    contains, lemma_replace_all_without_token, occurs_in, replace, replace_all, texts,
};
use crate::util::value::SingleOrVec;
use vstd::prelude::*;

verus! {

/// The parameter definitions of one position, by parameter name.
pub type ParamConfigs = NameMap<ParamDef>;

/// Why a parameter could not be expanded.
#[derive(Debug, Clone, Copy, PartialEq, Eq, Structural)]
pub enum Error {
    /// A template holds the placeholder and no value was given.
    ParameterValueIsRequired,
    /// A value was given and no template holds the placeholder.
    ParameterValueIsNotAllowed,
}

impl Error {
    /// The error in words.
    pub fn message(&self) -> (text: String)
        ensures
            text@ == match self {
                Error::ParameterValueIsRequired => "parameter value is required"@,
                Error::ParameterValueIsNotAllowed => "parameter value is not allowed"@,
            },
    {
        match self {
            Error::ParameterValueIsRequired => "parameter value is required".to_owned(),
            Error::ParameterValueIsNotAllowed => "parameter value is not allowed".to_owned(),
        }
    }
}

/// The text of `value`, where there is one.
pub open spec fn value_text(value: Option<String>) -> Option<Seq<char>> {
    match value {
        Some(v) => Some(v@),
        None => None,
    }
}

/// One of `templates` holds `placeholder`.
pub open spec fn any_holds(templates: Seq<Seq<char>>, placeholder: Seq<char>) -> bool {
    exists|i: int| 0 <= i < templates.len() && occurs_in(#[trigger] templates[i], placeholder)
}

/// Each of `templates` with `value` in the place of every `placeholder`.
pub open spec fn filled(templates: Seq<Seq<char>>, placeholder: Seq<char>, value: Seq<char>) -> Seq<
    Seq<char>,
> {
    templates.map_values(|template: Seq<char>| replace_all(template, placeholder, value))
}

/// What `templates` expand to, given the placeholder and the value that came with the
/// parameter, if one came.
///
/// With a value, some template must hold the placeholder, and every occurrence in every
/// template is replaced. Without a value, no template may hold the placeholder, and the
/// templates are the result.
pub open spec fn extracted(
    templates: Seq<Seq<char>>,
    placeholder: Seq<char>,
    value: Option<Seq<char>>,
) -> Result<Seq<Seq<char>>, Error> {
    match value {
        Some(v) => if any_holds(templates, placeholder) {
            Ok(filled(templates, placeholder, v))
        } else {
            Err(Error::ParameterValueIsNotAllowed)
        },
        None => if any_holds(templates, placeholder) {
            Err(Error::ParameterValueIsRequired)
        } else {
            Ok(templates)
        },
    }
}

/// With one more template, one of the templates holds the placeholder exactly if one did
/// before or the new one does.
proof fn lemma_any_holds_push(templates: Seq<Seq<char>>, last: Seq<char>, placeholder: Seq<char>)
    ensures
        any_holds(templates.push(last), placeholder) == (any_holds(templates, placeholder)
            || occurs_in(last, placeholder)),
{
    let longer = templates.push(last);
    if any_holds(templates, placeholder) {
        let k = choose|k: int|
            0 <= k < templates.len() && occurs_in(#[trigger] templates[k], placeholder);
        assert(occurs_in(longer[k], placeholder));
    }
    if occurs_in(last, placeholder) {
        assert(occurs_in(longer[templates.len() as int], placeholder));
    }
    if any_holds(longer, placeholder) {
        let k = choose|k: int| 0 <= k < longer.len() && occurs_in(#[trigger] longer[k], placeholder);
        if k < templates.len() {
            assert(occurs_in(templates[k], placeholder));
        }
    }
}

/// Putting a value in leaves a template that does not hold the placeholder as it is.
pub proof fn lemma_filled_keeps_plain_templates(
    templates: Seq<Seq<char>>,
    placeholder: Seq<char>,
    value: Seq<char>,
    i: int,
)
    requires
        0 <= i < templates.len(),
        !occurs_in(templates[i], placeholder),
    ensures
        filled(templates, placeholder, value)[i] == templates[i],
{
    lemma_replace_all_without_token(templates[i], placeholder, value);
}

/// Without a value, templates expand exactly if none of them holds the placeholder, and
/// then to themselves.
pub proof fn lemma_extracted_without_value(templates: Seq<Seq<char>>, placeholder: Seq<char>)
    ensures
        extracted(templates, placeholder, None) is Ok <==> !any_holds(templates, placeholder),
        extracted(templates, placeholder, None) is Ok ==> extracted(templates, placeholder, None)
            == Ok::<Seq<Seq<char>>, Error>(templates),
        extracted(templates, placeholder, None) is Err ==> extracted(templates, placeholder, None)
            == Err::<Seq<Seq<char>>, Error>(Error::ParameterValueIsRequired),
{
}

/// With a value, templates expand exactly if one of them holds the placeholder. Then each
/// template has the value in the place of every placeholder, and a template that holds no
/// placeholder stays as it is.
pub proof fn lemma_extracted_with_value(
    templates: Seq<Seq<char>>,
    placeholder: Seq<char>,
    value: Seq<char>,
)
    ensures
        extracted(templates, placeholder, Some(value)) is Ok <==> any_holds(templates, placeholder),
        extracted(templates, placeholder, Some(value)) is Err ==> extracted(
            templates,
            placeholder,
            Some(value),
        ) == Err::<Seq<Seq<char>>, Error>(Error::ParameterValueIsNotAllowed),
        extracted(templates, placeholder, Some(value)) matches Ok(expanded) ==> {
            &&& expanded.len() == templates.len()
            &&& forall|i: int|
                0 <= i < templates.len() ==> #[trigger] expanded[i] == replace_all(
                    templates[i],
                    placeholder,
                    value,
                )
            &&& forall|i: int|
                0 <= i < templates.len() && !occurs_in(templates[i], placeholder)
                    ==> #[trigger] expanded[i] == templates[i]
        },
{
    if any_holds(templates, placeholder) {
        let expanded = filled(templates, placeholder, value);
        assert forall|i: int|
            0 <= i < templates.len() && !occurs_in(
                templates[i],
                placeholder,
            ) implies #[trigger] expanded[i] == templates[i] by {
            lemma_filled_keeps_plain_templates(templates, placeholder, value, i);
        }
    }
}

/// The definition of a parameter: the templates it expands to, one or many.
#[derive(Debug)]
pub struct ParamDef(SingleOrVec<String>);

impl View for ParamDef {
    type V = Seq<Seq<char>>;

    closed spec fn view(&self) -> Seq<Seq<char>> {
        texts(self.0.as_seq())
    }
}

impl ParamDef {
    /// The definition with the given templates.
    pub fn new(templates: SingleOrVec<String>) -> (def: Self)
        ensures
            def@ == texts(templates.as_seq()),
    {
        ParamDef(templates)
    }

    /// The templates, in the shape in which they were written.
    pub fn templates(&self) -> (templates: &SingleOrVec<String>)
        ensures
            texts(templates.as_seq()) == self@,
    {
        &self.0
    }

    /// The templates.
    pub fn strings(&self) -> (templates: &[String])
        ensures
            texts(templates@) == self@,
    {
        self.0.as_slice()
    }

    /// The arguments this parameter expands to: its templates, with `value` in the place of
    /// every `placeholder`, each written as UTF-8.
    ///
    /// A value that no template has a place for is an error, and so is a template with a
    /// place for which no value came. NUL cannot stand in an argument: templates and value
    /// must be free of it.
    pub fn extract_as_cstrings(&self, placeholder: &str, value: &Option<String>) -> (result:
        Result<Vec<CString>, Error>)
        requires
            texts_nul_free(self@),
            value matches Some(v) ==> text_nul_free(v@),
        ensures
            match extracted(self@, placeholder@, value_text(*value)) {
                Ok(expanded) => result matches Ok(args) && arg_bytes(args@) == encoded(expanded),
                Err(e) => result == Err::<Vec<CString>, Error>(e),
            },
    {
        let templates = self.0.as_slice();
        let n = templates.len();
        let mut args: Vec<CString> = Vec::new();
        let mut i: usize = 0;
        match value {
            Some(v) => {
                let mut replaced = false;
                while i < n
                    invariant
                        n == templates@.len(),
                        texts(templates@) == self@,
                        texts_nul_free(self@),
                        text_nul_free(v@),
                        *value == Some(*v),
                        i <= n,
                        replaced == any_holds(self@.take(i as int), placeholder@),
                        arg_bytes(args@) == encoded(filled(self@.take(i as int), placeholder@, v@)),
                    decreases n - i,
                {
                    let template = templates[i].as_str();
                    let ghost before = self@.take(i as int);
                    let ghost gathered = args@;
                    assert(template@ == self@[i as int]);
                    let held = contains(template, placeholder);
                    let arg = if held {
                        let text = replace(template, placeholder, v.as_str());
                        proof {
                            lemma_replace_all_nul_free(template@, placeholder@, v@);
                        }
                        str_to_cstring(text.as_str())
                    } else {
                        proof {
                            lemma_replace_all_without_token(template@, placeholder@, v@);
                        }
                        str_to_cstring(template)
                    };
                    args.push(arg);
                    proof {
                        lemma_any_holds_push(before, template@, placeholder@);
                        assert(self@.take(i + 1) =~= before.push(template@));
                        assert(filled(before.push(template@), placeholder@, v@) =~= filled(
                            before,
                            placeholder@,
                            v@,
                        ).push(replace_all(template@, placeholder@, v@)));
                        assert(arg_bytes(args@) =~= arg_bytes(gathered).push(arg@));
                        assert(arg_bytes(args@) =~= encoded(
                            filled(before.push(template@), placeholder@, v@),
                        ));
                    }
                    if held {
                        replaced = true;
                    }
                    i += 1;
                }
                assert(self@.take(n as int) =~= self@);
                if !replaced {
                    return Err(Error::ParameterValueIsNotAllowed);
                }
            },
            None => {
                while i < n
                    invariant
                        n == templates@.len(),
                        texts(templates@) == self@,
                        texts_nul_free(self@),
                        *value is None,
                        i <= n,
                        !any_holds(self@.take(i as int), placeholder@),
                        arg_bytes(args@) == encoded(self@.take(i as int)),
                    decreases n - i,
                {
                    let template = templates[i].as_str();
                    let ghost before = self@.take(i as int);
                    let ghost gathered = args@;
                    assert(template@ == self@[i as int]);
                    if contains(template, placeholder) {
                        return Err(Error::ParameterValueIsRequired);
                    }
                    let arg = str_to_cstring(template);
                    args.push(arg);
                    proof {
                        lemma_any_holds_push(before, template@, placeholder@);
                        assert(self@.take(i + 1) =~= before.push(template@));
                        assert(arg_bytes(args@) =~= arg_bytes(gathered).push(arg@));
                        assert(arg_bytes(args@) =~= encoded(before.push(template@)));
                    }
                    i += 1;
                }
                assert(self@.take(n as int) =~= self@);
            },
        }
        Ok(args)
    }
}

} // verus!
