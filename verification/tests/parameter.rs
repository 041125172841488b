use shorthand::config::parameter::{Error, ParamDef};
use shorthand::opt::Parameter;
use shorthand::util::cstring::CString;
use shorthand::util::value::SingleOrVec;

fn single(template: &str) -> ParamDef {
    ParamDef::new(SingleOrVec::Single(template.to_string()))
}

fn many(templates: &[&str]) -> ParamDef {
    ParamDef::new(SingleOrVec::Vec(templates.iter().map(|t| t.to_string()).collect()))
}

fn value(v: &str) -> Option<String> {
    Some(v.to_string())
}

fn strings(args: Vec<CString>) -> Vec<String> {
    args.into_iter().map(|arg| String::from_utf8(arg.into_bytes()).expect("utf-8")).collect()
}

#[test]
fn strings_gives_the_templates() {
    assert_eq!(single("--all").strings(), ["--all".to_string()]);
    assert_eq!(many(&["-m", "{}"]).strings(), ["-m".to_string(), "{}".to_string()]);
    assert!(many(&[]).strings().is_empty());
}

#[test]
fn without_value_plain_templates_stay_as_they_are() {
    let extracted = many(&["--all", "-v"]).extract_as_cstrings("{}", &None).expect("no value needed");
    assert_eq!(strings(extracted), ["--all", "-v"]);
    let extracted = single("--amend").extract_as_cstrings("{}", &None).expect("no value needed");
    assert_eq!(strings(extracted), ["--amend"]);
}

#[test]
fn without_value_a_placeholder_is_an_error() {
    assert_eq!(
        many(&["-m", "{}"]).extract_as_cstrings("{}", &None),
        Err(Error::ParameterValueIsRequired)
    );
    assert_eq!(
        single("--message={}").extract_as_cstrings("{}", &None),
        Err(Error::ParameterValueIsRequired)
    );
    assert_eq!(
        many(&["{}", "plain"]).extract_as_cstrings("{}", &None),
        Err(Error::ParameterValueIsRequired)
    );
}

#[test]
fn with_value_every_occurrence_is_replaced() {
    let extracted =
        many(&["-m", "{}", "--from={}:{}"]).extract_as_cstrings("{}", &value("msg")).expect("ok");
    assert_eq!(strings(extracted), ["-m", "msg", "--from=msg:msg"]);
}

#[test]
fn with_value_templates_without_placeholder_are_untouched() {
    let extracted = many(&["--message", "{}", "--", "{ }"])
        .extract_as_cstrings("{}", &value("hello world"))
        .expect("ok");
    assert_eq!(strings(extracted), ["--message", "hello world", "--", "{ }"]);
}

#[test]
fn with_value_and_no_placeholder_is_an_error() {
    assert_eq!(
        many(&["--all", "-v"]).extract_as_cstrings("{}", &value("x")),
        Err(Error::ParameterValueIsNotAllowed)
    );
    assert_eq!(
        single("--amend").extract_as_cstrings("{}", &value("")),
        Err(Error::ParameterValueIsNotAllowed)
    );
}

#[test]
fn no_templates_take_no_value() {
    assert_eq!(many(&[]).extract_as_cstrings("{}", &None), Ok(Vec::new()));
    assert_eq!(
        many(&[]).extract_as_cstrings("{}", &value("x")),
        Err(Error::ParameterValueIsNotAllowed)
    );
}

#[test]
fn the_placeholder_given_is_the_one_looked_for() {
    let def = many(&["--depth=%", "{}"]);
    let extracted = def.extract_as_cstrings("%", &value("3")).expect("ok");
    assert_eq!(strings(extracted), ["--depth=3", "{}"]);
    let extracted = def.extract_as_cstrings("{}", &value("3")).expect("ok");
    assert_eq!(strings(extracted), ["--depth=%", "3"]);
    assert_eq!(def.extract_as_cstrings("@", &value("3")), Err(Error::ParameterValueIsNotAllowed));
    assert_eq!(def.extract_as_cstrings("%", &None), Err(Error::ParameterValueIsRequired));
}

#[test]
fn values_are_written_as_utf8() {
    let extracted = single("--name={}").extract_as_cstrings("{}", &value("é日")).expect("ok");
    assert_eq!(extracted.len(), 1);
    assert_eq!(extracted[0].as_bytes(), "--name=é日".as_bytes());
}

#[test]
fn an_empty_value_is_a_value() {
    let extracted = single("--name={}").extract_as_cstrings("{}", &value("")).expect("ok");
    assert_eq!(strings(extracted), ["--name="]);
}

#[test]
fn extraction_errors_in_words() {
    assert_eq!(Error::ParameterValueIsRequired.message(), "parameter value is required");
    assert_eq!(Error::ParameterValueIsNotAllowed.message(), "parameter value is not allowed");
}

#[test]
fn parameter_with_value() {
    let parameter = Parameter::parse("message=hello");
    assert_eq!(parameter.name, "message");
    assert_eq!(parameter.value.as_deref(), Some("hello"));
}

#[test]
fn parameter_without_value() {
    let parameter = Parameter::parse("amend");
    assert_eq!(parameter.name, "amend");
    assert_eq!(parameter.value, None);
}

#[test]
fn parameter_splits_at_the_first_equals_sign() {
    let parameter = Parameter::parse("define=a=b=c");
    assert_eq!(parameter.name, "define");
    assert_eq!(parameter.value.as_deref(), Some("a=b=c"));
}

#[test]
fn parameter_edges() {
    let parameter = Parameter::parse("name=");
    assert_eq!(parameter.name, "name");
    assert_eq!(parameter.value.as_deref(), Some(""));

    let parameter = Parameter::parse("=value");
    assert_eq!(parameter.name, "");
    assert_eq!(parameter.value.as_deref(), Some("value"));

    let parameter = Parameter::parse("");
    assert_eq!(parameter.name, "");
    assert_eq!(parameter.value, None);

    let parameter = Parameter::parse("=");
    assert_eq!(parameter.name, "");
    assert_eq!(parameter.value.as_deref(), Some(""));

    let parameter = Parameter::parse("é=日");
    assert_eq!(parameter.name, "é");
    assert_eq!(parameter.value.as_deref(), Some("日"));
}

#[test]
fn parameter_from_str_never_fails() {
    let parameter: Parameter = "depth=3".parse().expect("every string is a parameter");
    assert_eq!(parameter.name, "depth");
    assert_eq!(parameter.value.as_deref(), Some("3"));
    let parameter: Parameter = "all".parse().expect("every string is a parameter");
    assert_eq!(parameter.name, "all");
    assert_eq!(parameter.value, None);
}

#[test]
fn parameter_agrees_with_split_once() {
    for text in ["a=b", "a", "", "=", "==", "a=b=c", "ab=", "=ab", "x=é", "日=本=語"] {
        let parameter = Parameter::parse(text);
        match text.split_once('=') {
            Some((name, value)) => {
                assert_eq!(parameter.name, name);
                assert_eq!(parameter.value.as_deref(), Some(value));
            }
            None => {
                assert_eq!(parameter.name, text);
                assert_eq!(parameter.value, None);
            }
        }
    }
}

#[test]
fn parameter_clone_holds_the_same() {
    let parameter = Parameter::parse("a=b");
    let copy = parameter.clone();
    assert_eq!(copy.name, "a");
    assert_eq!(copy.value.as_deref(), Some("b"));
    let bare = Parameter::parse("flag").clone();
    assert_eq!(bare.name, "flag");
    assert_eq!(bare.value, None);
}

#[test]
fn the_empty_placeholder_stands_in_every_template() {
    assert_eq!(
        single("ab").extract_as_cstrings("", &None),
        Err(Error::ParameterValueIsRequired)
    );
    let extracted = many(&["ab", ""]).extract_as_cstrings("", &value("-")).expect("ok");
    assert_eq!(strings(extracted), ["-a-b-", "-"]);
}
