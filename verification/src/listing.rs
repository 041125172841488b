//! What is shown of the configuration: the commands that are defined, and the definition
//! of one command.

use crate::config::parameter::ParamConfigs;
use crate::config::{param_views, CommandConfig, CommandConfigs, Config, DefaultView};
use crate::runner::{compose_value, effective_placeholder};
use crate::util::name_map::NameMap;
use crate::util::text::texts;
use itertools::Itertools;
use vstd::prelude::*;
use vstd::utf8::*;

verus! {

/// What `str::escape_debug` of std makes of a text.
pub uninterp spec fn escape_debug_of(text: Seq<char>) -> Seq<char>;

/// `str::escape_debug` of std, gathered into a string. What it makes of a text is given a
/// name here and not described: nothing is claimed of it but that it depends on the text
/// alone.
#[verifier::external_body]
fn escape_debug(text: &str) -> (escaped: String)
    ensures
        escaped@ == escape_debug_of(text@),
{
    text.escape_debug().to_string()
}

/// `parts` in a row with `sep` between each two of them.
pub open spec fn joined_with(parts: Seq<Seq<char>>, sep: Seq<char>) -> Seq<char>
    decreases parts.len(),
{
    if parts.len() == 0 {
        seq![]
    } else if parts.len() == 1 {
        parts[0]
    } else {
        joined_with(parts.drop_last(), sep) + sep + parts.last()
    }
}

/// `Itertools::join` of itertools over the strings of `parts`: the strings in a row with
/// `sep` between each two of them, and the empty string where there are none. It sizes
/// its result by the length of `sep` times the number of strings that follow the first,
/// which must not overflow.
#[verifier::external_body]
fn join(parts: &[String], sep: &str) -> (joined: String)
    requires
        sep.len() * parts.len() <= usize::MAX,
    ensures
        joined@ == joined_with(texts(parts@), sep@),
{
    parts.iter().join(sep)
}

/// Each of `values` as `str::escape_debug` writes it.
pub open spec fn escaped_all(values: Seq<Seq<char>>) -> Seq<Seq<char>> {
    values.map_values(|value: Seq<char>| escape_debug_of(value))
}

/// `escaped` between double quotes.
pub open spec fn quoted(escaped: Seq<char>) -> Seq<char> {
    seq!['"'] + escaped + seq!['"']
}

/// Each of `escaped` between double quotes, in a row with one space between each two.
pub open spec fn quoted_line(escaped: Seq<Seq<char>>) -> Seq<char> {
    joined_with(escaped.map_values(|e: Seq<char>| quoted(e)), seq![' '])
}

/// Puts `parts` in a row, one space between each two of them.
pub fn join_with_spaces(parts: &[String]) -> (line: String)
    ensures
        line@ == joined_with(texts(parts@), seq![' ']),
{
    proof {
        reveal_strlit(" ");
        assert(" "@ =~= seq![' ']);
        is_ascii_chars_encode_utf8(" "@);
        assert(" ".len() == 1);
    }
    join(parts, " ")
}

/// Puts each of `escaped` between double quotes and the results in a row, one space
/// between each two.
pub fn quote_escaped(escaped: &[String]) -> (line: String)
    ensures
        line@ == quoted_line(texts(escaped@)),
{
    let n = escaped.len();
    let mut parts: Vec<String> = Vec::new();
    let mut i: usize = 0;
    while i < n
        invariant
            n == escaped@.len(),
            i <= n,
            parts@.len() == i,
            forall|j: int| 0 <= j < i ==> (#[trigger] parts@[j])@ == quoted(escaped@[j]@),
        decreases n - i,
    {
        let mut part = "\"".to_owned();
        part.append(escaped[i].as_str());
        part.append("\"");
        proof {
            reveal_strlit("\"");
        }
        parts.push(part);
        i += 1;
    }
    assert(texts(parts@) =~= texts(escaped@).map_values(|e: Seq<char>| quoted(e)));
    join_with_spaces(parts.as_slice())
}

/// Shows `strings` as a row of quoted strings, one space between each two. Each string is
/// written as `str::escape_debug` writes it and stands between double quotes.
pub fn quote_strings(strings: &[String]) -> (line: String)
    ensures
        line@ == quoted_line(escaped_all(texts(strings@))),
{
    let n = strings.len();
    let mut escaped: Vec<String> = Vec::new();
    let mut i: usize = 0;
    while i < n
        invariant
            n == strings@.len(),
            i <= n,
            escaped@.len() == i,
            forall|j: int| 0 <= j < i ==> (#[trigger] escaped@[j])@ == escape_debug_of(strings@[j]@),
        decreases n - i,
    {
        escaped.push(escape_debug(strings[i].as_str()));
        i += 1;
    }
    assert(texts(escaped@) =~= escaped_all(texts(strings@)));
    quote_escaped(escaped.as_slice())
}

/// The number of bytes of the longest of `names` written as UTF-8; 0 where there are none.
pub open spec fn longest(names: Seq<Seq<char>>) -> nat
    decreases names.len(),
{
    if names.len() == 0 {
        0
    } else {
        let before = longest(names.drop_last());
        let last = encode_utf8(names.last()).len();
        if before >= last {
            before
        } else {
            last
        }
    }
}

/// None of `names` is longer than the longest, and one of them is that long.
pub proof fn lemma_longest(names: Seq<Seq<char>>)
    ensures
        forall|i: int| 0 <= i < names.len() ==> encode_utf8(#[trigger] names[i]).len() <= longest(names),
        names.len() > 0 ==> exists|i: int|
            0 <= i < names.len() && encode_utf8(#[trigger] names[i]).len() == longest(names),
    decreases names.len(),
{
    if names.len() > 0 {
        let init = names.drop_last();
        lemma_longest(init);
        assert forall|i: int| 0 <= i < names.len() implies encode_utf8(#[trigger] names[i]).len()
            <= longest(names) by {
            if i < init.len() {
                assert(init[i] == names[i]);
            }
        }
        if longest(names) == encode_utf8(names.last()).len() {
            assert(names[names.len() - 1] == names.last());
        } else {
            let i = choose|i: int|
                0 <= i < init.len() && encode_utf8(#[trigger] init[i]).len() == longest(init);
            assert(init[i] == names[i]);
        }
    }
}

/// The length in bytes of the longest name of `map`; 0 where it has none.
pub fn max_key_len<T>(map: &NameMap<T>) -> (len: usize)
    ensures
        len == longest(map.names()),
{
    let n = map.len();
    let mut len: usize = 0;
    let mut i: usize = 0;
    while i < n
        invariant
            n == map.names().len(),
            i <= n,
            len == longest(map.names().take(i as int)),
        decreases n - i,
    {
        let key_len = map.key_at(i).as_str().as_bytes().len();
        assert(map.names().take(i + 1).drop_last() =~= map.names().take(i as int));
        if key_len > len {
            len = key_len;
        }
        i += 1;
    }
    assert(map.names().take(n as int) =~= map.names());
    len
}

/// `text` with spaces behind it up to `width` characters; a text that has that many is
/// left as it is.
pub open spec fn padded(text: Seq<char>, width: nat) -> Seq<char> {
    if text.len() >= width {
        text
    } else {
        text + Seq::new((width - text.len()) as nat, |i: int| ' ')
    }
}

/// Fills `text` up with spaces to `width` characters.
pub fn pad(text: &str, width: usize) -> (filled: String)
    ensures
        filled@ == padded(text@, width as nat),
{
    let mut filled = text.to_owned();
    let mut count = text.unicode_len();
    if count >= width {
        return filled;
    }
    let ghost start = count;
    while count < width
        invariant
            start == text@.len(),
            start <= count <= width,
            filled@ == text@ + Seq::new((count - start) as nat, |i: int| ' '),
        decreases width - count,
    {
        filled.append(" ");
        proof {
            reveal_strlit(" ");
        }
        count += 1;
    }
    filled
}

/// The line of one entry: the prefix, the name filled up to `width`, and behind ` : ` the
/// values as a row of quoted strings.
pub open spec fn entry_line(
    prefix: Seq<char>,
    name: Seq<char>,
    width: nat,
    values: Seq<Seq<char>>,
) -> Seq<char> {
    prefix + padded(name, width) + " : "@ + quoted_line(escaped_all(values))
}

/// The lines of a table: one line for each name, in the order of `names`, the names
/// filled up to the length of the longest; a table without entries is shown as `<n/a>`.
pub open spec fn table_lines(
    prefix: Seq<char>,
    names: Seq<Seq<char>>,
    values: Map<Seq<char>, Seq<Seq<char>>>,
) -> Seq<Seq<char>> {
    if names.len() == 0 {
        seq![prefix + "<n/a>"@]
    } else {
        Seq::new(
            names.len(),
            |i: int| entry_line(prefix, names[i], longest(names), values[names[i]]),
        )
    }
}

/// One line of a table.
fn entry(prefix: &str, name: &str, width: usize, values: &[String]) -> (line: String)
    ensures
        line@ == entry_line(prefix@, name@, width as nat, texts(values@)),
{
    let mut line = prefix.to_owned();
    line.append(pad(name, width).as_str());
    line.append(" : ");
    line.append(quote_strings(values).as_str());
    line
}

/// The line that stands for a table without entries.
fn no_entries(prefix: &str) -> (line: String)
    ensures
        line@ == prefix@ + "<n/a>"@,
{
    let mut line = prefix.to_owned();
    line.append("<n/a>");
    line
}

/// The lines that show the parameters of one position, each line behind `prefix`: for
/// each parameter its name and its templates, in the order of the names.
pub fn list_param_configs(prefix: &str, param_configs: &ParamConfigs) -> (lines: Vec<String>)
    ensures
        texts(lines@) == table_lines(prefix@, param_configs.names(), param_views(*param_configs)),
{
    let mut lines: Vec<String> = Vec::new();
    if param_configs.is_empty() {
        lines.push(no_entries(prefix));
        return lines;
    }
    let max_name_len = max_key_len(param_configs);
    let n = param_configs.len();
    let mut i: usize = 0;
    while i < n
        invariant
            n == param_configs.names().len(),
            max_name_len == longest(param_configs.names()),
            i <= n,
            lines@.len() == i,
            forall|j: int|
                0 <= j < i ==> (#[trigger] lines@[j])@ == entry_line(
                    prefix@,
                    param_configs.names()[j],
                    longest(param_configs.names()),
                    param_views(*param_configs)[param_configs.names()[j]],
                ),
        decreases n - i,
    {
        let name = param_configs.key_at(i);
        let def = param_configs.value_at(i);
        lines.push(entry(prefix, name.as_str(), max_name_len, def.strings()));
        i += 1;
    }
    lines
}

/// The words that each command stands for, by command name.
pub open spec fn base_views(configs: CommandConfigs) -> Map<Seq<char>, Seq<Seq<char>>> {
    configs@.map_values(|command: CommandConfig| command@.base)
}

/// The lines that show the commands that are defined: a heading, and for each command
/// its name and the words it stands for, in the order of the names.
pub fn list_commands(configs: &CommandConfigs) -> (lines: Vec<String>)
    ensures
        texts(lines@) == seq!["defined commands:"@] + table_lines(
            "  "@,
            configs.names(),
            base_views(*configs),
        ),
{
    let mut lines: Vec<String> = Vec::new();
    lines.push("defined commands:".to_owned());
    if configs.is_empty() {
        lines.push(no_entries("  "));
        return lines;
    }
    let max_command_len = max_key_len(configs);
    let n = configs.len();
    let mut i: usize = 0;
    while i < n
        invariant
            n == configs.names().len(),
            max_command_len == longest(configs.names()),
            i <= n,
            lines@.len() == i + 1,
            lines@[0]@ == "defined commands:"@,
            forall|j: int|
                0 <= j < i ==> (#[trigger] lines@[j + 1])@ == entry_line(
                    "  "@,
                    configs.names()[j],
                    longest(configs.names()),
                    base_views(*configs)[configs.names()[j]],
                ),
        decreases n - i,
    {
        let command = configs.key_at(i);
        let config = configs.value_at(i);
        lines.push(entry("  ", command.as_str(), max_command_len, config.base.as_slice()));
        i += 1;
    }
    proof {
        let want = seq!["defined commands:"@] + table_lines(
            "  "@,
            configs.names(),
            base_views(*configs),
        );
        assert forall|j: int| 0 <= j < want.len() implies texts(lines@)[j] == want[j] by {
            if j > 0 {
                assert(lines@[(j - 1) + 1]@ == want[j]);
            }
        }
    }
    lines
}

/// The lines that show the definition of one command: its name, the words it stands for,
/// the placeholder that holds for it, and the parameters of each position.
pub open spec fn detail_lines(default: DefaultView, name: Seq<char>, command: CommandConfig) -> Seq<
    Seq<char>,
> {
    seq![
        "command `"@ + name + "`:"@,
        "  base: "@ + quoted_line(escaped_all(command@.base)),
        "  placeholder: "@ + effective_placeholder(default, command@),
        "  headparams:"@,
    ] + table_lines("    "@, command.headparams.names(), command@.headparams) + seq![
        "  middleparams:"@,
    ] + table_lines("    "@, command.middleparams.names(), command@.middleparams) + seq![
        "  tailparams:"@,
    ] + table_lines("    "@, command.tailparams.names(), command@.tailparams)
}

/// Puts `more` behind `lines`.
fn push_lines(lines: &mut Vec<String>, more: Vec<String>)
    ensures
        texts(final(lines)@) == texts(old(lines)@) + texts(more@),
{
    let mut more = more;
    lines.append(&mut more);
}

/// The lines that show the definition of the command `command`, or nothing where the
/// configuration has no command of that name.
pub fn command_detail(config: &Config, command: &str) -> (detail: Option<Vec<String>>)
    ensures
        match detail {
            Some(lines) => config.command@.contains_key(command@) && texts(lines@) == detail_lines(
                config.default@,
                command@,
                config.command@[command@],
            ),
            None => !config.command@.contains_key(command@),
        },
{
    let command_config = match config.command.get(command) {
        Some(command_config) => command_config,
        None => {
            return None;
        },
    };
    let mut lines: Vec<String> = Vec::new();

    let mut heading = "command `".to_owned();
    heading.append(command);
    heading.append("`:");
    lines.push(heading);

    let mut base = "  base: ".to_owned();
    base.append(quote_strings(command_config.base.as_slice()).as_str());
    lines.push(base);

    let no_setting: Option<String> = None;
    let placeholder = compose_value(
        &config.default.placeholder,
        &command_config.placeholder,
        &no_setting,
    );
    let mut holder = "  placeholder: ".to_owned();
    holder.append(placeholder.as_str());
    lines.push(holder);

    lines.push("  headparams:".to_owned());
    let ghost top = texts(lines@);
    push_lines(&mut lines, list_param_configs("    ", &command_config.headparams));
    lines.push("  middleparams:".to_owned());
    let ghost upper = texts(lines@);
    push_lines(&mut lines, list_param_configs("    ", &command_config.middleparams));
    lines.push("  tailparams:".to_owned());
    let ghost lower = texts(lines@);
    push_lines(&mut lines, list_param_configs("    ", &command_config.tailparams));
    proof {
        let head = table_lines(
            "    "@,
            command_config.headparams.names(),
            command_config@.headparams,
        );
        let middle = table_lines(
            "    "@,
            command_config.middleparams.names(),
            command_config@.middleparams,
        );
        assert(upper =~= top + head + seq!["  middleparams:"@]);
        assert(lower =~= upper + middle + seq!["  tailparams:"@]);
    }
    Some(lines)
}

} // verus!
