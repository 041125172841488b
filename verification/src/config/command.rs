//! Command definitions: the words a command stands for and the parameters it takes.

use crate::config::parameter::{ParamConfigs, ParamDef};
use crate::util::cstring::{are_texts_nul_free, texts_nul_free};
use crate::util::name_map::NameMap;
use crate::util::text::texts;
use crate::util::value::SingleOrVec;
use vstd::prelude::*;

verus! {

/// The command definitions, by command name.
pub type CommandConfigs = NameMap<CommandConfig>;

/// The templates of each parameter of a table, by parameter name.
pub open spec fn param_views(table: ParamConfigs) -> Map<Seq<char>, Seq<Seq<char>>> {
    table@.map_values(|def: ParamDef| def@)
}

/// No template of any parameter holds the NUL character.
pub open spec fn params_nul_free(params: Map<Seq<char>, Seq<Seq<char>>>) -> bool {
    forall|name: Seq<char>| params.contains_key(name) ==> texts_nul_free(#[trigger] params[name])
}

/// What a [`CommandConfig`] holds, as plain values.
pub struct CommandView {
    pub base: Seq<Seq<char>>,
    pub placeholder: Option<Seq<char>>,
    pub headparams: Map<Seq<char>, Seq<Seq<char>>>,
    pub middleparams: Map<Seq<char>, Seq<Seq<char>>>,
    pub tailparams: Map<Seq<char>, Seq<Seq<char>>>,
}

impl CommandView {
    /// The definition of a command that is run under its own name: the name is all it
    /// stands for, and it takes no parameters.
    pub open spec fn empty_for(name: Seq<char>) -> CommandView {
        CommandView {
            base: seq![name],
            placeholder: None,
            headparams: Map::empty(),
            middleparams: Map::empty(),
            tailparams: Map::empty(),
        }
    }

    /// The definition can be made into a command line: it names an executable, and NUL
    /// stands nowhere in its words and templates.
    pub open spec fn valid(self) -> bool {
        &&& self.base.len() >= 1
        &&& texts_nul_free(self.base)
        &&& params_nul_free(self.headparams)
        &&& params_nul_free(self.middleparams)
        &&& params_nul_free(self.tailparams)
    }
}

/// The definition of one command.
#[derive(Debug)]
pub struct CommandConfig {
    /// The executable and the arguments that always follow it. The first word is the
    /// executable, so there must be one.
    pub base: SingleOrVec<String>,
    /// The placeholder of this command, where it has one of its own.
    pub placeholder: Option<String>,
    /// The parameters whose arguments go right behind the executable.
    pub headparams: ParamConfigs,
    /// The parameters whose arguments go behind the fixed words.
    pub middleparams: ParamConfigs,
    /// The parameters whose arguments go last.
    pub tailparams: ParamConfigs,
}

impl View for CommandConfig {
    type V = CommandView;

    open spec fn view(&self) -> CommandView {
        CommandView {
            base: texts(self.base.as_seq()),
            placeholder: match self.placeholder {
                Some(p) => Some(p@),
                None => None,
            },
            headparams: param_views(self.headparams),
            middleparams: param_views(self.middleparams),
            tailparams: param_views(self.tailparams),
        }
    }
}

/// Whether no template of any parameter of `table` holds the NUL character.
fn are_params_nul_free(table: &ParamConfigs) -> (free: bool)
    ensures
        free == params_nul_free(param_views(*table)),
{
    let n = table.len();
    let mut i: usize = 0;
    while i < n
        invariant
            n == table.names().len(),
            i <= n,
            forall|name: Seq<char>| table@.contains_key(name) <==> table.names().contains(name),
            forall|j: int|
                0 <= j < i ==> texts_nul_free(#[trigger] param_views(*table)[table.names()[j]]),
        decreases n - i,
    {
        let def = table.value_at(i);
        if !are_texts_nul_free(def.strings()) {
            assert(!texts_nul_free(param_views(*table)[table.names()[i as int]]));
            return false;
        }
        i += 1;
    }
    proof {
        assert forall|name: Seq<char>| param_views(*table).contains_key(name) implies texts_nul_free(
            #[trigger] param_views(*table)[name],
        ) by {
            assert(table.names().contains(name));
            let j = choose|j: int| 0 <= j < table.names().len() && table.names()[j] == name;
            assert(texts_nul_free(param_views(*table)[table.names()[j]]));
        }
    }
    true
}

impl CommandConfig {
    /// The definition of a command that is run under its own name, `name`.
    pub fn empty_for(name: &str) -> (command: Self)
        ensures
            command@ == CommandView::empty_for(name@),
            command.base is Single,
    {
        let command = CommandConfig {
            base: SingleOrVec::Single(name.to_owned()),
            placeholder: None,
            headparams: NameMap::new(),
            middleparams: NameMap::new(),
            tailparams: NameMap::new(),
        };
        proof {
            assert(command@.base =~= seq![name@]);
            assert(command@.tailparams =~= Map::empty());
        }
        command
    }

    /// Whether the definition can be made into a command line.
    pub fn is_valid(&self) -> (valid: bool)
        ensures
            valid == self@.valid(),
    {
        self.base.len() >= 1 && are_texts_nul_free(self.base.as_slice()) && are_params_nul_free(
            &self.headparams,
        ) && are_params_nul_free(&self.middleparams) && are_params_nul_free(&self.tailparams)
    }
}

} // verus!
