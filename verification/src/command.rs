//! Commands: functions, registered by name, that a pattern string calls with its parameters to produce text.

use crate::error::{CommandError, CommandErrorView};
use crate::values::{str_eq, value_view, PlaceholderValue, ValueView};
use vstd::prelude::*;

verus! {

/// The parameters as values of [`ValueView`].
pub open spec fn parameter_views(parameters: Seq<PlaceholderValue>) -> Seq<ValueView> {
    parameters.map_values(|p: PlaceholderValue| value_view(p))
}

/// A command's result, its text or its error taken by its view.
pub open spec fn outcome_view(result: Result<String, CommandError>) -> Result<Seq<char>, CommandErrorView> {
    match result {
        Ok(s) => Ok(s@),
        Err(e) => Err(e@),
    }
}

/// A command: from its parameters (the first is the command's own identifier) to its text.
pub trait Command {
    /// What the command gives for the parameters.
    spec fn outcome(&self, parameters: Seq<ValueView>) -> Result<Seq<char>, CommandErrorView>;

    /// Runs the command with the parameters; it gives what [`Command::outcome`] states.
    fn call(&self, parameters: Vec<PlaceholderValue>) -> (result: Result<String, CommandError>)
        ensures
            outcome_view(result) == self.outcome(parameter_views(parameters@)),
    ;
}

/// Position `i` holds the first command named `name`.
pub open spec fn is_first(names: Seq<Seq<char>>, name: Seq<char>, i: int) -> bool {
    &&& 0 <= i < names.len()
    &&& names[i] == name
    &&& forall|k: int| 0 <= k < i ==> names[k] != name
}

/// The names of the registered commands, in order of registration.
pub open spec fn command_names<C>(entries: Seq<(String, C)>) -> Seq<Seq<char>> {
    entries.map_values(|e: (String, C)| e.0@)
}

/// A registry of commands of type `C`, by name.
pub struct CommandRegistry<C> {
    registry: Vec<(String, C)>,
}

impl<C: Command> CommandRegistry<C> {
    /// The names of the registered commands, in order of registration.
    pub closed spec fn names(&self) -> Seq<Seq<char>> {
        command_names(self.registry@)
    }

    /// The registered commands, in order of registration.
    pub closed spec fn commands(&self) -> Seq<C> {
        self.registry@.map_values(|e: (String, C)| e.1)
    }

    /// Creates an empty registry.
    pub fn new() -> (result: Self)
        ensures
            result.names() == Seq::<Seq<char>>::empty(),
            result.commands() == Seq::<C>::empty(),
    {
        let result = CommandRegistry { registry: Vec::new() };
        assert(result.names() =~= Seq::<Seq<char>>::empty());
        assert(result.commands() =~= Seq::<C>::empty());
        result
    }

    /// The position of the command named `command`, if registered.
    fn position(&self, command: &str) -> (result: Option<usize>)
        ensures
            match result {
                Some(i) => is_first(self.names(), command@, i as int),
                None => !self.names().contains(command@),
            },
    {
        let mut i: usize = 0;
        while i < self.registry.len()
            invariant
                0 <= i <= self.registry.len(),
                self.names().len() == self.registry@.len(),
                forall|k: int| 0 <= k < i ==> self.names()[k] != command@,
            decreases self.registry.len() - i,
        {
            if str_eq(self.registry[i].0.as_str(), command) {
                return Some(i);
            }
            i = i + 1;
        }
        None
    }

    /// The number of names is the number of commands.
    pub proof fn lemma_lengths(&self)
        ensures
            self.names().len() == self.commands().len(),
    {
    }

    /// Registers the command under the name `command`; fails with `AlreadyExists` if the name is registered,
    /// leaving the registry as it is.
    pub fn insert(&mut self, command: &str, function: C) -> (result: Result<(), CommandError>)
        ensures
            old(self).names().contains(command@) ==> (result matches Err(e) && e@
                == CommandErrorView::AlreadyExists(command@)) && final(self).names() == old(self).names()
                && final(self).commands() == old(self).commands(),
            !old(self).names().contains(command@) ==> result is Ok && final(self).names() == old(
                self,
            ).names().push(command@) && final(self).commands() == old(self).commands().push(function),
    {
        if self.position(command).is_some() {
            return Err(CommandError::AlreadyExists(command.to_owned()));
        }
        let ghost before = self.registry@;
        self.registry.push((command.to_owned(), function));
        assert(self.names() =~= command_names(before).push(command@));
        assert(self.commands() =~= before.map_values(|e: (String, C)| e.1).push(function));
        Ok(())
    }

    /// The command registered under the name `command`; fails with `NotFound` if it is not registered.
    pub fn command(&self, command: &str) -> (result: Result<&C, CommandError>)
        ensures
            !self.names().contains(command@) ==> (result matches Err(e) && e@
                == CommandErrorView::NotFound(command@)),
            self.names().contains(command@) ==> result is Ok,
            forall|i: int| is_first(self.names(), command@, i) ==> (result matches Ok(r) && *r == self.commands()[i]),
    {
        match self.position(command) {
            Some(i) => {
                proof {
                    assert forall|j: int| is_first(self.names(), command@, j) implies j == i as int by {
                        if j < i {
                            assert(self.names()[j] != command@);
                        }
                        if i < j {
                            assert(self.names()[i as int] != command@);
                        }
                    }
                }
                Ok(&self.registry[i].1)
            },
            None => Err(CommandError::NotFound(command.to_owned())),
        }
    }

    /// Whether the command `command` is registered.
    pub fn contains(&self, command: &str) -> (result: bool)
        ensures
            result == self.names().contains(command@),
    {
        self.position(command).is_some()
    }

    /// Runs the command named `command` with the parameters: fails with `NotFound` if it is not registered,
    /// and otherwise gives what the registered command gives for them.
    pub fn run(&self, command: &str, parameters: Vec<PlaceholderValue>) -> (result: Result<String, CommandError>)
        ensures
            !self.names().contains(command@) ==> (result matches Err(e) && e@
                == CommandErrorView::NotFound(command@)),
            forall|i: int|
                is_first(self.names(), command@, i) ==> outcome_view(result) == self.commands()[i].outcome(
                    parameter_views(parameters@),
                ),
    {
        match self.command(command) {
            Ok(c) => c.call(parameters),
            Err(e) => Err(e),
        }
    }

    /// The names of the registered commands.
    pub fn list(&self) -> (result: Vec<String>)
        ensures
            result@.map_values(|s: String| s@) == self.names(),
    {
        let mut result: Vec<String> = Vec::new();
        let mut i: usize = 0;
        while i < self.registry.len()
            invariant
                0 <= i <= self.registry.len(),
                self.names().len() == self.registry@.len(),
                result@.map_values(|s: String| s@) == self.names().take(i as int),
            decreases self.registry.len() - i,
        {
            let ghost before = result@;
            result.push(self.registry[i].0.clone());
            assert(result@.map_values(|s: String| s@) =~= before.map_values(|s: String| s@).push(
                self.names()[i as int],
            ));
            assert(self.names().take(i + 1) =~= self.names().take(i as int).push(self.names()[i as int]));
            i = i + 1;
        }
        assert(self.names().take(self.registry@.len() as int) =~= self.names());
        result
    }
}

/// The string of a parameter, if it is a string.
pub open spec fn parameter_string(p: ValueView) -> Option<Seq<char>> {
    match p {
        ValueView::String(s) => Some(s),
        _ => None,
    }
}

/// The article, "a" or "an", for the word: "an" before a word that starts with one of the vowels a, e, i, o, u.
pub open spec fn article_for(word: Seq<char>) -> Seq<char> {
    if word[0] == 'a' || word[0] == 'e' || word[0] == 'i' || word[0] == 'o' || word[0] == 'u' {
        "an"@
    } else {
        "a"@
    }
}

/// The English article of a word is "an" exactly when the word begins with one of the vowels a, e, i, o and u,
/// and "a" otherwise.
pub proof fn lemma_article_vowels(word: Seq<char>)
    requires
        word.len() > 0,
    ensures
        article_for(word) == "an"@ || article_for(word) == "a"@,
        article_for(word) == "an"@ <==> set!['a', 'e', 'i', 'o', 'u'].contains(word[0]),
        article_for(word) == "a"@ <==> !set!['a', 'e', 'i', 'o', 'u'].contains(word[0]),
{
    reveal_strlit("an");
    reveal_strlit("a");
    assert("an"@.len() != "a"@.len());
}

/// The outcome of a command with the standard parameter checks: the command identifier is the first parameter,
/// a string; the second parameter is a string.
pub open spec fn checked_parameters(parameters: Seq<ValueView>) -> Result<Seq<char>, CommandErrorView> {
    if parameter_string(parameters[0]) is None {
        Err(CommandErrorView::InvalidType("command identifier"@, 0))
    } else if parameters.len() < 2 {
        Err(CommandErrorView::ParameterMissing(parameter_string(parameters[0]).unwrap(), 1))
    } else if parameter_string(parameters[1]) is None {
        Err(CommandErrorView::InvalidType(parameter_string(parameters[0]).unwrap(), 1))
    } else {
        Ok(parameter_string(parameters[1]).unwrap())
    }
}

/// What [`BuiltinCommand::FilePath`] gives: a missing parameter for no parameter, else the checked path.
pub open spec fn file_path_outcome(parameters: Seq<ValueView>) -> Result<Seq<char>, CommandErrorView> {
    if parameters.len() == 0 {
        Err(CommandErrorView::ParameterMissing(Seq::empty(), 0))
    } else {
        checked_parameters(parameters)
    }
}

/// What [`BuiltinCommand::EnglishAOrAn`] gives: a missing parameter for no parameter or an empty word, else
/// the article for the checked word.
pub open spec fn article_outcome(parameters: Seq<ValueView>) -> Result<Seq<char>, CommandErrorView> {
    if parameters.len() == 0 {
        Err(CommandErrorView::ParameterMissing(Seq::empty(), 0))
    } else {
        match checked_parameters(parameters) {
            Ok(word) => if word.len() == 0 {
                Err(CommandErrorView::ParameterMissing(parameter_string(parameters[0]).unwrap(), 1))
            } else {
                Ok(article_for(word))
            },
            Err(e) => Err(e),
        }
    }
}

/// Checks the parameters as [`checked_parameters`] states, and returns the second parameter.
fn check_parameters(parameters: &Vec<PlaceholderValue>) -> (result: Result<&String, CommandError>)
    requires
        parameters@.len() > 0,
    ensures
        match checked_parameters(parameter_views(parameters@)) {
            Ok(s) => result matches Ok(r) && r@ == s,
            Err(e) => result matches Err(err) && err@ == e,
        },
{
    let ghost views = parameter_views(parameters@);
    assert(views[0] == value_view(parameters@[0]));
    let command = match &parameters[0] {
        PlaceholderValue::String(string) => string,
        _ => return Err(CommandError::InvalidType("command identifier".to_string(), 0)),
    };
    if parameters.len() < 2 {
        return Err(CommandError::ParameterMissing(command.clone(), 1));
    }
    assert(views[1] == value_view(parameters@[1]));
    match &parameters[1] {
        PlaceholderValue::String(string) => Ok(string),
        _ => Err(CommandError::InvalidType(command.clone(), 1)),
    }
}

/// The English indefinite article for the second parameter: "an" if it starts with a, e, i, o or u, else "a".
///
/// The first parameter is the command identifier, a string; the second must be a non-empty string.
pub fn english_a_or_an(parameters: Vec<PlaceholderValue>) -> (result: Result<String, CommandError>)
    requires
        parameters@.len() > 0,
        checked_parameters(parameter_views(parameters@)) matches Ok(word) ==> word.len() > 0,
    ensures
        match checked_parameters(parameter_views(parameters@)) {
            Ok(word) => result matches Ok(r) && r@ == article_for(word),
            Err(e) => result matches Err(err) && err@ == e,
        },
{
    let string = check_parameters(&parameters)?;
    let first = string.as_str().get_char(0);
    proof {
        reveal_strlit("an");
        reveal_strlit("a");
    }
    if first == 'a' || first == 'e' || first == 'i' || first == 'o' || first == 'u' {
        Ok("an".to_string())
    } else {
        Ok("a".to_string())
    }
}

/// Calls `PathBuf::from(path).display().to_string()`: the path's display form. A path made from a `str` holds
/// only Unicode text, which `Path::display` writes as it is (it is lossy only for data that is not Unicode), so
/// the result is the text of `path`.
#[verifier::external_body]
fn path_display(path: &str) -> (result: String)
    ensures
        result@ == path@,
{
    std::path::PathBuf::from(path).display().to_string()
}

/// The second parameter as a file path, in its display form: the path text.
///
/// The first parameter is the command identifier, a string; the second must be a string.
pub fn file_path(parameters: Vec<PlaceholderValue>) -> (result: Result<String, CommandError>)
    requires
        parameters@.len() > 0,
    ensures
        match checked_parameters(parameter_views(parameters@)) {
            Ok(path) => result matches Ok(r) && r@ == path,
            Err(e) => result matches Err(err) && err@ == e,
        },
{
    let string = check_parameters(&parameters)?;
    Ok(path_display(string.as_str()))
}

/// The commands of this library: [`file_path`] and [`english_a_or_an`].
#[derive(Debug, Clone, Copy, PartialEq, Eq, Structural)]
pub enum BuiltinCommand {
    FilePath,
    EnglishAOrAn,
}

impl Command for BuiltinCommand {
    /// [`file_path_outcome`] for `FilePath`, [`article_outcome`] for `EnglishAOrAn`.
    open spec fn outcome(&self, parameters: Seq<ValueView>) -> Result<Seq<char>, CommandErrorView> {
        match *self {
            BuiltinCommand::FilePath => file_path_outcome(parameters),
            BuiltinCommand::EnglishAOrAn => article_outcome(parameters),
        }
    }

    /// Runs the command; with no parameter, or for `english_a_or_an` an empty word, a parameter is missing.
    fn call(&self, parameters: Vec<PlaceholderValue>) -> (result: Result<String, CommandError>) {
        match self {
            BuiltinCommand::FilePath => run_file_path(parameters),
            BuiltinCommand::EnglishAOrAn => run_english_a_or_an(parameters),
        }
    }
}

/// Runs [`english_a_or_an`], with a missing parameter for no parameter or an empty word.
fn run_english_a_or_an(parameters: Vec<PlaceholderValue>) -> (result: Result<String, CommandError>)
    ensures
        outcome_view(result) == article_outcome(parameter_views(parameters@)),
{
    if parameters.len() == 0 {
        return Err(CommandError::ParameterMissing(String::new(), 0));
    }
    let ghost views = parameter_views(parameters@);
    assert(views[0] == value_view(parameters@[0]));
    if let Ok(word) = check_parameters(&parameters) {
        if word.as_str().unicode_len() == 0 {
            let command = match &parameters[0] {
                PlaceholderValue::String(command) => command.clone(),
                _ => String::new(),
            };
            return Err(CommandError::ParameterMissing(command, 1));
        }
    }
    english_a_or_an(parameters)
}

/// Runs [`file_path`], with a missing parameter for no parameter.
fn run_file_path(parameters: Vec<PlaceholderValue>) -> (result: Result<String, CommandError>)
    ensures
        outcome_view(result) == file_path_outcome(parameter_views(parameters@)),
{
    if parameters.len() == 0 {
        return Err(CommandError::ParameterMissing(String::new(), 0));
    }
    file_path(parameters)
}

} // verus!
