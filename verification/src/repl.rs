//! The command dispatcher: a registry mapping command names to handlers,
//! a shared state value threaded through every invocation, and the
//! per-line routing rules. The entry registered under the empty-string
//! name is the fallback handler, invoked when the first token matches no
//! registered name.
//!
//! Reading the input stream and printing belong to the caller: one
//! iteration of the loop is [`Repl::handle_line`], which tokenizes the
//! raw line, routes it, invokes at most one handler, and says through
//! [`Outcome`] what to print and whether to stop.

use vstd::prelude::*;

use crate::registry::{
    find_key, insert_entry, lemma_reg_index, reg_handler, reg_has, reg_index, reg_view, reg_wf,
};
use crate::utils::{tokens_of, ws_tokens, ParseError};

verus! {

/// A command handler: arbitrary user code invoked with exclusive access
/// to the shared state and the argument tokens of the line.
pub trait Handler<T> {
    fn invoke(&self, state: &mut T, args: Vec<String>);
}

/// A tokenizer for raw input lines.
pub trait Parser {
    fn parse(&self, line: String) -> Result<Vec<String>, ParseError>;
}

/// The default tokenizer: the quote- and escape-aware [`crate::parse`].
#[derive(Clone, Copy, Debug)]
pub struct QuoteParser;

impl Parser for QuoteParser {
    fn parse(&self, line: String) -> (r: Result<Vec<String>, ParseError>)
        ensures
            match r {
                Ok(v) => tokens_of(line@) == Ok::<Seq<Seq<char>>, ParseError>(v.deep_view())
                    && v@.len() > 0,
                Err(e) => tokens_of(line@) == Err::<Seq<Seq<char>>, ParseError>(e),
            },
    {
        crate::utils::parse(line)
    }
}

/// The earlier tokenizer: a plain split at runs of ASCII whitespace,
/// with no quoting and no escapes. It never fails.
#[derive(Clone, Copy, Debug)]
pub struct WhitespaceParser;

impl Parser for WhitespaceParser {
    fn parse(&self, line: String) -> (r: Result<Vec<String>, ParseError>)
        ensures
            r matches Ok(v) && v.deep_view() == ws_tokens(line@),
    {
        Ok(crate::utils::split_whitespace(line))
    }
}

/// A token sequence that names no command: empty, or made of empty
/// tokens only, as a blank line tokenizes to.
pub open spec fn no_command(ts: Seq<Seq<char>>) -> bool {
    ts.len() == 0 || (forall|i: int| 0 <= i < ts.len() ==> (#[trigger] ts[i]).len() == 0)
}

/// The concatenation of all tokens, with no separators: what the exit
/// command is compared against.
pub open spec fn concat_all(ts: Seq<Seq<char>>) -> Seq<char>
    decreases ts.len(),
{
    if ts.len() == 0 {
        Seq::empty()
    } else {
        concat_all(ts.drop_last()) + ts.last()
    }
}

/// How one token sequence is routed: at most one handler fires.
#[derive(Debug)]
pub enum Action {
    /// No command was given: print the empty-argument message.
    Empty,
    /// The exit command was given: print the exit message and stop.
    Exit,
    /// Invoke the handler of the registry entry at `index` with `args`.
    Call { index: usize, args: Vec<String> },
    /// The first token matches no entry and no fallback is registered:
    /// print the unknown-command message.
    Unknown,
}

/// What one loop iteration asks of its caller.
#[derive(Debug)]
pub enum Outcome {
    /// The exit command was seen: print this message and stop the loop.
    Exit(String),
    /// Print this message and continue the loop.
    Message(String),
    /// A handler was invoked; continue the loop.
    Handled,
    /// The line could not be tokenized; report it and continue the loop.
    ParseFailed(ParseError),
}

/// The dispatcher: shared state, configuration, and the handler registry.
#[derive(Debug, Clone)]
pub struct Repl<T, H, P> {
    /// The shared state handed to every handler.
    pub data: T,
    /// Printed, without a newline, before each read.
    prompt: String,
    /// The command that ends the loop.
    exit: String,
    /// Printed when the loop ends through the exit command.
    exit_message: String,
    /// Printed when a line holds no command.
    empty_argument_message: String,
    /// Printed when no entry matches and no fallback is registered.
    unknown_command_message: String,
    /// The command registry; keys are unique.
    pub(crate) functions: Vec<(String, H)>,
    /// The tokenizer applied to each raw line.
    parser: P,
}

impl<T, H, P> Repl<T, H, P> {
    /// The shared state, for contracts: the `data` field.
    pub closed spec fn spec_data(&self) -> T {
        self.data
    }

    /// The prompt, as a sequence of characters.
    pub closed spec fn spec_prompt(&self) -> Seq<char> {
        self.prompt@
    }

    /// The exit command, as a sequence of characters.
    pub closed spec fn spec_exit(&self) -> Seq<char> {
        self.exit@
    }

    /// The exit message, as a sequence of characters.
    pub closed spec fn spec_exit_message(&self) -> Seq<char> {
        self.exit_message@
    }

    /// The empty-argument message, as a sequence of characters.
    pub closed spec fn spec_empty_argument_message(&self) -> Seq<char> {
        self.empty_argument_message@
    }

    /// The unknown-command message, as a sequence of characters.
    pub closed spec fn spec_unknown_command_message(&self) -> Seq<char> {
        self.unknown_command_message@
    }

    /// The registry's abstract content.
    pub closed spec fn entries(&self) -> Seq<(Seq<char>, H)> {
        reg_view(self.functions@)
    }

    /// The tokenizer in use.
    pub closed spec fn spec_parser(&self) -> P {
        self.parser
    }

    /// Well-formedness: no two registry entries share a name.
    pub open spec fn wf(&self) -> bool {
        reg_wf(self.entries())
    }

    /// Whether two dispatchers share registry, configuration and
    /// tokenizer; the shared state may differ.
    pub open spec fn same_setup(&self, other: &Self) -> bool {
        &&& self.entries() == other.entries()
        &&& self.spec_prompt() == other.spec_prompt()
        &&& self.spec_exit() == other.spec_exit()
        &&& self.spec_exit_message() == other.spec_exit_message()
        &&& self.spec_empty_argument_message() == other.spec_empty_argument_message()
        &&& self.spec_unknown_command_message() == other.spec_unknown_command_message()
        &&& self.spec_parser() == other.spec_parser()
    }

    /// Takes the shared state and the registry out of the dispatcher,
    /// for the batch interpreter built from it.
    pub(crate) fn into_parts(self) -> (r: (T, Vec<(String, H)>))
        ensures
            r.0 == self.spec_data(),
            reg_view(r.1@) == self.entries(),
    {
        (self.data, self.functions)
    }

    /// The prompt, for the caller that prints it before each read.
    pub fn prompt(&self) -> (r: &str)
        ensures
            r@ == self.spec_prompt(),
    {
        self.prompt.as_str()
    }
}

impl<T, H> Repl<T, H, QuoteParser> {
    /// A dispatcher over `data` with the default configuration: prompt
    /// `">>>"`, exit command `"exit"`, exit message `"repl terminated"`,
    /// empty messages otherwise, an empty registry, and the default
    /// quote-aware tokenizer.
    pub fn new(data: T) -> (r: Self)
        ensures
            r.wf(),
            r.spec_data() == data,
            r.entries() == Seq::<(Seq<char>, H)>::empty(),
            r.spec_prompt() == ">>>"@,
            r.spec_exit() == "exit"@,
            r.spec_exit_message() == "repl terminated"@,
            r.spec_empty_argument_message() == Seq::<char>::empty(),
            r.spec_unknown_command_message() == Seq::<char>::empty(),
            r.spec_parser() == QuoteParser,
    {
        let r = Repl {
            data,
            prompt: String::from_str(">>>"),
            exit: String::from_str("exit"),
            exit_message: String::from_str("repl terminated"),
            empty_argument_message: String::new(),
            unknown_command_message: String::new(),
            functions: Vec::new(),
            parser: QuoteParser,
        };
        proof {
            assert(r.entries() =~= Seq::<(Seq<char>, H)>::empty());
        }
        r
    }
}

impl<T, H> Repl<T, H, WhitespaceParser> {
    /// As [`Repl::new`], but with the earlier whitespace-splitting
    /// tokenizer instead of the quote-aware one.
    pub fn new_with_depreciated_parser(data: T) -> (r: Self)
        ensures
            r.wf(),
            r.spec_data() == data,
            r.entries() == Seq::<(Seq<char>, H)>::empty(),
            r.spec_prompt() == ">>>"@,
            r.spec_exit() == "exit"@,
            r.spec_exit_message() == "repl terminated"@,
            r.spec_empty_argument_message() == Seq::<char>::empty(),
            r.spec_unknown_command_message() == Seq::<char>::empty(),
            r.spec_parser() == WhitespaceParser,
    {
        let r = Repl {
            data,
            prompt: String::from_str(">>>"),
            exit: String::from_str("exit"),
            exit_message: String::from_str("repl terminated"),
            empty_argument_message: String::new(),
            unknown_command_message: String::new(),
            functions: Vec::new(),
            parser: WhitespaceParser,
        };
        proof {
            assert(r.entries() =~= Seq::<(Seq<char>, H)>::empty());
        }
        r
    }
}

impl<T: Default, H> Default for Repl<T, H, QuoteParser> {
    /// As [`Repl::new`], over the state type's default value.
    fn default() -> (r: Self)
        ensures
            r.wf(),
            r.entries() == Seq::<(Seq<char>, H)>::empty(),
            r.spec_prompt() == ">>>"@,
            r.spec_exit() == "exit"@,
            r.spec_exit_message() == "repl terminated"@,
            r.spec_empty_argument_message() == Seq::<char>::empty(),
            r.spec_unknown_command_message() == Seq::<char>::empty(),
            r.spec_parser() == QuoteParser,
    {
        Repl::new(T::default())
    }
}

impl<T, H, P> Repl<T, H, P> {
    /// Registers `func` under `name`: a later registration for the same
    /// name overwrites the earlier handler, and other entries stay as
    /// they were. The name `""` registers the fallback handler. Not
    /// chainable; see [`Repl::with_function`] for the chainable form.
    pub fn add_function(&mut self, name: &str, func: H)
        requires
            old(self).wf(),
        ensures
            final(self).wf(),
            reg_has(final(self).entries(), name@),
            reg_handler(final(self).entries(), name@) == func,
            reg_has(old(self).entries(), name@) ==> final(self).entries() == old(self).entries().update(reg_index(old(self).entries(), name@), (name@, func)),
            !reg_has(old(self).entries(), name@) ==> final(self).entries() == old(self).entries().push((name@, func)),
            forall|k: Seq<char>|
                #![trigger reg_has(final(self).entries(), k)]
                #![trigger reg_has(old(self).entries(), k)]
                k != name@ ==> (reg_has(final(self).entries(), k) <==> reg_has(
                    old(self).entries(),
                    k,
                )),
            forall|k: Seq<char>|
                #![trigger reg_handler(final(self).entries(), k)]
                #![trigger reg_handler(old(self).entries(), k)]
                k != name@ && reg_has(old(self).entries(), k) ==> reg_handler(
                    final(self).entries(),
                    k,
                ) == reg_handler(old(self).entries(), k),
            final(self).spec_data() == old(self).spec_data(),
            final(self).spec_prompt() == old(self).spec_prompt(),
            final(self).spec_exit() == old(self).spec_exit(),
            final(self).spec_exit_message() == old(self).spec_exit_message(),
            final(self).spec_empty_argument_message() == old(self).spec_empty_argument_message(),
            final(self).spec_unknown_command_message() == old(self).spec_unknown_command_message(),
            final(self).spec_parser() == old(self).spec_parser(),
    {
        insert_entry(&mut self.functions, name.to_owned(), func);
    }

    /// Chainable form of [`Repl::add_function`].
    pub fn with_function(self, name: &str, func: H) -> (r: Self)
        requires
            self.wf(),
        ensures
            r.wf(),
            reg_has(r.entries(), name@),
            reg_handler(r.entries(), name@) == func,
            reg_has(self.entries(), name@) ==> r.entries() == self.entries().update(
                reg_index(self.entries(), name@),
                (name@, func),
            ),
            !reg_has(self.entries(), name@) ==> r.entries() == self.entries().push(
                (name@, func),
            ),
            forall|k: Seq<char>|
                #![trigger reg_has(r.entries(), k)]
                #![trigger reg_has(self.entries(), k)]
                k != name@ ==> (reg_has(r.entries(), k) <==> reg_has(self.entries(), k)),
            forall|k: Seq<char>|
                #![trigger reg_handler(r.entries(), k)]
                #![trigger reg_handler(self.entries(), k)]
                k != name@ && reg_has(self.entries(), k) ==> reg_handler(r.entries(), k)
                    == reg_handler(self.entries(), k),
            r.spec_data() == self.spec_data(),
            r.spec_prompt() == self.spec_prompt(),
            r.spec_exit() == self.spec_exit(),
            r.spec_exit_message() == self.spec_exit_message(),
            r.spec_empty_argument_message() == self.spec_empty_argument_message(),
            r.spec_unknown_command_message() == self.spec_unknown_command_message(),
            r.spec_parser() == self.spec_parser(),
    {
        let mut r = self;
        r.add_function(name, func);
        r
    }

    /// Replaces the shared state. Not chainable; see [`Repl::with_data`].
    pub fn set_data(&mut self, data: T)
        ensures
            final(self).spec_data() == data,
            final(self).entries() == old(self).entries(),
            final(self).spec_prompt() == old(self).spec_prompt(),
            final(self).spec_exit() == old(self).spec_exit(),
            final(self).spec_exit_message() == old(self).spec_exit_message(),
            final(self).spec_empty_argument_message() == old(self).spec_empty_argument_message(),
            final(self).spec_unknown_command_message() == old(self).spec_unknown_command_message(),
            final(self).spec_parser() == old(self).spec_parser(),
    {
        self.data = data;
    }

    /// Chainable form of [`Repl::set_data`].
    pub fn with_data(self, data: T) -> (r: Self)
        ensures
            r.spec_data() == data,
            r.entries() == self.entries(),
            r.spec_prompt() == self.spec_prompt(),
            r.spec_exit() == self.spec_exit(),
            r.spec_exit_message() == self.spec_exit_message(),
            r.spec_empty_argument_message() == self.spec_empty_argument_message(),
            r.spec_unknown_command_message() == self.spec_unknown_command_message(),
            r.spec_parser() == self.spec_parser(),
    {
        let mut r = self;
        r.set_data(data);
        r
    }

    /// Replaces the prompt. Not chainable; see [`Repl::with_prompt`].
    pub fn set_prompt(&mut self, prompt: &str)
        ensures
            final(self).spec_prompt() == prompt@,
            final(self).spec_data() == old(self).spec_data(),
            final(self).entries() == old(self).entries(),
            final(self).spec_exit() == old(self).spec_exit(),
            final(self).spec_exit_message() == old(self).spec_exit_message(),
            final(self).spec_empty_argument_message() == old(self).spec_empty_argument_message(),
            final(self).spec_unknown_command_message() == old(self).spec_unknown_command_message(),
            final(self).spec_parser() == old(self).spec_parser(),
    {
        self.prompt = prompt.to_owned();
    }

    /// Chainable form of [`Repl::set_prompt`].
    pub fn with_prompt(self, prompt: &str) -> (r: Self)
        ensures
            r.spec_prompt() == prompt@,
            r.spec_data() == self.spec_data(),
            r.entries() == self.entries(),
            r.spec_exit() == self.spec_exit(),
            r.spec_exit_message() == self.spec_exit_message(),
            r.spec_empty_argument_message() == self.spec_empty_argument_message(),
            r.spec_unknown_command_message() == self.spec_unknown_command_message(),
            r.spec_parser() == self.spec_parser(),
    {
        let mut r = self;
        r.set_prompt(prompt);
        r
    }

    /// Replaces the exit command. Not chainable; see
    /// [`Repl::with_exit_command`].
    pub fn set_exit_command(&mut self, exit_command: &str)
        ensures
            final(self).spec_exit() == exit_command@,
            final(self).spec_data() == old(self).spec_data(),
            final(self).entries() == old(self).entries(),
            final(self).spec_prompt() == old(self).spec_prompt(),
            final(self).spec_exit_message() == old(self).spec_exit_message(),
            final(self).spec_empty_argument_message() == old(self).spec_empty_argument_message(),
            final(self).spec_unknown_command_message() == old(self).spec_unknown_command_message(),
            final(self).spec_parser() == old(self).spec_parser(),
    {
        self.exit = exit_command.to_owned();
    }

    /// Chainable form of [`Repl::set_exit_command`].
    pub fn with_exit_command(self, exit_command: &str) -> (r: Self)
        ensures
            r.spec_exit() == exit_command@,
            r.spec_data() == self.spec_data(),
            r.entries() == self.entries(),
            r.spec_prompt() == self.spec_prompt(),
            r.spec_exit_message() == self.spec_exit_message(),
            r.spec_empty_argument_message() == self.spec_empty_argument_message(),
            r.spec_unknown_command_message() == self.spec_unknown_command_message(),
            r.spec_parser() == self.spec_parser(),
    {
        let mut r = self;
        r.set_exit_command(exit_command);
        r
    }

    /// Replaces the exit message. Not chainable; see
    /// [`Repl::with_exit_message`].
    pub fn set_exit_message(&mut self, exit_message: &str)
        ensures
            final(self).spec_exit_message() == exit_message@,
            final(self).spec_data() == old(self).spec_data(),
            final(self).entries() == old(self).entries(),
            final(self).spec_prompt() == old(self).spec_prompt(),
            final(self).spec_exit() == old(self).spec_exit(),
            final(self).spec_empty_argument_message() == old(self).spec_empty_argument_message(),
            final(self).spec_unknown_command_message() == old(self).spec_unknown_command_message(),
            final(self).spec_parser() == old(self).spec_parser(),
    {
        self.exit_message = exit_message.to_owned();
    }

    /// Chainable form of [`Repl::set_exit_message`].
    pub fn with_exit_message(self, exit_message: &str) -> (r: Self)
        ensures
            r.spec_exit_message() == exit_message@,
            r.spec_data() == self.spec_data(),
            r.entries() == self.entries(),
            r.spec_prompt() == self.spec_prompt(),
            r.spec_exit() == self.spec_exit(),
            r.spec_empty_argument_message() == self.spec_empty_argument_message(),
            r.spec_unknown_command_message() == self.spec_unknown_command_message(),
            r.spec_parser() == self.spec_parser(),
    {
        let mut r = self;
        r.set_exit_message(exit_message);
        r
    }

    /// Replaces the empty-argument message. Not chainable; see
    /// [`Repl::with_empty_argument_message`].
    pub fn set_empty_argument_message(&mut self, empty_argument_message: &str)
        ensures
            final(self).spec_empty_argument_message() == empty_argument_message@,
            final(self).spec_data() == old(self).spec_data(),
            final(self).entries() == old(self).entries(),
            final(self).spec_prompt() == old(self).spec_prompt(),
            final(self).spec_exit() == old(self).spec_exit(),
            final(self).spec_exit_message() == old(self).spec_exit_message(),
            final(self).spec_unknown_command_message() == old(self).spec_unknown_command_message(),
            final(self).spec_parser() == old(self).spec_parser(),
    {
        self.empty_argument_message = empty_argument_message.to_owned();
    }

    /// Chainable form of [`Repl::set_empty_argument_message`].
    pub fn with_empty_argument_message(self, empty_argument_message: &str) -> (r: Self)
        ensures
            r.spec_empty_argument_message() == empty_argument_message@,
            r.spec_data() == self.spec_data(),
            r.entries() == self.entries(),
            r.spec_prompt() == self.spec_prompt(),
            r.spec_exit() == self.spec_exit(),
            r.spec_exit_message() == self.spec_exit_message(),
            r.spec_unknown_command_message() == self.spec_unknown_command_message(),
            r.spec_parser() == self.spec_parser(),
    {
        let mut r = self;
        r.set_empty_argument_message(empty_argument_message);
        r
    }

    /// Replaces the unknown-command message. Not chainable; see
    /// [`Repl::with_unknown_command_message`].
    pub fn set_unknown_command_message(&mut self, unknown_command_message: &str)
        ensures
            final(self).spec_unknown_command_message() == unknown_command_message@,
            final(self).spec_data() == old(self).spec_data(),
            final(self).entries() == old(self).entries(),
            final(self).spec_prompt() == old(self).spec_prompt(),
            final(self).spec_exit() == old(self).spec_exit(),
            final(self).spec_exit_message() == old(self).spec_exit_message(),
            final(self).spec_empty_argument_message() == old(self).spec_empty_argument_message(),
            final(self).spec_parser() == old(self).spec_parser(),
    {
        self.unknown_command_message = unknown_command_message.to_owned();
    }

    /// Chainable form of [`Repl::set_unknown_command_message`].
    pub fn with_unknown_command_message(self, unknown_command_message: &str) -> (r: Self)
        ensures
            r.spec_unknown_command_message() == unknown_command_message@,
            r.spec_data() == self.spec_data(),
            r.entries() == self.entries(),
            r.spec_prompt() == self.spec_prompt(),
            r.spec_exit() == self.spec_exit(),
            r.spec_exit_message() == self.spec_exit_message(),
            r.spec_empty_argument_message() == self.spec_empty_argument_message(),
            r.spec_parser() == self.spec_parser(),
    {
        let mut r = self;
        r.set_unknown_command_message(unknown_command_message);
        r
    }

    /// Replaces the tokenizer with one of the same type. Not chainable;
    /// see [`Repl::with_parser`] for the chainable form, which may also
    /// change the tokenizer's type.
    pub fn set_parser(&mut self, parser: P)
        ensures
            final(self).spec_parser() == parser,
            final(self).spec_data() == old(self).spec_data(),
            final(self).entries() == old(self).entries(),
            final(self).spec_prompt() == old(self).spec_prompt(),
            final(self).spec_exit() == old(self).spec_exit(),
            final(self).spec_exit_message() == old(self).spec_exit_message(),
            final(self).spec_empty_argument_message() == old(self).spec_empty_argument_message(),
            final(self).spec_unknown_command_message() == old(self).spec_unknown_command_message(),
    {
        self.parser = parser;
    }

    /// Chainable form of [`Repl::set_parser`].
    pub fn with_parser<P2>(self, parser: P2) -> (r: Repl<T, H, P2>)
        ensures
            r.spec_parser() == parser,
            r.spec_data() == self.spec_data(),
            r.entries() == self.entries(),
            r.spec_prompt() == self.spec_prompt(),
            r.spec_exit() == self.spec_exit(),
            r.spec_exit_message() == self.spec_exit_message(),
            r.spec_empty_argument_message() == self.spec_empty_argument_message(),
            r.spec_unknown_command_message() == self.spec_unknown_command_message(),
            self.wf() ==> r.wf(),
    {
        Repl {
            data: self.data,
            prompt: self.prompt,
            exit: self.exit,
            exit_message: self.exit_message,
            empty_argument_message: self.empty_argument_message,
            unknown_command_message: self.unknown_command_message,
            functions: self.functions,
            parser,
        }
    }
}

/// Whether the token sequence names no command: agrees with
/// [`no_command`].
fn is_no_command(tokens: &Vec<String>) -> (r: bool)
    ensures
        r == no_command(tokens.deep_view()),
{
    let n = tokens.len();
    let mut i: usize = 0;
    while i < n
        invariant
            i <= n,
            n == tokens@.len(),
            forall|j: int| 0 <= j < i ==> (#[trigger] tokens.deep_view()[j]).len() == 0,
        decreases n - i,
    {
        if !tokens[i].as_str().is_empty() {
            proof {
                assert(tokens.deep_view()[i as int].len() > 0);
            }
            return false;
        }
        i = i + 1;
    }
    true
}

/// The concatenation of all tokens with no separators: agrees with
/// [`concat_all`].
fn concat_tokens(tokens: &Vec<String>) -> (r: String)
    ensures
        r@ == concat_all(tokens.deep_view()),
{
    let n = tokens.len();
    let mut r = String::new();
    let mut i: usize = 0;
    proof {
        assert(tokens.deep_view().take(0) =~= Seq::<Seq<char>>::empty());
    }
    while i < n
        invariant
            i <= n,
            n == tokens@.len(),
            r@ == concat_all(tokens.deep_view().take(i as int)),
        decreases n - i,
    {
        proof {
            assert(tokens.deep_view().take(i + 1).drop_last() =~= tokens.deep_view().take(
                i as int,
            ));
            assert(tokens.deep_view().take(i + 1).last() == tokens@[i as int]@);
        }
        r.append(tokens[i].as_str());
        i = i + 1;
    }
    proof {
        assert(tokens.deep_view().take(n as int) =~= tokens.deep_view());
    }
    r
}

impl<T, H, P> Repl<T, H, P> {
    /// Routes one token sequence, without invoking anything: says which
    /// single handler is to fire, with which arguments, or what else the
    /// line amounts to.
    ///
    /// A sequence naming no command is routed to `Empty`; then the
    /// concatenation of all tokens is compared against the exit command;
    /// then the first token against the registered names; then, for a
    /// first token matching no name, the fallback entry fires with the
    /// entire token sequence, first token included. A named match never
    /// also fires the fallback.
    pub fn dispatch(&self, tokens: Vec<String>) -> (a: Action)
        requires
            self.wf(),
        ensures
            ({
                let ts = tokens.deep_view();
                let es = self.entries();
                &&& (no_command(ts) <==> a is Empty)
                &&& ((!no_command(ts) && concat_all(ts) == self.spec_exit()) <==> a is Exit)
                &&& (!no_command(ts) && concat_all(ts) != self.spec_exit() && reg_has(es, ts[0])
                    ==> (a matches Action::Call { index, args } && index < es.len() && es[
                    index as int].0 == ts[0] && es[index as int].1 == reg_handler(es, ts[0])
                    && args.deep_view() == ts.drop_first()))
                &&& (!no_command(ts) && concat_all(ts) != self.spec_exit() && !reg_has(es, ts[0])
                    && reg_has(es, Seq::<char>::empty()) ==> (a matches Action::Call {
                    index,
                    args,
                } && index < es.len() && es[index as int].0 == Seq::<char>::empty() && es[
                index as int].1 == reg_handler(es, Seq::<char>::empty()) && args.deep_view()
                    == ts))
                &&& ((!no_command(ts) && concat_all(ts) != self.spec_exit() && !reg_has(
                    es,
                    ts[0],
                ) && !reg_has(es, Seq::<char>::empty())) <==> a is Unknown)
            }),
    {
        let ghost ts = tokens.deep_view();
        if is_no_command(&tokens) {
            return Action::Empty;
        }
        let joined = concat_tokens(&tokens);
        if joined == self.exit {
            return Action::Exit;
        }
        proof {
            assert(tokens@.len() > 0);
            assert(ts[0] == tokens@[0]@);
        }
        match find_key(&self.functions, &tokens[0]) {
            Some(i) => {
                proof {
                    assert(self.entries()[i as int].0 == ts[0]);
                    lemma_reg_index(self.entries(), i as int);
                }
                let mut args = tokens;
                let _first = args.remove(0);
                proof {
                    assert(args.deep_view() =~= ts.drop_first());
                }
                Action::Call { index: i, args }
            },
            None => {
                let empty_name = String::new();
                match find_key(&self.functions, &empty_name) {
                    Some(i) => {
                        proof {
                            assert(self.entries()[i as int].0 == Seq::<char>::empty());
                            lemma_reg_index(self.entries(), i as int);
                        }
                        Action::Call { index: i, args: tokens }
                    },
                    None => Action::Unknown,
                }
            },
        }
    }
}

impl<T, H: Handler<T>, P> Repl<T, H, P> {
    /// Acts on one token sequence: routes it as [`Repl::dispatch`] does,
    /// invokes the single handler so chosen, and returns what the caller
    /// is to print and whether to stop.
    ///
    /// Registry, configuration and tokenizer are never changed; the
    /// shared state changes only by a handler's doing, and when no
    /// handler fires it stays as it was.
    pub fn handle_tokens(&mut self, tokens: Vec<String>) -> (r: Outcome)
        requires
            old(self).wf(),
        ensures
            final(self).wf(),
            final(self).same_setup(old(self)),
            ({
                let ts = tokens.deep_view();
                let es = old(self).entries();
                &&& (no_command(ts) ==> (r matches Outcome::Message(m) && m@ == old(self).spec_empty_argument_message() && final(self).spec_data() == old(self).spec_data()))
                &&& (!no_command(ts) && concat_all(ts) == old(self).spec_exit() ==> (
                r matches Outcome::Exit(m) && m@ == old(self).spec_exit_message() && final(self).spec_data() == old(self).spec_data()))
                &&& (!no_command(ts) && concat_all(ts) != old(self).spec_exit() && (reg_has(
                    es,
                    ts[0],
                ) || reg_has(es, Seq::<char>::empty())) ==> r is Handled)
                &&& (!no_command(ts) && concat_all(ts) != old(self).spec_exit() && !reg_has(
                    es,
                    ts[0],
                ) && !reg_has(es, Seq::<char>::empty()) ==> (r matches Outcome::Message(m)
                    && m@ == old(self).spec_unknown_command_message() && final(self).spec_data() == old(self).spec_data()))
            }),
    {
        let a = self.dispatch(tokens);
        match a {
            Action::Empty => Outcome::Message(self.empty_argument_message.clone()),
            Action::Exit => Outcome::Exit(self.exit_message.clone()),
            Action::Call { index, args } => {
                let entry = &self.functions[index];
                entry.1.invoke(&mut self.data, args);
                Outcome::Handled
            },
            Action::Unknown => Outcome::Message(self.unknown_command_message.clone()),
        }
    }
}

impl<T, H: Handler<T>, P: Parser> Repl<T, H, P> {
    /// One loop iteration, after the raw line has been read: tokenizes
    /// it with the configured tokenizer, then acts on the tokens as
    /// [`Repl::handle_tokens`] does. A line that does not tokenize is
    /// reported as such and changes nothing.
    pub fn handle_line(&mut self, line: String) -> (r: Outcome)
        requires
            old(self).wf(),
        ensures
            final(self).wf(),
            final(self).same_setup(old(self)),
            r matches Outcome::Exit(m) ==> m@ == old(self).spec_exit_message() && final(self).spec_data() == old(self).spec_data(),
            r matches Outcome::Message(m) ==> (m@ == old(self).spec_empty_argument_message()
                || m@ == old(self).spec_unknown_command_message()) && final(self).spec_data()
                == old(self).spec_data(),
            r matches Outcome::ParseFailed(_) ==> final(self).spec_data() == old(self).spec_data(),
    {
        let parsed = self.parser.parse(line);
        match parsed {
            Ok(tokens) => self.handle_tokens(tokens),
            Err(e) => Outcome::ParseFailed(e),
        }
    }

}

impl<T, H, P: Parser> Repl<T, H, P> {
    /// Tokenizes one raw line with the configured tokenizer, without
    /// acting on it: the pure part of reading input.
    pub fn tokenize(&self, line: String) -> Result<Vec<String>, ParseError> {
        self.parser.parse(line)
    }
}

} // verus!
