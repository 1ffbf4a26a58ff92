use repl_framework::{
    Action, Handler, Outcome, ParseError, QuoteParser, Repl, WhitespaceParser,
};

/// A handler that records its tag and its arguments in the shared state.
#[derive(Debug, Clone)]
struct Tag(&'static str);

impl Handler<Vec<String>> for Tag {
    fn invoke(&self, state: &mut Vec<String>, args: Vec<String>) {
        state.push(self.0.to_string());
        for a in args {
            state.push(a);
        }
    }
}

#[test]
fn registering_a_name_twice_overwrites_the_handler() {
    let mut repl: Repl<Vec<String>, Tag, QuoteParser> = Repl::new(Vec::new());
    repl.add_function("get", Tag("one"));
    repl.add_function("get", Tag("two"));
    let out = repl.handle_tokens(vec!["get".to_string(), "x".to_string()]);
    assert!(matches!(out, Outcome::Handled));
    assert_eq!(repl.data, vec!["two", "x"]);
}

#[test]
fn named_match_takes_precedence_over_fallback() {
    let mut repl: Repl<Vec<String>, Tag, QuoteParser> = Repl::new(Vec::new())
        .with_function("get", Tag("get"))
        .with_function("", Tag("fallback"));
    let out = repl.handle_line("get x".to_string());
    assert!(matches!(out, Outcome::Handled));
    assert_eq!(repl.data, vec!["get", "x"]);
}

#[test]
fn fallback_receives_the_entire_token_sequence() {
    let mut repl: Repl<Vec<String>, Tag, QuoteParser> =
        Repl::new(Vec::new()).with_function("", Tag("fallback"));
    let out = repl.handle_line("foo bar".to_string());
    assert!(matches!(out, Outcome::Handled));
    assert_eq!(repl.data, vec!["fallback", "foo", "bar"]);
}

#[test]
fn exit_terminates_without_invoking_any_handler() {
    let mut repl: Repl<Vec<String>, Tag, QuoteParser> = Repl::new(Vec::new())
        .with_function("exit", Tag("named"))
        .with_function("", Tag("fallback"));
    let out = repl.handle_line("exit".to_string());
    assert!(matches!(out, Outcome::Exit(m) if m == "repl terminated"));
    assert_eq!(repl.data, Vec::<String>::new());
}

#[test]
fn empty_input_prints_the_empty_argument_message() {
    let mut repl: Repl<Vec<String>, Tag, QuoteParser> = Repl::new(Vec::new())
        .with_function("", Tag("fallback"))
        .with_empty_argument_message("nothing here");
    let out = repl.handle_line(String::new());
    assert!(matches!(out, Outcome::Message(m) if m == "nothing here"));
    assert_eq!(repl.data, Vec::<String>::new());
}

#[test]
fn unknown_command_prints_the_unknown_command_message() {
    let mut repl: Repl<Vec<String>, Tag, QuoteParser> = Repl::new(Vec::new())
        .with_function("get", Tag("get"))
        .with_unknown_command_message("unknown command");
    let out = repl.handle_line("put x".to_string());
    assert!(matches!(out, Outcome::Message(m) if m == "unknown command"));
    assert_eq!(repl.data, Vec::<String>::new());
}

#[test]
fn exit_is_compared_against_the_concatenation_of_all_tokens() {
    let mut repl: Repl<Vec<String>, Tag, QuoteParser> =
        Repl::new(Vec::new()).with_function("", Tag("fallback"));
    let out = repl.handle_line("ex it".to_string());
    assert!(matches!(out, Outcome::Exit(m) if m == "repl terminated"));
    let out = repl.handle_line("\"exit\"".to_string());
    assert!(matches!(out, Outcome::Exit(_)));
    assert_eq!(repl.data, Vec::<String>::new());
}

#[test]
fn exit_command_and_messages_are_configurable() {
    let mut repl: Repl<Vec<String>, Tag, QuoteParser> = Repl::new(Vec::new())
        .with_exit_command("close")
        .with_exit_message("bye");
    let out = repl.handle_line("close".to_string());
    assert!(matches!(out, Outcome::Exit(m) if m == "bye"));
    // The default exit command no longer ends the loop.
    repl.set_unknown_command_message("eh");
    let out = repl.handle_line("exit".to_string());
    assert!(matches!(out, Outcome::Message(m) if m == "eh"));
}

#[test]
fn dispatch_names_the_called_entry_and_its_arguments() {
    let repl: Repl<Vec<String>, Tag, QuoteParser> =
        Repl::new(Vec::new()).with_function("get", Tag("get"));
    let a = repl.dispatch(vec!["get".to_string(), "a".to_string(), "b".to_string()]);
    match a {
        Action::Call { index: _, args } => assert_eq!(args, vec!["a", "b"]),
        _ => panic!("expected a call"),
    }
    let a = repl.dispatch(vec!["put".to_string()]);
    assert!(matches!(a, Action::Unknown));
    let a = repl.dispatch(Vec::new());
    assert!(matches!(a, Action::Empty));
}

#[test]
fn handler_receives_quoted_arguments_as_single_tokens() {
    let mut repl: Repl<Vec<String>, Tag, QuoteParser> =
        Repl::new(Vec::new()).with_function("say", Tag("say"));
    let out = repl.handle_line("say \"a b\" c".to_string());
    assert!(matches!(out, Outcome::Handled));
    assert_eq!(repl.data, vec!["say", "a b", "c"]);
}

#[test]
fn a_line_that_does_not_tokenize_is_reported_and_changes_nothing() {
    let mut repl: Repl<Vec<String>, Tag, QuoteParser> =
        Repl::new(Vec::new()).with_function("", Tag("fallback"));
    let out = repl.handle_line(r"\x".to_string());
    assert!(matches!(out, Outcome::ParseFailed(ParseError::UnknownEscape)));
    let out = repl.handle_line("\"open".to_string());
    assert!(matches!(out, Outcome::ParseFailed(ParseError::UnterminatedQuote)));
    assert_eq!(repl.data, Vec::<String>::new());
}

#[test]
fn the_depreciated_parser_splits_at_whitespace_only() {
    let mut repl: Repl<Vec<String>, Tag, WhitespaceParser> =
        Repl::new_with_depreciated_parser(Vec::new()).with_function("", Tag("fallback"));
    let out = repl.handle_line("  hello   world  ".to_string());
    assert!(matches!(out, Outcome::Handled));
    assert_eq!(repl.data, vec!["fallback", "hello", "world"]);
    // A blank line yields no token at all, hence no command.
    let out = repl.handle_line("   ".to_string());
    assert!(matches!(out, Outcome::Message(m) if m.is_empty()));
}

#[test]
fn with_parser_replaces_the_tokenizer() {
    let mut repl: Repl<Vec<String>, Tag, WhitespaceParser> = Repl::new(Vec::new())
        .with_function("", Tag("fallback"))
        .with_parser(WhitespaceParser);
    let out = repl.handle_line("\"a b\"".to_string());
    assert!(matches!(out, Outcome::Handled));
    // Quotes are not honored by the whitespace tokenizer.
    assert_eq!(repl.data, vec!["fallback", "\"a", "b\""]);
}

#[test]
fn no_command_takes_precedence_over_a_blank_exit_command() {
    let mut repl: Repl<Vec<String>, Tag, QuoteParser> = Repl::new(Vec::new())
        .with_exit_command("")
        .with_empty_argument_message("say something");
    let out = repl.handle_line(String::new());
    assert!(matches!(out, Outcome::Message(m) if m == "say something"));
}

#[test]
fn tokenize_applies_the_configured_tokenizer_without_dispatching() {
    let repl: Repl<Vec<String>, Tag, QuoteParser> = Repl::new(Vec::new());
    assert_eq!(
        repl.tokenize("a \"b c\" d".to_string()).unwrap(),
        vec!["a", "b c", "d"]
    );
    assert!(repl.tokenize("\"open".to_string()).is_err());
}

#[test]
fn default_matches_new_over_default_data() {
    let mut repl: Repl<Vec<String>, Tag, QuoteParser> = Repl::default();
    assert_eq!(repl.prompt(), ">>>");
    assert_eq!(repl.data, Vec::<String>::new());
    let out = repl.handle_line("exit".to_string());
    assert!(matches!(out, Outcome::Exit(m) if m == "repl terminated"));
}

#[test]
fn prompt_and_data_are_configurable() {
    let mut repl: Repl<Vec<String>, Tag, QuoteParser> = Repl::new(Vec::new());
    assert_eq!(repl.prompt(), ">>>");
    repl.set_prompt(":>");
    assert_eq!(repl.prompt(), ":>");
    let repl = repl.with_prompt("+>");
    assert_eq!(repl.prompt(), "+>");
    let mut repl = repl.with_data(vec!["seed".to_string()]);
    assert_eq!(repl.data, vec!["seed"]);
    repl.set_data(Vec::new());
    assert_eq!(repl.data, Vec::<String>::new());
}
