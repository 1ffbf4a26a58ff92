use repl_framework::{Handler, Interpreter, QuoteParser, Repl};

/// A handler that records its tag and its arguments in the shared state.
#[derive(Debug, Clone)]
struct Mark(&'static str);

impl Handler<Vec<String>> for Mark {
    fn invoke(&self, state: &mut Vec<String>, args: Vec<String>) {
        state.push(self.0.to_string());
        for a in args {
            state.push(a);
        }
    }
}

#[test]
fn interpreter_runs_matching_lines_only() {
    let mut interp: Interpreter<Vec<String>, Mark> = Interpreter::new(Vec::new());
    interp.add_function("add".to_string(), Mark("add"));
    assert!(interp.run_line("add one two"));
    assert_eq!(interp.data, vec!["add", "one", "two"]);
    assert!(!interp.run_line("sub one"));
    assert_eq!(interp.data, vec!["add", "one", "two"]);
}

#[test]
fn interpreter_splits_at_every_single_space() {
    let mut interp: Interpreter<Vec<String>, Mark> = Interpreter::new(Vec::new());
    interp.add_function("add".to_string(), Mark("add"));
    assert!(interp.run_line("add  x"));
    // Two spaces in a row hand the handler an empty argument.
    assert_eq!(interp.data, vec!["add", "", "x"]);
}

#[test]
fn interpreter_registration_overwrites_like_the_dispatcher() {
    let mut interp: Interpreter<Vec<String>, Mark> = Interpreter::new(Vec::new());
    interp.add_function("go".to_string(), Mark("one"));
    interp.add_function("go".to_string(), Mark("two"));
    assert!(interp.run_line("go"));
    assert_eq!(interp.data, vec!["two"]);
}

#[test]
fn run_script_replays_each_line_and_strips_carriage_returns() {
    let mut interp: Interpreter<Vec<String>, Mark> = Interpreter::new(Vec::new());
    interp.add_function("add".to_string(), Mark("add"));
    interp.run_script("add a\r\nadd b\nskip c\n");
    assert_eq!(interp.data, vec!["add", "a", "add", "b"]);
}

#[test]
fn from_repl_carries_state_and_registry_over() {
    let repl: Repl<Vec<String>, Mark, QuoteParser> =
        Repl::new(vec!["seed".to_string()]).with_function("go", Mark("go"));
    let mut interp = Interpreter::from_repl(repl);
    assert_eq!(interp.data, vec!["seed"]);
    assert!(interp.run_line("go now"));
    assert_eq!(interp.data, vec!["seed", "go", "now"]);
}

#[test]
fn interpreter_blank_line_looks_up_the_empty_name() {
    let mut interp: Interpreter<Vec<String>, Mark> = Interpreter::new(Vec::new());
    interp.add_function(String::new(), Mark("blank"));
    assert!(interp.run_line(""));
    assert_eq!(interp.data, vec!["blank"]);
}
