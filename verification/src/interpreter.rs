//! The batch interpreter: a thin adapter that replays the lines of a
//! script against the same kind of command registry the dispatcher uses,
//! with no prompt, no fallback and no exit handling. Reading the script
//! from wherever it lives belongs to the caller; the replay itself is
//! [`Interpreter::run_script`].

use vstd::prelude::*;

use crate::registry::{
    find_key, insert_entry, lemma_reg_index, reg_handler, reg_has, reg_index, reg_view, reg_wf,
};
use crate::repl::{Handler, Repl};
use crate::utils::{split_at_char, split_char, trim_trailing, trim_trailing_char};

verus! {

/// The batch interpreter: shared state and the handler registry.
pub struct Interpreter<T, H> {
    /// The shared state handed to every handler.
    pub data: T,
    /// The command registry; keys are unique.
    pub(crate) functions: Vec<(String, H)>,
}

impl<T, H> Interpreter<T, H> {
    /// The shared state, for contracts: the `data` field.
    pub closed spec fn spec_data(&self) -> T {
        self.data
    }

    /// The registry's abstract content.
    pub closed spec fn entries(&self) -> Seq<(Seq<char>, H)> {
        reg_view(self.functions@)
    }

    /// Well-formedness: no two registry entries share a name.
    pub open spec fn wf(&self) -> bool {
        reg_wf(self.entries())
    }

    /// A blank interpreter over `data`: an empty registry.
    pub fn new(data: T) -> (r: Self)
        ensures
            r.wf(),
            r.spec_data() == data,
            r.entries() == Seq::<(Seq<char>, H)>::empty(),
    {
        let r = Interpreter { data, functions: Vec::new() };
        proof {
            assert(r.entries() =~= Seq::<(Seq<char>, H)>::empty());
        }
        r
    }

    /// An interpreter over a dispatcher's shared state and registry:
    /// both carry over unchanged.
    pub fn from_repl<P>(repl: Repl<T, H, P>) -> (r: Self)
        ensures
            r.spec_data() == repl.spec_data(),
            r.entries() == repl.entries(),
    {
        let parts = repl.into_parts();
        Interpreter { data: parts.0, functions: parts.1 }
    }

    /// Registers `function` under `name`: a later registration for the
    /// same name overwrites the earlier handler, and other entries stay
    /// as they were.
    pub fn add_function(&mut self, name: String, function: H)
        requires
            old(self).wf(),
        ensures
            final(self).wf(),
            reg_has(final(self).entries(), name@),
            reg_handler(final(self).entries(), name@) == function,
            reg_has(old(self).entries(), name@) ==> final(self).entries() == old(
                self,
            ).entries().update(reg_index(old(self).entries(), name@), (name@, function)),
            !reg_has(old(self).entries(), name@) ==> final(self).entries() == old(
                self,
            ).entries().push((name@, function)),
            forall|k: Seq<char>|
                #![trigger reg_has(final(self).entries(), k)]
                #![trigger reg_has(old(self).entries(), k)]
                k != name@ ==> (reg_has(final(self).entries(), k) <==> reg_has(
                    old(self).entries(),
                    k,
                )),
            forall|k: Seq<char>|
                #![trigger reg_handler(final(self).entries(), k)]
                #![trigger reg_handler(old(self).entries(), k)]
                k != name@ && reg_has(old(self).entries(), k) ==> reg_handler(
                    final(self).entries(),
                    k,
                ) == reg_handler(old(self).entries(), k),
            final(self).spec_data() == old(self).spec_data(),
    {
        insert_entry(&mut self.functions, name, function);
    }
}

impl<T, H: Handler<T>> Interpreter<T, H> {
    /// Replays one line of a script: strips a trailing carriage return,
    /// splits at every single space, and invokes the handler registered
    /// under the first piece with the remaining pieces, if there is one.
    /// There is no fallback and no exit command here, and an unmatched
    /// line is passed over in silence.
    ///
    /// Returns whether a handler fired; when none does, the shared state
    /// stays as it was.
    pub fn run_line(&mut self, line: &str) -> (fired: bool)
        requires
            old(self).wf(),
        ensures
            final(self).wf(),
            final(self).entries() == old(self).entries(),
            (fired <==> reg_has(
                old(self).entries(),
                split_char(trim_trailing(line@, '\r'), ' ')[0],
            )),
            !fired ==> final(self).spec_data() == old(self).spec_data(),
    {
        let trimmed = trim_trailing_char(line, '\r');
        let args = split_at_char(trimmed, ' ');
        proof {
            assert(args.deep_view()[0] == args@[0]@);
        }
        match find_key(&self.functions, &args[0]) {
            Some(i) => {
                proof {
                    assert(self.entries()[i as int].0 == args@[0]@);
                    lemma_reg_index(self.entries(), i as int);
                }
                let mut rest = args;
                let _first = rest.remove(0);
                let entry = &self.functions[i];
                entry.1.invoke(&mut self.data, rest);
                true
            },
            None => false,
        }
    }

    /// Replays a whole script: every line, split at every newline, is
    /// run through [`Interpreter::run_line`] in order. The registry is
    /// never changed by the replay.
    pub fn run_script(&mut self, source: &str)
        requires
            old(self).wf(),
        ensures
            final(self).wf(),
            final(self).entries() == old(self).entries(),
    {
        let ghost es = old(self).entries();
        let lines = split_at_char(source, '\n');
        let n = lines.len();
        let mut i: usize = 0;
        while i < n
            invariant
                i <= n,
                n == lines@.len(),
                self.wf(),
                self.entries() == es,
            decreases n - i,
        {
            let _fired = self.run_line(lines[i].as_str());
            i = i + 1;
        }
    }
}

} // verus!
