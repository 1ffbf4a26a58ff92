//! The argument tokenizer: a single left-to-right scan of one input line
//! that honors single and double quoting and backslash escapes.
//!
//! The scan is specified as a small state machine ([`LexState`],
//! [`lex_step`]) folded over the characters of the line ([`lex_scan`]);
//! [`tokens_of`] packages the fold's outcome as the exact result that the
//! executable [`parse`] must return.

use vstd::prelude::*;

verus! {

/// Error from tokenizing one input line.
#[derive(Clone, Copy, Debug, PartialEq, Eq, Structural)]
pub enum ParseError {
    /// A backslash was followed by a character that is not a recognized
    /// escape target.
    UnknownEscape,
    /// The line ended while a quoted region was still open.
    UnterminatedQuote,
}

impl ParseError {
    /// The error as a line of text, for whoever reports it.
    pub fn message(&self) -> (r: String)
        ensures
            *self is UnknownEscape ==> r@ == "unknown escape character in input"@,
            *self is UnterminatedQuote ==> r@ == "non matching quote characters found!"@,
    {
        match self {
            ParseError::UnknownEscape => String::from_str("unknown escape character in input"),
            ParseError::UnterminatedQuote => String::from_str(
                "non matching quote characters found!",
            ),
        }
    }
}

/// The recognized escape targets: the character a backslash-`c` pair
/// stands for, or `None` when `c` is not a recognized escape.
pub open spec fn escape_char(c: char) -> Option<char> {
    if c == 't' {
        Some('\t')
    } else if c == 'n' {
        Some('\n')
    } else if c == '"' {
        Some('"')
    } else if c == '\'' {
        Some('\'')
    } else if c == '\\' {
        Some('\\')
    } else {
        None
    }
}

/// The tokenizer's state between two characters of the scan.
pub struct LexState {
    /// Whether the scan is inside a quoted region.
    pub in_quote: bool,
    /// The character that opened the current quoted region; meaningful
    /// only while `in_quote` holds.
    pub quote_char: char,
    /// Whether the character just before the current one was a backslash.
    pub esc: bool,
    /// The tokens completed so far.
    pub done: Seq<Seq<char>>,
    /// The accumulator for the token being built.
    pub cur: Seq<char>,
}

/// The state the scan starts in.
pub open spec fn lex_init() -> LexState {
    LexState {
        in_quote: false,
        quote_char: ' ',
        esc: false,
        done: Seq::empty(),
        cur: Seq::empty(),
    }
}

/// One step of the scan: the state after reading character `c` in state
/// `st`, or `None` when `c` follows a backslash but is not a recognized
/// escape target.
///
/// Whether the previous character was a backslash is tracked by `esc`
/// alone, so a backslash that was itself an escape target still escapes
/// the character after it.
pub open spec fn lex_step(st: LexState, c: char) -> Option<LexState> {
    if st.in_quote {
        if st.esc {
            match escape_char(c) {
                Some(e) => Some(
                    LexState { esc: c == '\\', cur: st.cur.push(e), ..st },
                ),
                None => None,
            }
        } else if c == st.quote_char {
            // An unescaped closing quote ends the region; a non-empty
            // accumulator is flushed as one token.
            Some(
                LexState {
                    in_quote: false,
                    esc: false,
                    done: if st.cur.len() > 0 {
                        st.done.push(st.cur)
                    } else {
                        st.done
                    },
                    cur: Seq::empty(),
                    ..st
                },
            )
        } else if c == '\\' {
            // Recorded, not emitted: the next character is an escape target.
            Some(LexState { esc: true, ..st })
        } else {
            // Anything else, the other quote style and spaces included, is
            // taken verbatim: quoting suppresses word-splitting.
            Some(LexState { esc: false, cur: st.cur.push(c), ..st })
        }
    } else {
        if c == ' ' {
            // A space ends the current token; runs of spaces collapse.
            Some(
                LexState {
                    esc: false,
                    done: if st.cur.len() > 0 {
                        st.done.push(st.cur)
                    } else {
                        st.done
                    },
                    cur: Seq::empty(),
                    ..st
                },
            )
        } else if st.esc {
            match escape_char(c) {
                Some(e) => Some(
                    LexState { esc: c == '\\', cur: st.cur.push(e), ..st },
                ),
                None => None,
            }
        } else if c == '"' || c == '\'' {
            // An unescaped quote opens a region; a pending accumulator is
            // flushed first, so adjacent quoted segments stay separate.
            Some(
                LexState {
                    in_quote: true,
                    quote_char: c,
                    esc: false,
                    done: if st.cur.len() > 0 {
                        st.done.push(st.cur)
                    } else {
                        st.done
                    },
                    cur: Seq::empty(),
                },
            )
        } else if c == '\\' {
            Some(LexState { esc: true, ..st })
        } else {
            Some(LexState { esc: false, cur: st.cur.push(c), ..st })
        }
    }
}

/// The fold of [`lex_step`] over the whole line, or `None` when some
/// character follows a backslash without being a recognized escape.
pub open spec fn lex_scan(s: Seq<char>) -> Option<LexState>
    decreases s.len(),
{
    if s.len() == 0 {
        Some(lex_init())
    } else {
        match lex_scan(s.drop_last()) {
            Some(st) => lex_step(st, s.last()),
            None => None,
        }
    }
}

/// What tokenizing the line `s` must produce: the completed tokens with
/// the final accumulator (possibly empty) appended as the last token, or
/// the error. An unknown escape aborts the scan where it occurs, so it
/// takes precedence over an unterminated quote noticed only at the end.
pub open spec fn tokens_of(s: Seq<char>) -> Result<Seq<Seq<char>>, ParseError> {
    match lex_scan(s) {
        None => Err(ParseError::UnknownEscape),
        Some(st) => if st.in_quote {
            Err(ParseError::UnterminatedQuote)
        } else {
            Ok(st.done.push(st.cur))
        },
    }
}

/// The characters that the whitespace splitter breaks on: the ASCII
/// whitespace characters.
pub open spec fn is_ascii_whitespace(c: char) -> bool {
    c == ' ' || c == '\t' || c == '\n' || c == '\x0c' || c == '\r'
}

/// The fold behind [`ws_tokens`]: the completed words and the pending
/// accumulator after scanning `s`. Whitespace ends a word; runs of
/// whitespace produce no empty words.
pub open spec fn ws_scan(s: Seq<char>) -> (Seq<Seq<char>>, Seq<char>)
    decreases s.len(),
{
    if s.len() == 0 {
        (Seq::empty(), Seq::empty())
    } else {
        let p = ws_scan(s.drop_last());
        if is_ascii_whitespace(s.last()) {
            (
                if p.1.len() > 0 {
                    p.0.push(p.1)
                } else {
                    p.0
                },
                Seq::empty(),
            )
        } else {
            (p.0, p.1.push(s.last()))
        }
    }
}

/// The words of `s` split at runs of ASCII whitespace: never an empty
/// word, and no word at all for an empty or all-whitespace line.
pub open spec fn ws_tokens(s: Seq<char>) -> Seq<Seq<char>> {
    let p = ws_scan(s);
    if p.1.len() > 0 {
        p.0.push(p.1)
    } else {
        p.0
    }
}

/// The fold behind [`split_char`]: every separator ends the current
/// piece, empty or not.
pub open spec fn split_scan(s: Seq<char>, sep: char) -> (Seq<Seq<char>>, Seq<char>)
    decreases s.len(),
{
    if s.len() == 0 {
        (Seq::empty(), Seq::empty())
    } else {
        let p = split_scan(s.drop_last(), sep);
        if s.last() == sep {
            (p.0.push(p.1), Seq::empty())
        } else {
            (p.0, p.1.push(s.last()))
        }
    }
}

/// The pieces of `s` split at every occurrence of `sep`: one more piece
/// than there are separators, so never fewer than one.
pub open spec fn split_char(s: Seq<char>, sep: char) -> Seq<Seq<char>> {
    let p = split_scan(s, sep);
    p.0.push(p.1)
}

/// `s` with every trailing occurrence of `c` removed.
pub open spec fn trim_trailing(s: Seq<char>, c: char) -> Seq<char>
    decreases s.len(),
{
    if s.len() > 0 && s.last() == c {
        trim_trailing(s.drop_last(), c)
    } else {
        s
    }
}

/// Every token the scan has completed was flushed from a non-empty
/// accumulator.
proof fn lemma_scan_done_nonempty(s: Seq<char>)
    ensures
        lex_scan(s) matches Some(st) ==> forall|i: int|
            0 <= i < st.done.len() ==> (#[trigger] st.done[i]).len() > 0,
    decreases s.len(),
{
    if s.len() > 0 {
        lemma_scan_done_nonempty(s.drop_last());
    }
}

/// Runs of spaces produce no empty tokens: in a successful tokenization
/// every token but the last is non-empty. Only the final token, appended
/// by the mandatory flush at end of input, may be the empty string.
pub proof fn lemma_only_last_token_may_be_empty(s: Seq<char>)
    ensures
        tokens_of(s) matches Ok(ts) ==> ts.len() >= 1 && forall|i: int|
            0 <= i < ts.len() - 1 ==> (#[trigger] ts[i]).len() > 0,
{
    lemma_scan_done_nonempty(s);
}

/// Every word the whitespace scan has completed is non-empty.
proof fn lemma_ws_scan_nonempty(s: Seq<char>)
    ensures
        forall|i: int|
            0 <= i < ws_scan(s).0.len() ==> (#[trigger] ws_scan(s).0[i]).len() > 0,
    decreases s.len(),
{
    if s.len() > 0 {
        lemma_ws_scan_nonempty(s.drop_last());
        let p = ws_scan(s.drop_last());
        assert forall|i: int| 0 <= i < ws_scan(s).0.len() implies (#[trigger] ws_scan(
            s,
        ).0[i]).len() > 0 by {
            if is_ascii_whitespace(s.last()) && p.1.len() > 0 {
                if i < p.0.len() {
                    assert(ws_scan(s).0[i] == p.0[i]);
                } else {
                    assert(ws_scan(s).0[i] == p.1);
                }
            } else {
                assert(ws_scan(s).0[i] == p.0[i]);
            }
        }
    }
}

/// The whitespace splitter never yields an empty word.
pub proof fn lemma_ws_tokens_nonempty(s: Seq<char>)
    ensures
        forall|i: int|
            0 <= i < ws_tokens(s).len() ==> (#[trigger] ws_tokens(s)[i]).len() > 0,
{
    lemma_ws_scan_nonempty(s);
}

/// Once the scan of some prefix has failed, the scan of the whole line
/// fails as well.
proof fn lemma_scan_none(s: Seq<char>, i: int)
    requires
        0 <= i <= s.len(),
        lex_scan(s.take(i)) is None,
    ensures
        lex_scan(s) is None,
    decreases s.len() - i,
{
    if i == s.len() {
        assert(s.take(i) =~= s);
    } else {
        assert(s.take(i + 1).drop_last() =~= s.take(i));
        lemma_scan_none(s, i + 1);
    }
}

/// Relies on `String::push`: appends the given character to the end of
/// the string.
#[verifier::external_body]
fn push_char(s: &mut String, c: char)
    ensures
        final(s)@ == old(s)@.push(c),
{
    s.push(c)
}

/// The recognized escape targets, executably: agrees with [`escape_char`].
fn escape_char_exec(c: char) -> (r: Option<char>)
    ensures
        r == escape_char(c),
{
    if c == 't' {
        Some('\t')
    } else if c == 'n' {
        Some('\n')
    } else if c == '"' {
        Some('"')
    } else if c == '\'' {
        Some('\'')
    } else if c == '\\' {
        Some('\\')
    } else {
        None
    }
}

/// Tokenizes one input line: splits it at unquoted spaces, honors single
/// and double quoting, and resolves backslash escapes, exactly as
/// [`tokens_of`] states. On success the result always holds at least one
/// token, since the final accumulator (possibly empty) is appended last.
pub fn parse(input: String) -> (r: Result<Vec<String>, ParseError>)
    ensures
        match r {
            Ok(v) => tokens_of(input@) == Ok::<Seq<Seq<char>>, ParseError>(v.deep_view())
                && v@.len() > 0,
            Err(e) => tokens_of(input@) == Err::<Seq<Seq<char>>, ParseError>(e),
        },
{
    let line = input.as_str();
    let n = line.unicode_len();
    let mut in_quote: bool = false;
    let mut quote_char: char = ' ';
    let mut esc: bool = false;
    let mut done_toks: Vec<String> = Vec::new();
    let mut cur = String::new();
    let mut i: usize = 0;
    proof {
        assert(done_toks.deep_view() =~= Seq::<Seq<char>>::empty());
        assert(input@.take(0) =~= Seq::<char>::empty());
    }
    while i < n
        invariant
            i <= n,
            n == input@.len(),
            line@ == input@,
            lex_scan(input@.take(i as int)) == Some(
                LexState {
                    in_quote: in_quote,
                    quote_char: quote_char,
                    esc: esc,
                    done: done_toks.deep_view(),
                    cur: cur@,
                },
            ),
        decreases n - i,
    {
        let ghost st = lex_scan(input@.take(i as int))->Some_0;
        let c = line.get_char(i);
        proof {
            assert(input@.take(i + 1).drop_last() =~= input@.take(i as int));
            assert(input@.take(i + 1).last() == c);
        }
        if in_quote {
            if esc {
                match escape_char_exec(c) {
                    Some(e) => {
                        push_char(&mut cur, e);
                        esc = c == '\\';
                    },
                    None => {
                        proof {
                            lemma_scan_none(input@, i + 1);
                        }
                        return Err(ParseError::UnknownEscape);
                    },
                }
            } else if c == quote_char {
                in_quote = false;
                esc = false;
                if !cur.as_str().is_empty() {
                    let ghost old_done = done_toks.deep_view();
                    let ghost old_cur = cur@;
                    done_toks.push(cur);
                    cur = String::new();
                    proof {
                        assert(done_toks.deep_view() =~= old_done.push(old_cur));
                    }
                }
            } else if c == '\\' {
                esc = true;
            } else {
                push_char(&mut cur, c);
                esc = false;
            }
        } else {
            if c == ' ' {
                esc = false;
                if !cur.as_str().is_empty() {
                    let ghost old_done = done_toks.deep_view();
                    let ghost old_cur = cur@;
                    done_toks.push(cur);
                    cur = String::new();
                    proof {
                        assert(done_toks.deep_view() =~= old_done.push(old_cur));
                    }
                }
            } else if esc {
                match escape_char_exec(c) {
                    Some(e) => {
                        push_char(&mut cur, e);
                        esc = c == '\\';
                    },
                    None => {
                        proof {
                            lemma_scan_none(input@, i + 1);
                        }
                        return Err(ParseError::UnknownEscape);
                    },
                }
            } else if c == '"' || c == '\'' {
                in_quote = true;
                quote_char = c;
                esc = false;
                if !cur.as_str().is_empty() {
                    let ghost old_done = done_toks.deep_view();
                    let ghost old_cur = cur@;
                    done_toks.push(cur);
                    cur = String::new();
                    proof {
                        assert(done_toks.deep_view() =~= old_done.push(old_cur));
                    }
                }
            } else if c == '\\' {
                esc = true;
            } else {
                push_char(&mut cur, c);
                esc = false;
            }
        }
        proof {
            let new_st = LexState {
                in_quote: in_quote,
                quote_char: quote_char,
                esc: esc,
                done: done_toks.deep_view(),
                cur: cur@,
            };
            assert(lex_step(st, c) matches Some(t) && t.done =~= new_st.done
                && t.cur =~= new_st.cur && t.in_quote == new_st.in_quote
                && t.quote_char == new_st.quote_char && t.esc == new_st.esc);
            assert(lex_step(st, c) == Some(new_st));
        }
        i = i + 1;
    }
    proof {
        assert(input@.take(n as int) =~= input@);
    }
    if in_quote {
        Err(ParseError::UnterminatedQuote)
    } else {
        let ghost old_done = done_toks.deep_view();
        let ghost old_cur = cur@;
        done_toks.push(cur);
        proof {
            assert(done_toks.deep_view() =~= old_done.push(old_cur));
        }
        Ok(done_toks)
    }
}

/// ASCII whitespace, executably: agrees with [`is_ascii_whitespace`].
fn is_ascii_whitespace_exec(c: char) -> (r: bool)
    ensures
        r == is_ascii_whitespace(c),
{
    c == ' ' || c == '\t' || c == '\n' || c == '\x0c' || c == '\r'
}

/// Splits a line at runs of ASCII whitespace, exactly as [`ws_tokens`]
/// states: no empty words, and nothing at all from a blank line.
pub fn split_whitespace(input: String) -> (r: Vec<String>)
    ensures
        r.deep_view() == ws_tokens(input@),
{
    let line = input.as_str();
    let n = line.unicode_len();
    let mut done_toks: Vec<String> = Vec::new();
    let mut cur = String::new();
    let mut i: usize = 0;
    proof {
        assert(done_toks.deep_view() =~= Seq::<Seq<char>>::empty());
        assert(input@.take(0) =~= Seq::<char>::empty());
    }
    while i < n
        invariant
            i <= n,
            n == input@.len(),
            line@ == input@,
            ws_scan(input@.take(i as int)).0 == done_toks.deep_view(),
            ws_scan(input@.take(i as int)).1 == cur@,
        decreases n - i,
    {
        let c = line.get_char(i);
        proof {
            assert(input@.take(i + 1).drop_last() =~= input@.take(i as int));
            assert(input@.take(i + 1).last() == c);
        }
        if is_ascii_whitespace_exec(c) {
            if !cur.as_str().is_empty() {
                let ghost old_done = done_toks.deep_view();
                let ghost old_cur = cur@;
                done_toks.push(cur);
                cur = String::new();
                proof {
                    assert(done_toks.deep_view() =~= old_done.push(old_cur));
                }
            }
        } else {
            push_char(&mut cur, c);
        }
        i = i + 1;
    }
    proof {
        assert(input@.take(n as int) =~= input@);
    }
    if !cur.as_str().is_empty() {
        let ghost old_done = done_toks.deep_view();
        let ghost old_cur = cur@;
        done_toks.push(cur);
        proof {
            assert(done_toks.deep_view() =~= old_done.push(old_cur));
        }
    }
    done_toks
}

/// Splits a line at every single occurrence of `sep`, exactly as
/// [`split_char`] states: one piece more than there are separators, so
/// always at least one, and with empty pieces kept.
pub fn split_at_char(line: &str, sep: char) -> (r: Vec<String>)
    ensures
        r.deep_view() == split_char(line@, sep),
        r@.len() > 0,
{
    let n = line.unicode_len();
    let mut done_toks: Vec<String> = Vec::new();
    let mut cur = String::new();
    let mut i: usize = 0;
    proof {
        assert(done_toks.deep_view() =~= Seq::<Seq<char>>::empty());
        assert(line@.take(0) =~= Seq::<char>::empty());
    }
    while i < n
        invariant
            i <= n,
            n == line@.len(),
            split_scan(line@.take(i as int), sep).0 == done_toks.deep_view(),
            split_scan(line@.take(i as int), sep).1 == cur@,
        decreases n - i,
    {
        let c = line.get_char(i);
        proof {
            assert(line@.take(i + 1).drop_last() =~= line@.take(i as int));
            assert(line@.take(i + 1).last() == c);
        }
        if c == sep {
            let ghost old_done = done_toks.deep_view();
            let ghost old_cur = cur@;
            done_toks.push(cur);
            cur = String::new();
            proof {
                assert(done_toks.deep_view() =~= old_done.push(old_cur));
            }
        } else {
            push_char(&mut cur, c);
        }
        i = i + 1;
    }
    proof {
        assert(line@.take(n as int) =~= line@);
    }
    let ghost old_done = done_toks.deep_view();
    let ghost old_cur = cur@;
    done_toks.push(cur);
    proof {
        assert(done_toks.deep_view() =~= old_done.push(old_cur));
    }
    done_toks
}

/// Removes every trailing occurrence of `c` from `line`, exactly as
/// [`trim_trailing`] states.
pub fn trim_trailing_char<'a>(line: &'a str, c: char) -> (r: &'a str)
    ensures
        r@ == trim_trailing(line@, c),
{
    let n = line.unicode_len();
    let mut end: usize = n;
    proof {
        assert(line@.take(n as int) =~= line@);
    }
    while end > 0 && line.get_char(end - 1) == c
        invariant
            end <= n,
            n == line@.len(),
            trim_trailing(line@, c) == trim_trailing(line@.take(end as int), c),
        decreases end,
    {
        proof {
            assert(line@.take(end as int).last() == line@[end - 1]);
            assert(line@.take(end as int).drop_last() =~= line@.take(end - 1));
        }
        end = end - 1;
    }
    let r = line.substring_char(0, end);
    proof {
        assert(r@ =~= line@.take(end as int));
        if end > 0 {
            assert(line@.take(end as int).last() != c);
        }
    }
    r
}

} // verus!
