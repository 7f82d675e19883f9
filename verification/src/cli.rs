//! The token store of one resolution session and the operations that
//! resolve descriptors against it.

use crate::arg::{Flag, Optional, Positional};
use crate::convert::FromToken;
use crate::errors::{owned_views, CliError};
use crate::help::Help;
use vstd::prelude::*;
use vstd::string::*;

verus! {

/// What a token holds: its text and whether it has been handed out.
pub struct TokenView {
    pub text: Seq<char>,
    pub consumed: bool,
}

/// Whether `t` is written as a flag or option: a hyphen and at least one
/// more character. Such a token is never taken for a positional.
pub open spec fn flag_form(t: Seq<char>) -> bool {
    t.len() >= 2 && t[0] == '-'
}

/// Whether the text `t` names the descriptor with the long name `name` and
/// the switch `switch`: it is `--name`, or `-c` for the switch `c`.
pub open spec fn names(t: Seq<char>, name: Seq<char>, switch: Option<char>) -> bool {
    t == seq!['-', '-'] + name || (switch matches Some(c) && t == seq!['-', c])
}

/// Index of the first unconsumed token at or after `from` that names the
/// descriptor, or the number of tokens where there is none.
pub open spec fn next_named(
    tokens: Seq<TokenView>,
    name: Seq<char>,
    switch: Option<char>,
    from: int,
) -> int
    decreases tokens.len() - from,
{
    if from < 0 || from >= tokens.len() {
        tokens.len() as int
    } else if !tokens[from].consumed && names(tokens[from].text, name, switch) {
        from
    } else {
        next_named(tokens, name, switch, from + 1)
    }
}

/// Index of the first unconsumed token at or after `from` that is not
/// written as a flag, or the number of tokens where there is none.
pub open spec fn next_positional(tokens: Seq<TokenView>, from: int) -> int
    decreases tokens.len() - from,
{
    if from < 0 || from >= tokens.len() {
        tokens.len() as int
    } else if !tokens[from].consumed && !flag_form(tokens[from].text) {
        from
    } else {
        next_positional(tokens, from + 1)
    }
}

/// The positions below `upto` of the tokens that are not consumed, in
/// ascending order.
pub open spec fn leftover_positions(tokens: Seq<TokenView>, upto: int) -> Seq<usize>
    decreases upto,
{
    if upto <= 0 {
        Seq::empty()
    } else if upto <= tokens.len() && !tokens[upto - 1].consumed {
        leftover_positions(tokens, upto - 1).push((upto - 1) as usize)
    } else {
        leftover_positions(tokens, upto - 1)
    }
}

/// The texts of the tokens at `positions`.
pub open spec fn texts_at(tokens: Seq<TokenView>, positions: Seq<usize>) -> Seq<Seq<char>> {
    Seq::new(positions.len(), |k: int| tokens[positions[k] as int].text)
}

/// The tokens with the one at `i` marked consumed.
pub open spec fn consume(tokens: Seq<TokenView>, i: int) -> Seq<TokenView>
    recommends
        0 <= i < tokens.len(),
{
    tokens.update(i, TokenView { text: tokens[i].text, consumed: true })
}

/// Whether a value stands behind the option found at `i`: the next token
/// exists, is unconsumed and is not written as a flag.
pub open spec fn value_follows(tokens: Seq<TokenView>, i: int) -> bool {
    0 <= i && i + 1 < tokens.len() && !tokens[i + 1].consumed && !flag_form(tokens[i + 1].text)
}

/// The tokens that a session starts with: the raw arguments without the
/// first, which is the program's name, each unconsumed.
pub open spec fn fresh_tokens(raw_args: Seq<String>) -> Seq<TokenView> {
    Seq::new(
        if raw_args.len() == 0 {
            0
        } else {
            (raw_args.len() - 1) as nat
        },
        |i: int| TokenView { text: raw_args[i + 1]@, consumed: false },
    )
}

/// What converting the token text `text` for the argument `name` gives: the
/// value that the text denotes, or an invalid-value error with `help`.
pub open spec fn converted<'c, T: FromToken>(
    text: Seq<char>,
    name: Seq<char>,
    help: Option<Help<'c>>,
    r: Result<T, CliError<'c>>,
) -> bool {
    if T::valid(text) {
        r matches Ok(v) && T::denotes(text, v)
    } else {
        r matches Err(e) && e.kind.is_invalid_value(name, Some(text)) && e.help == help
    }
}

/// As `converted`, for a result that may also be absent.
pub open spec fn converted_present<'c, T: FromToken>(
    text: Seq<char>,
    name: Seq<char>,
    help: Option<Help<'c>>,
    r: Result<Option<T>, CliError<'c>>,
) -> bool {
    if T::valid(text) {
        r matches Ok(Some(v)) && T::denotes(text, v)
    } else {
        r matches Err(e) && e.kind.is_invalid_value(name, Some(text)) && e.help == help
    }
}

/// Whether `r` reports the argument `name` as missing, with `help`.
pub open spec fn missing<'c, T>(
    name: Seq<char>,
    help: Option<Help<'c>>,
    r: Result<T, CliError<'c>>,
) -> bool {
    r matches Err(e) && e.kind.is_missing_required(name) && e.help == help
}

/// Whether `r` reports that the option `name` has no value, with `help`.
pub open spec fn lacks_value<'c, T>(
    name: Seq<char>,
    help: Option<Help<'c>>,
    r: Result<T, CliError<'c>>,
) -> bool {
    r matches Err(e) && e.kind.is_invalid_value(name, None) && e.help == help
}

/// A search finds an unconsumed token at or after its start, and passes
/// over none that would do.
pub proof fn lemma_next_positional_is_first(tokens: Seq<TokenView>, from: int)
    requires
        0 <= from <= tokens.len(),
    ensures
        from <= next_positional(tokens, from) <= tokens.len(),
        next_positional(tokens, from) < tokens.len() ==> !tokens[next_positional(
            tokens,
            from,
        )].consumed && !flag_form(tokens[next_positional(tokens, from)].text),
        forall|j: int|
            from <= j < next_positional(tokens, from) ==> (#[trigger] tokens[j]).consumed
                || flag_form(tokens[j].text),
    decreases tokens.len() - from,
{
    if from < tokens.len() && !(!tokens[from].consumed && !flag_form(tokens[from].text)) {
        lemma_next_positional_is_first(tokens, from + 1);
    }
}

/// Consuming a token that is written as a flag, wherever it stands, changes
/// nothing about which token the next positional is.
pub proof fn lemma_flags_do_not_move_positionals(tokens: Seq<TokenView>, k: int, from: int)
    requires
        0 <= k < tokens.len(),
        flag_form(tokens[k].text),
    ensures
        next_positional(consume(tokens, k), from) == next_positional(tokens, from),
    decreases tokens.len() - from,
{
    if 0 <= from < tokens.len() {
        lemma_flags_do_not_move_positionals(tokens, k, from + 1);
    }
}

/// Positionals are handed out from left to right: once the first one is
/// consumed, the next is the first that stands after it.
pub proof fn lemma_positionals_left_to_right(tokens: Seq<TokenView>)
    requires
        next_positional(tokens, 0) < tokens.len(),
    ensures
        next_positional(consume(tokens, next_positional(tokens, 0)), 0) == next_positional(
            tokens,
            next_positional(tokens, 0) + 1,
        ),
{
    let i = next_positional(tokens, 0);
    lemma_next_positional_is_first(tokens, 0);
    lemma_consumed_prefix_is_skipped(tokens, i, 0);
}

/// A search that starts at or before the consumed token `i`, with nothing
/// to find before `i`, goes on behind it.
proof fn lemma_consumed_prefix_is_skipped(tokens: Seq<TokenView>, i: int, from: int)
    requires
        0 <= from <= i < tokens.len(),
        forall|j: int|
            from <= j < i ==> (#[trigger] tokens[j]).consumed || flag_form(tokens[j].text),
    ensures
        next_positional(consume(tokens, i), from) == next_positional(tokens, i + 1),
    decreases i - from,
{
    if from < i {
        lemma_consumed_prefix_is_skipped(tokens, i, from + 1);
    } else {
        lemma_untouched_suffix(tokens, i, i + 1);
    }
}

/// Consuming the token `i` changes no search that starts behind it.
proof fn lemma_untouched_suffix(tokens: Seq<TokenView>, i: int, from: int)
    requires
        0 <= i < from,
        i < tokens.len(),
    ensures
        next_positional(consume(tokens, i), from) == next_positional(tokens, from),
    decreases tokens.len() - from,
{
    if from < tokens.len() {
        lemma_untouched_suffix(tokens, i, from + 1);
    }
}

/// A consumed token is never found again, whatever is searched for and
/// wherever the search starts.
pub proof fn lemma_consumed_is_never_found(
    tokens: Seq<TokenView>,
    name: Seq<char>,
    switch: Option<char>,
    i: int,
    from: int,
)
    requires
        0 <= i < tokens.len(),
        tokens[i].consumed,
    ensures
        next_positional(tokens, from) != i,
        next_named(tokens, name, switch, from) != i,
    decreases tokens.len() - from,
{
    if 0 <= from < tokens.len() {
        lemma_consumed_is_never_found(tokens, name, switch, i, from + 1);
    }
}

/// A search for a named descriptor finds an unconsumed token that names it,
/// and passes over none that would do: the first match wins.
pub proof fn lemma_next_named_is_first(
    tokens: Seq<TokenView>,
    name: Seq<char>,
    switch: Option<char>,
    from: int,
)
    requires
        0 <= from <= tokens.len(),
    ensures
        from <= next_named(tokens, name, switch, from) <= tokens.len(),
        next_named(tokens, name, switch, from) < tokens.len() ==> !tokens[next_named(
            tokens,
            name,
            switch,
            from,
        )].consumed && names(tokens[next_named(tokens, name, switch, from)].text, name, switch),
        forall|j: int|
            from <= j < next_named(tokens, name, switch, from) ==> (#[trigger] tokens[j]).consumed
                || !names(tokens[j].text, name, switch),
    decreases tokens.len() - from,
{
    if from < tokens.len() && !(!tokens[from].consumed && names(tokens[from].text, name, switch)) {
        lemma_next_named_is_first(tokens, name, switch, from + 1);
    }
}

/// No token is left over exactly when every token is consumed, and what is
/// left over is unconsumed.
pub proof fn lemma_leftover_positions(tokens: Seq<TokenView>, upto: int)
    requires
        0 <= upto <= tokens.len() <= usize::MAX,
    ensures
        leftover_positions(tokens, upto).len() == 0 <==> (forall|j: int|
            0 <= j < upto ==> (#[trigger] tokens[j]).consumed),
        forall|k: int|
            0 <= k < leftover_positions(tokens, upto).len() ==> (#[trigger] leftover_positions(
                tokens,
                upto,
            )[k]) < upto && !tokens[leftover_positions(tokens, upto)[k] as int].consumed,
    decreases upto,
{
    if upto > 0 {
        lemma_leftover_positions(tokens, upto - 1);
    }
}

/// Marking a token consumed a second time changes nothing.
pub proof fn lemma_consume_is_idempotent(tokens: Seq<TokenView>, i: int)
    requires
        0 <= i < tokens.len(),
    ensures
        consume(consume(tokens, i), i) == consume(tokens, i),
{
    assert(consume(consume(tokens, i), i) =~= consume(tokens, i));
}

/// One command-line argument and whether it has been handed out.
#[derive(Debug)]
struct Token {
    text: String,
    consumed: bool,
}

/// The token store of one resolution session, with the help document that
/// its errors carry.
#[derive(Debug)]
pub struct Cli<'c> {
    tokens: Vec<Token>,
    help: Option<Help<'c>>,
}

impl<'c> View for Cli<'c> {
    type V = Seq<TokenView>;

    closed spec fn view(&self) -> Seq<TokenView> {
        Seq::new(
            self.tokens@.len(),
            |i: int| TokenView { text: self.tokens@[i].text@, consumed: self.tokens@[i].consumed },
        )
    }
}

/// Converts the token text `text` for the argument `name`.
pub fn convert_token<'c, T: FromToken>(
    text: &str,
    name: &str,
    help: Option<Help<'c>>,
) -> (r: Result<T, CliError<'c>>)
    ensures
        converted(text@, name@, help, r),
{
    match T::from_token(text) {
        Some(v) => Ok(v),
        None => Err(CliError::invalid_value(name, text, help)),
    }
}

/// Whether `t` is written as a flag.
fn has_flag_form(t: &str) -> (r: bool)
    ensures
        r == flag_form(t@),
{
    t.unicode_len() >= 2 && t.get_char(0) == '-'
}

/// Whether `t` names the descriptor whose long form is `long`.
fn is_named(t: &String, long: &String, switch: Option<char>) -> (r: bool)
    ensures
        r == (t@ == long@ || (switch matches Some(c) && t@ == seq!['-', c])),
{
    if *t == *long {
        return true;
    }
    match switch {
        Some(c) => {
            let s = t.as_str();
            let r = s.unicode_len() == 2 && s.get_char(0) == '-' && s.get_char(1) == c;
            proof {
                if r {
                    assert(t@ =~= seq!['-', c]);
                }
            }
            r
        },
        None => false,
    }
}

/// The long form of `name`: two hyphens before it.
fn long_form(name: &str) -> (r: String)
    ensures
        r@ == seq!['-', '-'] + name@,
{
    let hyphens = "--";
    proof {
        reveal_strlit("--");
        assert(hyphens@ =~= seq!['-', '-']);
    }
    String::from_str(hyphens).concat(name)
}

impl<'c> Cli<'c> {
    /// The help document that errors carry, if one is registered.
    pub closed spec fn active_help(&self) -> Option<Help<'c>> {
        self.help
    }

    /// Starts a session on the raw arguments of a process. The first
    /// argument is the program's name and becomes no token; the others
    /// become the tokens, in their order, all unconsumed.
    pub fn tokenize(raw_args: Vec<String>) -> (r: Self)
        ensures
            r@ == fresh_tokens(raw_args@),
            r.active_help() is None,
    {
        let mut tokens: Vec<Token> = Vec::new();
        let mut i: usize = 1;
        while i < raw_args.len()
            invariant
                1 <= i,
                i <= raw_args.len() || i == 1,
                tokens@.len() == i - 1,
                forall|j: int|
                    0 <= j < tokens@.len() ==> (#[trigger] tokens@[j]).text@ == raw_args@[j + 1]@
                        && !tokens@[j].consumed,
            decreases raw_args.len() - i,
        {
            tokens.push(Token { text: raw_args[i].clone(), consumed: false });
            i = i + 1;
        }
        let r = Cli { tokens, help: None };
        assert(r@ =~= fresh_tokens(raw_args@));
        r
    }

    /// Registers `help` as the document that later errors carry.
    pub fn help(&mut self, help: Help<'c>)
        ensures
            final(self)@ == old(self)@,
            final(self).active_help() == Some(help),
    {
        self.help = Some(help);
    }

    /// The registered help document.
    pub fn get_help(&self) -> (r: Option<Help<'c>>)
        ensures
            r == self.active_help(),
    {
        self.help
    }

    /// How many tokens the session holds, consumed or not.
    pub fn len(&self) -> (n: usize)
        ensures
            n == self@.len(),
    {
        self.tokens.len()
    }

    /// The text of the token at `i`.
    fn text_at(&self, i: usize) -> (r: &String)
        requires
            i < self@.len(),
        ensures
            r@ == self@[i as int].text,
    {
        &self.tokens[i].text
    }

    /// Whether the token at `i` is consumed.
    fn consumed_at(&self, i: usize) -> (r: bool)
        requires
            i < self@.len(),
        ensures
            r == self@[i as int].consumed,
    {
        self.tokens[i].consumed
    }

    /// Marks the token at `i` consumed.
    fn mark_consumed(&mut self, i: usize)
        requires
            i < old(self)@.len(),
        ensures
            final(self)@ == consume(old(self)@, i as int),
            final(self).active_help() == old(self).active_help(),
    {
        assert(i < self.tokens@.len());
        self.tokens[i].consumed = true;
        assert(final(self)@ =~= consume(old(self)@, i as int));
    }

    /// Finds the first unconsumed token that names the descriptor.
    fn find_named(&self, name: &str, switch: Option<char>) -> (i: usize)
        ensures
            i == next_named(self@, name@, switch, 0),
            i <= self@.len(),
    {
        let long = long_form(name);
        let mut i: usize = 0;
        let n = self.len();
        while i < n
            invariant
                i <= n == self@.len(),
                long@ == seq!['-', '-'] + name@,
                next_named(self@, name@, switch, 0) == next_named(self@, name@, switch, i as int),
            decreases n - i,
        {
            if !self.consumed_at(i) && is_named(self.text_at(i), &long, switch) {
                return i;
            }
            i = i + 1;
        }
        i
    }

    /// Finds the first unconsumed token that is not written as a flag.
    fn find_positional(&self) -> (i: usize)
        ensures
            i == next_positional(self@, 0),
            i <= self@.len(),
    {
        let mut i: usize = 0;
        let n = self.len();
        while i < n
            invariant
                i <= n == self@.len(),
                next_positional(self@, 0) == next_positional(self@, i as int),
            decreases n - i,
        {
            if !self.consumed_at(i) && !has_flag_form(self.text_at(i).as_str()) {
                return i;
            }
            i = i + 1;
        }
        i
    }

    /// Resolves a flag: whether an unconsumed token names it. The first
    /// such token, wherever it stands, is consumed.
    pub fn check_flag(&mut self, flag: &Flag) -> (present: bool)
        ensures
            final(self).active_help() == old(self).active_help(),
            ({
                let tokens = old(self)@;
                let i = next_named(tokens, flag@.name, flag@.switch, 0);
                if i >= tokens.len() {
                    !present && final(self)@ == tokens
                } else {
                    present && final(self)@ == consume(tokens, i)
                }
            }),
    {
        let i = self.find_named(flag.get_name(), flag.get_switch());
        if i < self.len() {
            self.mark_consumed(i);
            true
        } else {
            false
        }
    }

    /// Resolves a positional that may be absent. The first unconsumed token
    /// that is not written as a flag is consumed and converted; where there
    /// is none, the result is `Ok(None)` and the session is unchanged. A
    /// token that does not convert is consumed all the same.
    pub fn check_positional<T: FromToken>(&mut self, arg: &Positional) -> (r: Result<
        Option<T>,
        CliError<'c>,
    >)
        ensures
            final(self).active_help() == old(self).active_help(),
            ({
                let tokens = old(self)@;
                let i = next_positional(tokens, 0);
                if i >= tokens.len() {
                    r matches Ok(None) && final(self)@ == tokens
                } else {
                    final(self)@ == consume(tokens, i) && converted_present(
                        tokens[i].text,
                        arg@,
                        old(self).active_help(),
                        r,
                    )
                }
            }),
    {
        let i = self.find_positional();
        if i >= self.len() {
            return Ok(None);
        }
        self.mark_consumed(i);
        match convert_token::<T>(self.text_at(i).as_str(), arg.get_name(), self.help) {
            Ok(v) => Ok(Some(v)),
            Err(e) => Err(e),
        }
    }

    /// Resolves a positional that must be there: as `check_positional`, but
    /// where no token is left for it the result is a missing-required error
    /// that carries the registered help document.
    pub fn require_positional<T: FromToken>(&mut self, arg: &Positional) -> (r: Result<
        T,
        CliError<'c>,
    >)
        ensures
            final(self).active_help() == old(self).active_help(),
            ({
                let tokens = old(self)@;
                let i = next_positional(tokens, 0);
                if i >= tokens.len() {
                    missing(arg@, old(self).active_help(), r) && final(self)@ == tokens
                } else {
                    final(self)@ == consume(tokens, i) && converted(
                        tokens[i].text,
                        arg@,
                        old(self).active_help(),
                        r,
                    )
                }
            }),
    {
        let i = self.find_positional();
        if i >= self.len() {
            return Err(CliError::missing_required(arg.get_name(), self.help));
        }
        self.mark_consumed(i);
        convert_token::<T>(self.text_at(i).as_str(), arg.get_name(), self.help)
    }

    /// Takes the value of the option `name` that was found at `i`: consumes
    /// the token at `i` and, where a value follows it, that token too, which
    /// is then converted.
    fn take_value<T: FromToken>(&mut self, i: usize, name: &str) -> (r: Result<T, CliError<'c>>)
        requires
            i < old(self)@.len(),
        ensures
            final(self).active_help() == old(self).active_help(),
            ({
                let tokens = old(self)@;
                if value_follows(tokens, i as int) {
                    final(self)@ == consume(consume(tokens, i as int), i + 1) && converted(
                        tokens[i + 1].text,
                        name@,
                        old(self).active_help(),
                        r,
                    )
                } else {
                    final(self)@ == consume(tokens, i as int) && lacks_value(
                        name@,
                        old(self).active_help(),
                        r,
                    )
                }
            }),
    {
        let n = self.len();
        self.mark_consumed(i);
        if i + 1 < n && !self.consumed_at(i + 1) && !has_flag_form(self.text_at(i + 1).as_str()) {
            self.mark_consumed(i + 1);
            convert_token::<T>(self.text_at(i + 1).as_str(), name, self.help)
        } else {
            Err(CliError::no_value(name, self.help))
        }
    }

    /// Resolves an option that may be absent. The first unconsumed token
    /// that names it is consumed. The token behind it, if it is unconsumed
    /// and not written as a flag, is its value: it is consumed and
    /// converted. Without such a token the result is an invalid-value error
    /// that names no value.
    pub fn check_option<T: FromToken>(&mut self, arg: &Optional) -> (r: Result<
        Option<T>,
        CliError<'c>,
    >)
        ensures
            final(self).active_help() == old(self).active_help(),
            ({
                let tokens = old(self)@;
                let i = next_named(tokens, arg@.name, arg@.switch, 0);
                if i >= tokens.len() {
                    r matches Ok(None) && final(self)@ == tokens
                } else if value_follows(tokens, i) {
                    final(self)@ == consume(consume(tokens, i), i + 1) && converted_present(
                        tokens[i + 1].text,
                        arg@.name,
                        old(self).active_help(),
                        r,
                    )
                } else {
                    final(self)@ == consume(tokens, i) && lacks_value(
                        arg@.name,
                        old(self).active_help(),
                        r,
                    )
                }
            }),
    {
        let i = self.find_named(arg.get_name(), arg.get_switch());
        if i >= self.len() {
            return Ok(None);
        }
        match self.take_value::<T>(i, arg.get_name()) {
            Ok(v) => Ok(Some(v)),
            Err(e) => Err(e),
        }
    }

    /// Resolves an option that must be there: as `check_option`, but where
    /// no token names it the result is a missing-required error that
    /// carries the registered help document.
    pub fn require_option<T: FromToken>(&mut self, arg: &Optional) -> (r: Result<T, CliError<'c>>)
        ensures
            final(self).active_help() == old(self).active_help(),
            ({
                let tokens = old(self)@;
                let i = next_named(tokens, arg@.name, arg@.switch, 0);
                if i >= tokens.len() {
                    missing(arg@.name, old(self).active_help(), r) && final(self)@ == tokens
                } else if value_follows(tokens, i) {
                    final(self)@ == consume(consume(tokens, i), i + 1) && converted(
                        tokens[i + 1].text,
                        arg@.name,
                        old(self).active_help(),
                        r,
                    )
                } else {
                    final(self)@ == consume(tokens, i) && lacks_value(
                        arg@.name,
                        old(self).active_help(),
                        r,
                    )
                }
            }),
    {
        let i = self.find_named(arg.get_name(), arg.get_switch());
        if i >= self.len() {
            return Err(CliError::missing_required(arg.get_name(), self.help));
        }
        self.take_value::<T>(i, arg.get_name())
    }

    /// Whether no token remains unconsumed.
    pub fn is_empty_unconsumed(&self) -> (r: bool)
        ensures
            r <==> (forall|j: int| 0 <= j < self@.len() ==> (#[trigger] self@[j]).consumed),
    {
        let n = self.len();
        let mut i: usize = 0;
        while i < n
            invariant
                i <= n == self@.len(),
                forall|j: int| 0 <= j < i ==> (#[trigger] self@[j]).consumed,
            decreases n - i,
        {
            if !self.consumed_at(i) {
                return false;
            }
            i = i + 1;
        }
        true
    }

    /// The final check of a session: succeeds exactly when every token is
    /// consumed. Otherwise the error names every token that is left over,
    /// with its position, in the order of the command line. The session is
    /// not changed.
    pub fn is_empty(&self) -> (r: Result<(), CliError<'c>>)
        ensures
            r is Ok <==> (forall|j: int| 0 <= j < self@.len() ==> (#[trigger] self@[j]).consumed),
            r matches Err(e) ==> e.help == self.active_help() && e.kind.is_unexpected_extra(
                texts_at(self@, leftover_positions(self@, self@.len() as int)),
                leftover_positions(self@, self@.len() as int),
            ),
    {
        let n = self.len();
        let mut texts: Vec<String> = Vec::new();
        let mut positions: Vec<usize> = Vec::new();
        let mut i: usize = 0;
        while i < n
            invariant
                i <= n == self@.len(),
                positions@ == leftover_positions(self@, i as int),
                owned_views(texts@) == texts_at(self@, positions@),
            decreases n - i,
        {
            if !self.consumed_at(i) {
                let ghost old_texts = texts@;
                let ghost old_positions = positions@;
                texts.push(self.text_at(i).clone());
                positions.push(i);
                proof {
                    assert(owned_views(old_texts).len() == texts_at(self@, old_positions).len());
                    assert forall|k: int| 0 <= k < texts@.len() implies owned_views(texts@)[k]
                        == texts_at(self@, positions@)[k] by {
                        if k < old_texts.len() {
                            assert(owned_views(old_texts)[k] == texts_at(self@, old_positions)[k]);
                        }
                    }
                    assert(owned_views(texts@) =~= texts_at(self@, positions@));
                }
            }
            i = i + 1;
        }
        proof {
            lemma_leftover_positions(self@, n as int);
        }
        if positions.len() == 0 {
            Ok(())
        } else {
            Err(CliError::unexpected_extra(texts, positions, self.help))
        }
    }
}

} // verus!
