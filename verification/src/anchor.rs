//! The packet filter anchor: putting the rules in place and taking them away again.

use crate::command::{lossy_text, CommandOutput};
use crate::ports::Ports;
use crate::rules::{pf_rules, RouteError};
use crate::text::{is_ascii_alphanumeric, is_white_space, join_with_spaces, to_chars, trimmed};
use crate::{command, rules, text};
use vstd::prelude::*;

verus! {

/// The anchor that the rules are loaded into.
pub const ANCHOR: &'static str = "com.apple/freegsm";

/// Whether every character of `s` is an ASCII letter or digit.
pub open spec fn alphanumeric(s: Seq<char>) -> bool {
    forall|k: int| 0 <= k < s.len() ==> text::ascii_alphanumeric(#[trigger] s[k])
}

/// How many characters of `s` come after its last white space.
pub open spec fn last_word_len(s: Seq<char>) -> nat
    decreases s.len(),
{
    if s.len() == 0 || text::white_space(s.last()) {
        0
    } else {
        1 + last_word_len(s.drop_last())
    }
}

/// The last word of `s` that is made of ASCII letters and digits alone.
pub open spec fn token_named(s: Seq<char>) -> Option<Seq<char>>
    decreases s.len(),
{
    let from = s.len() - last_word_len(s);
    proof {
        lemma_last_word_fits(s);
    }
    if s.len() == 0 {
        None
    } else if from == s.len() {
        token_named(s.drop_last())
    } else if alphanumeric(s.skip(from)) {
        Some(s.skip(from))
    } else {
        token_named(s.take(from))
    }
}

/// No more characters come after the last white space of a text than it has.
pub proof fn lemma_last_word_fits(s: Seq<char>)
    ensures
        last_word_len(s) <= s.len(),
    decreases s.len(),
{
    if s.len() > 0 {
        lemma_last_word_fits(s.drop_last());
    }
}

proof fn lemma_last_word_len(s: Seq<char>, from: int)
    requires
        0 <= from <= s.len(),
        forall|k: int| from <= k < s.len() ==> !text::white_space(#[trigger] s[k]),
        from > 0 ==> text::white_space(s[from - 1]),
    ensures
        last_word_len(s) == s.len() - from,
    decreases s.len(),
{
    if from < s.len() {
        lemma_last_word_len(s.drop_last(), from);
    }
}

/// Where the last word of `s` lies.
proof fn lemma_last_word_is_a_word(s: Seq<char>)
    ensures
        last_word_len(s) > 0 ==> text::word_at(s, s.len() - last_word_len(s), s.len() as int),
    decreases s.len(),
{
    if last_word_len(s) > 0 {
        let rest = s.drop_last();
        lemma_last_word_fits(s);
        lemma_last_word_fits(rest);
        lemma_last_word_is_a_word(rest);
        let from = s.len() - last_word_len(s);
        assert forall|k: int| from <= k < s.len() implies !text::white_space(#[trigger] s[k]) by {
            if k < rest.len() {
                assert(rest[k] == s[k]);
            }
        }
        if last_word_len(rest) == 0 && rest.len() > 0 {
            assert(rest.last() == s[from - 1]);
        } else if rest.len() > 0 && from > 0 {
            assert(rest[from - 1] == s[from - 1]);
        }
    }
}

/// The words of a beginning of `s` that ends before white space are words of `s`, and those of
/// `s` that end in it are its words.
proof fn lemma_words_of_a_beginning(s: Seq<char>, to: int, i: int, j: int)
    requires
        0 <= to <= s.len(),
        to == s.len() || text::white_space(s[to]),
    ensures
        text::word_at(s.take(to), i, j) <==> text::word_at(s, i, j) && j <= to,
{
    let part = s.take(to);
    if text::word_at(part, i, j) {
        assert forall|k: int| i <= k < j implies !text::white_space(#[trigger] s[k]) by {
            assert(part[k] == s[k]);
        }
        if i > 0 {
            assert(part[i - 1] == s[i - 1]);
        }
        if j < part.len() {
            assert(part[j] == s[j]);
        }
    }
    if text::word_at(s, i, j) && j <= to {
        assert forall|k: int| i <= k < j implies !text::white_space(#[trigger] part[k]) by {
            assert(part[k] == s[k]);
        }
        if i > 0 {
            assert(part[i - 1] == s[i - 1]);
        }
        if j < part.len() {
            assert(part[j] == s[j]);
        }
    }
}

/// Whether the characters of `s` from `i` up to `j` are one of its words, made of ASCII letters
/// and digits alone.
pub open spec fn plain_word_at(s: Seq<char>, i: int, j: int) -> bool {
    text::word_at(s, i, j) && alphanumeric(s.subrange(i, j))
}

/// Whether `token` is the last plain word of `s`, or nothing where `s` has none.
pub open spec fn last_plain_word(s: Seq<char>, token: Option<Seq<char>>) -> bool {
    match token {
        Some(word) => exists|i: int, j: int|
            {
                &&& #[trigger] plain_word_at(s, i, j)
                &&& word == s.subrange(i, j)
                &&& forall|a: int, b: int| #[trigger] plain_word_at(s, a, b) ==> a <= i
            },
        None => forall|i: int, j: int| !#[trigger] plain_word_at(s, i, j),
    }
}

/// A text that goes on after a beginning, but has the same plain words, has the same last one.
proof fn lemma_same_last_plain_word(s: Seq<char>, to: int, token: Option<Seq<char>>)
    requires
        0 <= to <= s.len(),
        forall|i: int, j: int| #[trigger]
            plain_word_at(s.take(to), i, j) <==> plain_word_at(s, i, j),
        last_plain_word(s.take(to), token),
    ensures
        last_plain_word(s, token),
{
    let part = s.take(to);
    if let Some(word) = token {
        let (i, j) = choose|i: int, j: int|
            {
                &&& #[trigger] plain_word_at(part, i, j)
                &&& word == part.subrange(i, j)
                &&& forall|a: int, b: int| #[trigger] plain_word_at(part, a, b) ==> a <= i
            };
        assert(plain_word_at(s, i, j));
        assert(part.subrange(i, j) =~= s.subrange(i, j));
        assert forall|a: int, b: int| #[trigger] plain_word_at(s, a, b) implies a <= i by {
            assert(plain_word_at(part, a, b));
        }
    } else {
        assert forall|i: int, j: int| !#[trigger] plain_word_at(s, i, j) by {
            assert(!plain_word_at(part, i, j));
        }
    }
}

/// The token is a word made of ASCII letters and digits alone, and no such word comes after it;
/// where there is no token there is no such word.
pub proof fn law_token_is_the_last_plain_word(s: Seq<char>)
    ensures
        last_plain_word(s, token_named(s)),
    decreases s.len(),
{
    lemma_last_word_fits(s);
    lemma_last_word_is_a_word(s);
    let from = s.len() - last_word_len(s);
    if s.len() == 0 {
    } else if from == s.len() {
        let to = s.len() - 1;
        assert(s.drop_last() =~= s.take(to));
        law_token_is_the_last_plain_word(s.take(to));
        assert forall|i: int, j: int| #[trigger]
            plain_word_at(s.take(to), i, j) <==> plain_word_at(s, i, j) by {
            lemma_words_of_a_beginning(s, to, i, j);
            if text::word_at(s, i, j) && j == s.len() {
                assert(!text::white_space(s[j - 1]));
            }
            if 0 <= i <= j <= to {
                assert(s.take(to).subrange(i, j) =~= s.subrange(i, j));
            }
        }
        lemma_same_last_plain_word(s, to, token_named(s));
    } else if alphanumeric(s.skip(from)) {
        assert(s.skip(from) =~= s.subrange(from, s.len() as int));
        assert(plain_word_at(s, from, s.len() as int));
        assert forall|a: int, b: int| #[trigger] plain_word_at(s, a, b) implies a <= from by {
            if a > from {
                assert(!text::white_space(s[a - 1]));
            }
        }
    } else {
        law_token_is_the_last_plain_word(s.take(from));
        assert forall|i: int, j: int| #[trigger]
            plain_word_at(s.take(from), i, j) <==> plain_word_at(s, i, j) by {
            lemma_words_before_the_last(s, from, i, j);
        }
        lemma_same_last_plain_word(s, from, token_named(s));
    }
}

/// With the last word of `s` taken away, its plain words are those of the rest, if the last one
/// is none.
proof fn lemma_words_before_the_last(s: Seq<char>, from: int, i: int, j: int)
    requires
        text::word_at(s, from, s.len() as int),
        !alphanumeric(s.skip(from)),
    ensures
        plain_word_at(s.take(from), i, j) <==> plain_word_at(s, i, j),
{
    let part = s.take(from);
    if plain_word_at(part, i, j) {
        assert(!text::white_space(part[j - 1]));
        assert(j < from) by {
            if j == from {
                assert(part[from - 1] == s[from - 1]);
            }
        }
        lemma_words_of_a_beginning(s, j, i, j);
        assert(s.take(j) =~= part.take(j));
        lemma_words_of_a_beginning(part, j, i, j);
        assert(part.subrange(i, j) =~= s.subrange(i, j));
    }
    if plain_word_at(s, i, j) {
        if j > from {
            if i < from {
                assert(text::white_space(s[from - 1]));
                assert(!text::white_space(s[from - 1]));
            } else if i > from {
                assert(!text::white_space(s[i - 1]));
            } else {
                if j < s.len() {
                    assert(!text::white_space(s[j]));
                }
                assert(s.skip(from) =~= s.subrange(i, j));
            }
            assert(false);
        }
        if j == from {
            assert(!text::white_space(s[j - 1]));
        }
        lemma_words_of_a_beginning(s, j, i, j);
        assert(s.take(j) =~= part.take(j));
        assert(part[j] == s[j]);
        lemma_words_of_a_beginning(part, j, i, j);
        assert(part.subrange(i, j) =~= s.subrange(i, j));
    }
}

/// The token in the output of `pfctl -E`: the last of its words that is made of ASCII letters
/// and digits alone.
pub fn token_in(said: &str) -> (r: Option<String>)
    ensures
        match r {
            Some(token) => token_named(said@) == Some(token@),
            None => token_named(said@) is None,
        },
{
    let chars = to_chars(said);
    let mut to: usize = chars.len();
    assert(said@.take(to as int) =~= said@);
    while to > 0
        invariant
            chars@ == said@,
            to <= chars.len(),
            token_named(said@) == token_named(said@.take(to as int)),
        decreases to,
    {
        let ghost part = said@.take(to as int);
        let mut from: usize = to;
        let mut plain = true;
        while from > 0 && !is_white_space(chars[from - 1])
            invariant
                chars@ == said@,
                from <= to <= chars.len(),
                forall|k: int| from <= k < to ==> !text::white_space(#[trigger] said@[k]),
                plain == forall|k: int|
                    from <= k < to ==> text::ascii_alphanumeric(#[trigger] said@[k]),
            decreases from,
        {
            from -= 1;
            if !is_ascii_alphanumeric(chars[from]) {
                plain = false;
            }
        }
        proof {
            assert forall|k: int| from <= k < part.len() implies !text::white_space(
                #[trigger] part[k],
            ) by {
                assert(part[k] == said@[k]);
            }
            lemma_last_word_len(part, from as int);
        }
        if from == to {
            assert(part.drop_last() =~= said@.take(to - 1));
            to -= 1;
        } else {
            let ghost word = said@.subrange(from as int, to as int);
            assert(part.skip(from as int) =~= word);
            assert(plain == alphanumeric(word)) by {
                if plain {
                    assert forall|k: int| 0 <= k < word.len() implies text::ascii_alphanumeric(
                        #[trigger] word[k],
                    ) by {
                        assert(word[k] == said@[k + from]);
                    }
                } else {
                    let k = choose|k: int|
                        from <= k < to && !text::ascii_alphanumeric(#[trigger] said@[k]);
                    assert(word[k - from] == said@[k]);
                }
            }
            if plain {
                return Some(said.substring_char(from, to).to_owned());
            }
            assert(part.take(from as int) =~= said@.take(from as int));
            to = from;
        }
    }
    None
}

/// Why `pfctl` did not do what it was told.
pub enum PfctlError<S> {
    /// It could not be run; its arguments.
    NotRun(S),
    /// It failed; its arguments, and what it said.
    Failed(S, S),
}

impl View for PfctlError<String> {
    type V = PfctlError<Seq<char>>;

    open spec fn view(&self) -> PfctlError<Seq<char>> {
        match self {
            PfctlError::NotRun(a) => PfctlError::NotRun(a@),
            PfctlError::Failed(a, said) => PfctlError::Failed(a@, said@),
        }
    }
}

impl PfctlError<Seq<char>> {
    /// The error in words.
    pub open spec fn words(self) -> Seq<char> {
        match self {
            PfctlError::NotRun(args) => "running pfctl "@ + args,
            PfctlError::Failed(args, said) => "pfctl "@ + args + " failed: "@ + said,
        }
    }
}

impl PfctlError<String> {
    /// The error in words.
    pub fn message(&self) -> (r: String)
        ensures
            r@ == self@.words(),
    {
        match self {
            PfctlError::NotRun(args) => {
                let mut out = "running pfctl ".to_owned();
                out.append(args.as_str());
                out
            },
            PfctlError::Failed(args, said) => {
                let mut out = "pfctl ".to_owned();
                out.append(args.as_str());
                out.append(" failed: ");
                out.append(said.as_str());
                out
            },
        }
    }
}

/// What a run of `pfctl` with `args` came to; `None` stands for one that could not be begun.
pub open spec fn pfctl_outcome(args: Seq<Seq<char>>, output: Option<CommandOutput>) -> Result<
    (),
    PfctlError<Seq<char>>,
> {
    match output {
        None => Err(PfctlError::NotRun(text::joined(args))),
        Some(out) => if out.success {
            Ok(())
        } else {
            Err(
                PfctlError::Failed(
                    text::joined(args),
                    text::trim(command::as_text(out.stderr@)),
                ),
            )
        },
    }
}

/// What a run of `pfctl` with `args` came to; `None` stands for one that could not be begun.
pub fn run_pfctl(args: &Vec<String>, output: &Option<CommandOutput>) -> (r: Result<
    (),
    PfctlError<String>,
>)
    ensures
        match r {
            Ok(_) => pfctl_outcome(text::texts(args@), *output) is Ok,
            Err(e) => pfctl_outcome(text::texts(args@), *output) == Err::<
                (),
                PfctlError<Seq<char>>,
            >(e@),
        },
{
    match output {
        None => Err(PfctlError::NotRun(join_with_spaces(args))),
        Some(out) => {
            if out.success {
                Ok(())
            } else {
                let said = lossy_text(&out.stderr);
                Err(PfctlError::Failed(join_with_spaces(args), trimmed(said.as_str())))
            }
        },
    }
}

/// The rules in place, and the token that keeps the packet filter on for them, if there is one.
pub struct PfAnchor {
    token: Option<String>,
}

impl View for PfAnchor {
    type V = Option<Seq<char>>;

    closed spec fn view(&self) -> Option<Seq<char>> {
        match self.token {
            Some(token) => Some(token@),
            None => None,
        }
    }
}

/// Why the rules are not in place.
pub enum InstallError<S> {
    /// There are no rules, as the interface of the default route is not known.
    NoRules(RouteError<S>),
    /// The rules could not be written to a file.
    NotWritten,
    /// The rules could not be loaded.
    NotLoaded(PfctlError<S>),
    /// The packet filter could not be told to switch on.
    EnableNotRun,
    /// The packet filter did not switch on; what was said.
    NotEnabled(S),
}

impl View for InstallError<String> {
    type V = InstallError<Seq<char>>;

    open spec fn view(&self) -> InstallError<Seq<char>> {
        match self {
            InstallError::NoRules(e) => InstallError::NoRules(e@),
            InstallError::NotWritten => InstallError::NotWritten,
            InstallError::NotLoaded(e) => InstallError::NotLoaded(e@),
            InstallError::EnableNotRun => InstallError::EnableNotRun,
            InstallError::NotEnabled(said) => InstallError::NotEnabled(said@),
        }
    }
}

impl InstallError<Seq<char>> {
    /// The error in words.
    pub open spec fn words(self) -> Seq<char> {
        match self {
            InstallError::NoRules(e) => e.words(),
            InstallError::NotWritten => "writing temporary pf rules"@,
            InstallError::NotLoaded(e) => "loading pf anchor: "@ + e.words(),
            InstallError::EnableNotRun => "running pfctl -E"@,
            InstallError::NotEnabled(said) => "enabling pf failed: "@ + said,
        }
    }
}

impl InstallError<String> {
    /// The error in words.
    pub fn message(&self) -> (r: String)
        ensures
            r@ == self@.words(),
    {
        match self {
            InstallError::NoRules(e) => e.message(),
            InstallError::NotWritten => "writing temporary pf rules".to_owned(),
            InstallError::NotLoaded(e) => {
                let mut out = "loading pf anchor: ".to_owned();
                out.append(e.message().as_str());
                out
            },
            InstallError::EnableNotRun => "running pfctl -E".to_owned(),
            InstallError::NotEnabled(said) => {
                let mut out = "enabling pf failed: ".to_owned();
                out.append(said.as_str());
                out
            },
        }
    }
}

/// What putting the rules in place has done next. `S` is a text, `L` a list of them, `A` the
/// rules in place.
pub enum InstallAction<S, L, A> {
    /// Run `route -n get default`.
    FindRoute,
    /// Write this to the rules file.
    WriteRules(S),
    /// Run `pfctl` with these arguments.
    Pfctl(L),
    /// The rules are in place.
    Installed(A),
    /// They are not.
    Failed(InstallError<S>),
}

/// What became of it. `None` stands for a command that could not be run.
pub enum InstallEvent {
    /// `route` ended.
    Route(Option<CommandOutput>),
    /// The rules file was written, or was not.
    Written(bool),
    /// `pfctl` ended.
    Pfctl(Option<CommandOutput>),
}

/// An action in terms of characters.
pub type InstallMove = InstallAction<Seq<char>, Seq<Seq<char>>, Option<Seq<char>>>;

impl View for InstallAction<String, Vec<String>, PfAnchor> {
    type V = InstallMove;

    open spec fn view(&self) -> InstallMove {
        match self {
            InstallAction::FindRoute => InstallAction::FindRoute,
            InstallAction::WriteRules(s) => InstallAction::WriteRules(s@),
            InstallAction::Pfctl(args) => InstallAction::Pfctl(text::texts(args@)),
            InstallAction::Installed(anchor) => InstallAction::Installed(anchor@),
            InstallAction::Failed(e) => InstallAction::Failed(e@),
        }
    }
}

/// How far putting the rules in place has come.
#[derive(Clone, Copy, Debug, PartialEq, Eq, Structural)]
pub enum InstallPhase {
    /// `route` is being run.
    Routing,
    /// The rules are being written to a file.
    Writing,
    /// They are being loaded.
    Loading,
    /// The packet filter is being switched on.
    Enabling,
    /// Nothing is left to do.
    Ended,
}

/// The arguments that have `pfctl` load the rules in the file at `path`.
pub open spec fn load_args(path: Seq<char>) -> Seq<Seq<char>> {
    seq!["-a"@, ANCHOR@, "-f"@, path]
}

/// The arguments that have `pfctl` switch the packet filter on.
pub open spec fn enable_args() -> Seq<Seq<char>> {
    seq!["-E"@]
}

/// The arguments that have `pfctl` take the rules away.
pub open spec fn flush_args() -> Seq<Seq<char>> {
    seq!["-a"@, ANCHOR@, "-F"@, "all"@]
}

/// The arguments that have `pfctl` give `token` back.
pub open spec fn release_args(token: Seq<char>) -> Seq<Seq<char>> {
    seq!["-X"@, token]
}

/// What `pfctl -E` said: its output and then, on a line of its own, what it said of errors.
pub open spec fn enable_said(out: CommandOutput) -> Seq<char> {
    command::as_text(out.stdout@) + "\n"@ + command::as_text(out.stderr@)
}

/// What became of switching the packet filter on.
pub open spec fn enable_outcome(output: Option<CommandOutput>) -> Result<
    Option<Seq<char>>,
    InstallError<Seq<char>>,
> {
    match output {
        None => Err(InstallError::EnableNotRun),
        Some(out) => if out.success {
            Ok(token_named(enable_said(out)))
        } else {
            Err(InstallError::NotEnabled(text::trim(command::as_text(out.stderr@))))
        },
    }
}

/// The rules being put in place.
pub struct Install {
    /// The port plan.
    pub ports: Ports,
    /// Where the rules file is.
    pub path: String,
    /// How far it has come.
    pub phase: InstallPhase,
}

impl Install {
    /// Whether `event` can come next.
    pub open spec fn expects(self, event: InstallEvent) -> bool {
        match self.phase {
            InstallPhase::Routing => event is Route,
            InstallPhase::Writing => event is Written,
            InstallPhase::Loading => event is Pfctl,
            InstallPhase::Enabling => event is Pfctl,
            InstallPhase::Ended => false,
        }
    }

    /// How far it has come after `event`, and what it has done next: the rules are written to
    /// the file, loaded from there, and the packet filter is switched on. What fails ends it.
    pub open spec fn next(self, event: InstallEvent) -> (InstallPhase, InstallMove) {
        match (self.phase, event) {
            (InstallPhase::Routing, InstallEvent::Route(route)) => match rules::rules_outcome(
                self.ports,
                route,
            ) {
                Ok(rules) => (InstallPhase::Writing, InstallAction::WriteRules(rules)),
                Err(e) => (InstallPhase::Ended, InstallAction::Failed(InstallError::NoRules(e))),
            },
            (InstallPhase::Writing, InstallEvent::Written(true)) => (
                InstallPhase::Loading,
                InstallAction::Pfctl(load_args(self.path@)),
            ),
            (InstallPhase::Writing, InstallEvent::Written(false)) => (
                InstallPhase::Ended,
                InstallAction::Failed(InstallError::NotWritten),
            ),
            (InstallPhase::Loading, InstallEvent::Pfctl(output)) => match pfctl_outcome(
                load_args(self.path@),
                output,
            ) {
                Ok(_) => (InstallPhase::Enabling, InstallAction::Pfctl(enable_args())),
                Err(e) => (InstallPhase::Ended, InstallAction::Failed(InstallError::NotLoaded(e))),
            },
            (InstallPhase::Enabling, InstallEvent::Pfctl(output)) => match enable_outcome(output) {
                Ok(token) => (InstallPhase::Ended, InstallAction::Installed(token)),
                Err(e) => (InstallPhase::Ended, InstallAction::Failed(e)),
            },
            _ => (self.phase, InstallAction::FindRoute),
        }
    }

    /// Whether `event` can come next.
    pub fn accepts(&self, event: &InstallEvent) -> (r: bool)
        ensures
            r == self.expects(*event),
    {
        match (self.phase, event) {
            (InstallPhase::Routing, InstallEvent::Route(_)) => true,
            (InstallPhase::Writing, InstallEvent::Written(_)) => true,
            (InstallPhase::Loading, InstallEvent::Pfctl(_)) => true,
            (InstallPhase::Enabling, InstallEvent::Pfctl(_)) => true,
            _ => false,
        }
    }

    fn fail(&mut self, e: InstallError<String>) -> (r: InstallAction<String, Vec<String>, PfAnchor>)
        ensures
            final(self).ports == old(self).ports,
            final(self).path == old(self).path,
            final(self).phase == InstallPhase::Ended,
            r@ == InstallMove::Failed(e@),
    {
        self.phase = InstallPhase::Ended;
        InstallAction::Failed(e)
    }

    fn load_args(&self) -> (r: Vec<String>)
        ensures
            text::texts(r@) == load_args(self.path@),
    {
        let mut args: Vec<String> = Vec::new();
        args.push("-a".to_owned());
        args.push(ANCHOR.to_owned());
        args.push("-f".to_owned());
        args.push(self.path.clone());
        assert(text::texts(args@) =~= load_args(self.path@));
        args
    }

    /// Goes on after `event`.
    pub fn advance(&mut self, event: InstallEvent) -> (r: InstallAction<
        String,
        Vec<String>,
        PfAnchor,
    >)
        requires
            old(self).ports.wf(),
            old(self).expects(event),
        ensures
            final(self).ports == old(self).ports,
            final(self).path == old(self).path,
            (final(self).phase, r@) == old(self).next(event),
    {
        match (self.phase, event) {
            (InstallPhase::Routing, InstallEvent::Route(route)) => {
                match pf_rules(&self.ports, &route) {
                    Ok(rules) => {
                        self.phase = InstallPhase::Writing;
                        InstallAction::WriteRules(rules)
                    },
                    Err(e) => self.fail(InstallError::NoRules(e)),
                }
            },
            (InstallPhase::Writing, InstallEvent::Written(written)) => {
                if written {
                    self.phase = InstallPhase::Loading;
                    InstallAction::Pfctl(self.load_args())
                } else {
                    self.fail(InstallError::NotWritten)
                }
            },
            (InstallPhase::Loading, InstallEvent::Pfctl(output)) => {
                match run_pfctl(&self.load_args(), &output) {
                    Ok(_) => {
                        self.phase = InstallPhase::Enabling;
                        let mut args: Vec<String> = Vec::new();
                        args.push("-E".to_owned());
                        assert(text::texts(args@) =~= enable_args());
                        InstallAction::Pfctl(args)
                    },
                    Err(e) => self.fail(InstallError::NotLoaded(e)),
                }
            },
            (_, InstallEvent::Pfctl(output)) => {
                match PfAnchor::enabled(&output) {
                    Ok(anchor) => {
                        self.phase = InstallPhase::Ended;
                        InstallAction::Installed(anchor)
                    },
                    Err(e) => self.fail(e),
                }
            },
            _ => InstallAction::FindRoute,
        }
    }
}

impl PfAnchor {
    /// Begins to put the rules in place, by way of a file at `path`.
    pub fn install(ports: Ports, path: String) -> (r: (
        Install,
        InstallAction<String, Vec<String>, PfAnchor>,
    ))
        ensures
            r.0 == (Install { ports, path, phase: InstallPhase::Routing }),
            r.1@ == InstallMove::FindRoute,
    {
        (Install { ports, path, phase: InstallPhase::Routing }, InstallAction::FindRoute)
    }

    /// The rules in place, once they are loaded and `pfctl -E` came to `output`.
    pub fn enabled(output: &Option<CommandOutput>) -> (r: Result<PfAnchor, InstallError<String>>)
        ensures
            match r {
                Ok(anchor) => enable_outcome(*output) == Ok::<
                    Option<Seq<char>>,
                    InstallError<Seq<char>>,
                >(anchor@),
                Err(e) => enable_outcome(*output) == Err::<
                    Option<Seq<char>>,
                    InstallError<Seq<char>>,
                >(e@),
            },
    {
        match output {
            None => Err(InstallError::EnableNotRun),
            Some(out) => {
                if !out.success {
                    let said = lossy_text(&out.stderr);
                    return Err(InstallError::NotEnabled(trimmed(said.as_str())));
                }
                let mut said = lossy_text(&out.stdout);
                said.append("\n");
                said.append(lossy_text(&out.stderr).as_str());
                Ok(PfAnchor { token: token_in(said.as_str()) })
            },
        }
    }

    /// Takes the rules away: the runs of `pfctl` that do it, by their arguments, one after
    /// another. What becomes of them changes nothing. The token is given back once.
    pub fn clear(&mut self) -> (r: Vec<Vec<String>>)
        ensures
            final(self)@ is None,
            commands(r@) == clear_commands(old(self)@),
    {
        let mut runs: Vec<Vec<String>> = Vec::new();
        let mut flush: Vec<String> = Vec::new();
        flush.push("-a".to_owned());
        flush.push(ANCHOR.to_owned());
        flush.push("-F".to_owned());
        flush.push("all".to_owned());
        assert(text::texts(flush@) =~= flush_args());
        runs.push(flush);
        if let Some(token) = self.token.take() {
            let mut release: Vec<String> = Vec::new();
            release.push("-X".to_owned());
            release.push(token);
            assert(text::texts(release@) =~= release_args(token@));
            runs.push(release);
        }
        assert(commands(runs@) =~= clear_commands(old(self)@));
        runs
    }
}

/// Several lists of arguments in terms of characters.
pub open spec fn commands(list: Seq<Vec<String>>) -> Seq<Seq<Seq<char>>> {
    list.map_values(|args: Vec<String>| text::texts(args@))
}

/// The runs of `pfctl` that take the rules away, and give `token` back if there is one.
pub open spec fn clear_commands(token: Option<Seq<char>>) -> Seq<Seq<Seq<char>>> {
    match token {
        Some(t) => seq![flush_args(), release_args(t)],
        None => seq![flush_args()],
    }
}

/// What putting the rules in place comes to, where its steps come to these: the first of them to
/// fail decides, and the steps after it are not taken.
pub open spec fn install_result(
    start: Install,
    route: Option<CommandOutput>,
    written: bool,
    load: Option<CommandOutput>,
    enable: Option<CommandOutput>,
) -> InstallMove {
    let one = (Install { phase: InstallPhase::Routing, ..start }).next(InstallEvent::Route(route));
    let two = (Install { phase: one.0, ..start }).next(InstallEvent::Written(written));
    let three = (Install { phase: two.0, ..start }).next(InstallEvent::Pfctl(load));
    let four = (Install { phase: three.0, ..start }).next(InstallEvent::Pfctl(enable));
    if one.0 == InstallPhase::Ended {
        one.1
    } else if two.0 == InstallPhase::Ended {
        two.1
    } else if three.0 == InstallPhase::Ended {
        three.1
    } else {
        four.1
    }
}

/// The rules are in place only if every step succeeded, and the token that is kept is the one
/// that `pfctl -E` told.
pub proof fn law_rules_are_in_place_if_every_step_succeeds(
    start: Install,
    route: Option<CommandOutput>,
    written: bool,
    load: Option<CommandOutput>,
    enable: Option<CommandOutput>,
)
    ensures
        ({
            let result = install_result(start, route, written, load, enable);
            &&& result is Installed || result is Failed
            &&& result is Installed <==> {
                &&& rules::default_route(route) is Ok
                &&& written
                &&& load is Some && load->0.success
                &&& enable is Some && enable->0.success
            }
            &&& result matches InstallAction::Installed(token) ==> token == token_named(
                enable_said(enable->0),
            )
        }),
{
}

/// Clearing undoes installing: the anchor that the rules were loaded into is emptied before
/// anything else, the token that was told is given back, and clearing again gives nothing back.
pub proof fn law_clearing_undoes_installing(path: Seq<char>, token: Option<Seq<char>>)
    ensures
        clear_commands(token)[0] == flush_args(),
        flush_args()[0] == load_args(path)[0],
        flush_args()[1] == load_args(path)[1],
        token matches Some(t) ==> clear_commands(token).contains(release_args(t)),
        clear_commands(None) == seq![flush_args()],
{
    if let Some(t) = token {
        assert(clear_commands(token)[1] == release_args(t));
    }
}

/// The plain words of a text are its words of the letters `a` to `z`, small or capital, and the
/// digits `0` to `9`.
pub proof fn law_plain_words_are_ascii(s: Seq<char>, i: int, j: int)
    ensures
        plain_word_at(s, i, j) <==> text::word_at(s, i, j) && forall|k: int|
            i <= k < j ==> {
                ||| '0' <= #[trigger] s[k] <= '9'
                ||| 'A' <= s[k] <= 'Z'
                ||| 'a' <= s[k] <= 'z'
            },
{
    if text::word_at(s, i, j) {
        let word = s.subrange(i, j);
        if alphanumeric(word) {
            assert forall|k: int| i <= k < j implies {
                ||| '0' <= #[trigger] s[k] <= '9'
                ||| 'A' <= s[k] <= 'Z'
                ||| 'a' <= s[k] <= 'z'
            } by {
                assert(word[k - i] == s[k]);
            }
        }
    }
}

/// The words of two lines are those of the first line and those of the second.
proof fn lemma_words_of_two_lines(first: Seq<char>, second: Seq<char>, i: int, j: int)
    ensures
        ({
            let both = first + seq!['\n'] + second;
            let k = first.len() + 1;
            plain_word_at(both, i, j) <==> {
                ||| j <= first.len() && plain_word_at(first, i, j)
                ||| i >= k && plain_word_at(second, i - k, j - k)
            }
        }),
{
    let both = first + seq!['\n'] + second;
    let n = first.len() as int;
    let k = n + 1;
    assert(text::white_space(both[n]));
    assert(both.take(n) =~= first);
    lemma_words_of_a_beginning(both, n, i, j);
    if 0 <= i <= j <= n {
        assert(both.subrange(i, j) =~= first.subrange(i, j));
    }
    if i >= k {
        if text::word_at(both, i, j) {
            assert forall|m: int| i - k <= m < j - k implies !text::white_space(
                #[trigger] second[m],
            ) by {
                assert(both[m + k] == second[m]);
            }
            if i - k > 0 {
                assert(both[i - 1] == second[i - k - 1]);
            }
            if j < both.len() {
                assert(both[j] == second[j - k]);
            }
            assert(both.subrange(i, j) =~= second.subrange(i - k, j - k));
        }
        if text::word_at(second, i - k, j - k) {
            assert forall|m: int| i <= m < j implies !text::white_space(#[trigger] both[m]) by {
                assert(both[m] == second[m - k]);
            }
            if i - k > 0 {
                assert(both[i - 1] == second[i - k - 1]);
            } else {
                assert(both[i - 1] == '\n');
            }
            if j < both.len() {
                assert(both[j] == second[j - k]);
            }
            assert(both.subrange(i, j) =~= second.subrange(i - k, j - k));
        }
    } else if text::word_at(both, i, j) && j > n {
        assert(!text::white_space(both[n]));
    }
}

/// Where `pfctl -E` succeeds, the token that is kept is the last plain word of what it wrote to
/// its standard error, if there is one, whatever it wrote to its standard output. Otherwise it is
/// the last plain word of its standard output, and nothing is kept only if that has none either.
pub proof fn law_token_is_looked_for_in_both_outputs(out: CommandOutput)
    requires
        out.success,
    ensures
        ({
            let stdout = command::as_text(out.stdout@);
            let stderr = command::as_text(out.stderr@);
            enable_outcome(Some(out)) matches Ok(token) && {
                &&& !last_plain_word(stderr, None) ==> token is Some && last_plain_word(
                    stderr,
                    token,
                )
                &&& last_plain_word(stderr, None) ==> last_plain_word(stdout, token)
                &&& token is None <==> last_plain_word(stderr, None) && last_plain_word(
                    stdout,
                    None,
                )
            }
        }),
{
    reveal_strlit("\n");
    let stdout = command::as_text(out.stdout@);
    let stderr = command::as_text(out.stderr@);
    let both = stdout + seq!['\n'] + stderr;
    let k = stdout.len() + 1;
    assert("\n"@ =~= seq!['\n']);
    assert(enable_said(out) == both);
    let token = token_named(both);
    law_token_is_the_last_plain_word(both);
    assert forall|i: int, j: int| #[trigger] plain_word_at(stdout, i, j) implies plain_word_at(
        both,
        i,
        j,
    ) by {
        lemma_words_of_two_lines(stdout, stderr, i, j);
    }
    assert forall|i: int, j: int| #[trigger] plain_word_at(stderr, i, j) implies plain_word_at(
        both,
        i + k,
        j + k,
    ) by {
        lemma_words_of_two_lines(stdout, stderr, i + k, j + k);
    }
    if let Some(word) = token {
        let (i, j) = choose|i: int, j: int|
            {
                &&& #[trigger] plain_word_at(both, i, j)
                &&& word == both.subrange(i, j)
                &&& forall|a: int, b: int| #[trigger] plain_word_at(both, a, b) ==> a <= i
            };
        lemma_words_of_two_lines(stdout, stderr, i, j);
        if i >= k {
            assert(plain_word_at(stderr, i - k, j - k));
            assert(both.subrange(i, j) =~= stderr.subrange(i - k, j - k));
            assert forall|a: int, b: int| #[trigger] plain_word_at(stderr, a, b) implies a <= i
                - k by {
                assert(plain_word_at(both, a + k, b + k));
            }
        } else {
            assert(plain_word_at(stdout, i, j));
            assert(both.subrange(i, j) =~= stdout.subrange(i, j));
            assert forall|a: int, b: int| !#[trigger] plain_word_at(stderr, a, b) by {
                if plain_word_at(stderr, a, b) {
                    assert(plain_word_at(both, a + k, b + k));
                }
            }
        }
    } else {
        assert forall|a: int, b: int| !#[trigger] plain_word_at(stderr, a, b) by {
            if plain_word_at(stderr, a, b) {
                assert(plain_word_at(both, a + k, b + k));
            }
        }
    }
}

/// The packet filter is on iff `pfctl -E` ran and succeeded, whatever it wrote. Otherwise what is
/// wrong is that it could not be run, or what it wrote to its standard error.
pub proof fn law_filter_is_on_if_its_command_succeeded(output: Option<CommandOutput>)
    ensures
        match output {
            None => enable_outcome(output) matches Err(e) && e is EnableNotRun,
            Some(out) => if out.success {
                enable_outcome(output) is Ok
            } else {
                enable_outcome(output) matches Err(InstallError::NotEnabled(said)) && said
                    == text::trim(command::as_text(out.stderr@))
            },
        },
{
}

/// A run of `pfctl` has come to what it should iff it ran and succeeded, whatever it wrote.
/// Otherwise what is wrong tells its arguments, with one space between each two, and what it
/// wrote to its standard error, if it ran.
pub proof fn law_run_succeeds_if_its_command_did(
    args: Seq<Seq<char>>,
    output: Option<CommandOutput>,
)
    ensures
        match output {
            None => pfctl_outcome(args, output) matches Err(PfctlError::NotRun(told)) && told
                == text::joined(args),
            Some(out) => if out.success {
                pfctl_outcome(args, output) is Ok
            } else {
                pfctl_outcome(args, output) matches Err(PfctlError::Failed(told, said)) && {
                    &&& told == text::joined(args)
                    &&& said == text::trim(command::as_text(out.stderr@))
                }
            },
        },
{
}

/// The rules are taken away by emptying the anchor `com.apple/freegsm` and, where there is a
/// token, giving that back, in that order and by nothing else.
pub proof fn law_commands_that_take_the_rules_away(token: Seq<char>)
    ensures
        clear_commands(None) == seq![seq!["-a"@, "com.apple/freegsm"@, "-F"@, "all"@]],
        clear_commands(Some(token)) == seq![
            seq!["-a"@, "com.apple/freegsm"@, "-F"@, "all"@],
            seq!["-X"@, token],
        ],
{
}

/// Putting the rules in place goes from the default route to the rules for its interface, from
/// there to loading the rules file into the anchor `com.apple/freegsm`, and from there to
/// switching the packet filter on. Each of these fails for its own reason alone.
pub proof fn law_install_goes_on_after_every_success(
    install: Install,
    route: Option<CommandOutput>,
    written: bool,
    output: Option<CommandOutput>,
)
    ensures
        install.phase == InstallPhase::Routing ==> {
            let (phase, action) = install.next(InstallEvent::Route(route));
            match rules::default_route(route) {
                Ok(iface) => phase == InstallPhase::Writing && action == InstallMove::WriteRules(
                    rules::rules_text(install.ports, iface),
                ),
                Err(e) => phase == InstallPhase::Ended && action == InstallMove::Failed(
                    InstallError::NoRules(e),
                ),
            }
        },
        install.phase == InstallPhase::Writing ==> {
            let (phase, action) = install.next(InstallEvent::Written(written));
            if written {
                phase == InstallPhase::Loading && action == InstallMove::Pfctl(
                    seq!["-a"@, "com.apple/freegsm"@, "-f"@, install.path@],
                )
            } else {
                phase == InstallPhase::Ended && action == InstallMove::Failed(
                    InstallError::NotWritten,
                )
            }
        },
        install.phase == InstallPhase::Loading ==> {
            let (phase, action) = install.next(InstallEvent::Pfctl(output));
            let told = "-a com.apple/freegsm -f "@ + install.path@;
            match output {
                None => phase == InstallPhase::Ended && action == InstallMove::Failed(
                    InstallError::NotLoaded(PfctlError::NotRun(told)),
                ),
                Some(out) => if out.success {
                    phase == InstallPhase::Enabling && action == InstallMove::Pfctl(seq!["-E"@])
                } else {
                    phase == InstallPhase::Ended && action == InstallMove::Failed(
                        InstallError::NotLoaded(
                            PfctlError::Failed(told, text::trim(command::as_text(out.stderr@))),
                        ),
                    )
                },
            }
        },
        install.phase == InstallPhase::Enabling ==> {
            let (phase, action) = install.next(InstallEvent::Pfctl(output));
            &&& phase == InstallPhase::Ended
            &&& match enable_outcome(output) {
                Ok(token) => action == InstallMove::Installed(token),
                Err(e) => action == InstallMove::Failed(e),
            }
        },
{
    let args = load_args(install.path@);
    let told = "-a com.apple/freegsm -f "@ + install.path@;
    assert(text::joined(args) == told) by {
        reveal_with_fuel(text::joined, 4);
        reveal_strlit("-a");
        reveal_strlit("com.apple/freegsm");
        reveal_strlit("-f");
        reveal_strlit(" ");
        reveal_strlit("-a com.apple/freegsm -f ");
        let three = args.drop_last();
        let two = three.drop_last();
        assert(two.drop_last()[0] == args[0]);
        assert(text::joined(two) == "-a"@ + " "@ + "com.apple/freegsm"@);
        assert(text::joined(three) == text::joined(two) + " "@ + "-f"@);
        assert(text::joined(args) == text::joined(three) + " "@ + install.path@);
        assert(text::joined(three) + " "@ =~= "-a com.apple/freegsm -f "@);
        assert(text::joined(args) =~= told);
    }
}

/// Putting the rules in place waits for the outcome of what it has had done, whatever that is,
/// and for nothing else; once the rules are in place, or are not, it waits for nothing.
pub proof fn law_install_waits_for_the_outcome_of_its_action(
    install: Install,
    event: InstallEvent,
    later: InstallEvent,
)
    requires
        install.expects(event),
    ensures
        ({
            let (phase, action) = install.next(event);
            let after = Install { phase, ..install };
            match action {
                InstallAction::FindRoute => false,
                InstallAction::WriteRules(_) => after.expects(later) <==> later is Written,
                InstallAction::Pfctl(_) => after.expects(later) <==> later is Pfctl,
                InstallAction::Installed(_) => !after.expects(later),
                InstallAction::Failed(_) => !after.expects(later),
            }
        }),
        (Install { phase: InstallPhase::Routing, ..install }).expects(later) <==> later is Route,
{
}

/// Every reason why the rules are not in place, in words.
pub proof fn law_install_errors_in_words(e: InstallError<String>)
    ensures
        match e {
            InstallError::NoRules(why) => e@.words() == why@.words(),
            InstallError::NotWritten => e@.words() == "writing temporary pf rules"@,
            InstallError::NotLoaded(PfctlError::NotRun(args)) => e@.words()
                == "loading pf anchor: "@ + ("running pfctl "@ + args@),
            InstallError::NotLoaded(PfctlError::Failed(args, said)) => e@.words()
                == "loading pf anchor: "@ + ("pfctl "@ + args@ + " failed: "@ + said@),
            InstallError::EnableNotRun => e@.words() == "running pfctl -E"@,
            InstallError::NotEnabled(said) => e@.words() == "enabling pf failed: "@ + said@,
        },
{
}

/// Actions stand for the same texts in the model as in the program.
pub proof fn law_texts_are_those_of_the_model(
    action: InstallAction<String, Vec<String>, PfAnchor>,
    list: Seq<Vec<String>>,
    i: int,
    k: int,
)
    ensures
        match action {
            InstallAction::FindRoute => action@ is FindRoute,
            InstallAction::WriteRules(s) => action@ == InstallMove::WriteRules(s@),
            InstallAction::Pfctl(args) => action@ matches InstallAction::Pfctl(told) && {
                &&& told.len() == args@.len()
                &&& 0 <= i < told.len() ==> told[i] == args@[i]@
            },
            InstallAction::Installed(anchor) => action@ == InstallMove::Installed(anchor@),
            InstallAction::Failed(e) => action@ == InstallMove::Failed(e@),
        },
        commands(list).len() == list.len(),
        0 <= i < list.len() ==> commands(list)[i].len() == list[i]@.len(),
        0 <= i < list.len() && 0 <= k < list[i]@.len() ==> commands(list)[i][k] == list[i]@[k]@,
{
}

} // verus!
