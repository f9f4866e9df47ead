//! The interactive disambiguation protocol as a state machine: the caller
//! performs each step (a discovery, a fetch of recent profiles, a prompt) and
//! hands the result back, until the protocol resolves or is cancelled.

use vstd::prelude::*;
use crate::discovery::{first_n, RECENT_LIMIT};
use crate::format::{decimal, decimal_count};
use crate::models::{Connection, ConnectionView};
use crate::text::{
    chars_of, lower_of, lowercase, parse_usize, parse_usize_spec, same_chars, string_of,
    trim, trim_chars,
};

verus! {

/// What a line typed at the selection prompt asks for.
#[derive(Debug, Clone, Copy, PartialEq, Eq)]
pub enum SelectionInput {
    /// `q` or `quit`.
    Quit,
    /// `s` or `search`.
    SearchAgain,
    /// A number from 1 to the number of candidates; this is its position from 0.
    Pick(usize),
    /// A number outside that range.
    OutOfRange,
    /// Anything else.
    Invalid,
}

/// The reading of a line at the selection prompt: trimmed and lowercased,
/// then a command word or a 1-based position among `count` candidates.
pub open spec fn selection_spec(input: Seq<char>, count: nat) -> SelectionInput {
    let t = lower_of(trim(input));
    if t == "q"@ || t == "quit"@ {
        SelectionInput::Quit
    } else if t == "s"@ || t == "search"@ {
        SelectionInput::SearchAgain
    } else {
        match parse_usize_spec(t) {
            Some(k) => if 1 <= k && k <= count {
                SelectionInput::Pick((k - 1) as usize)
            } else {
                SelectionInput::OutOfRange
            },
            None => SelectionInput::Invalid,
        }
    }
}

/// The answer to a yes/no question: an empty (or blank) line gives the
/// default; otherwise `y` or `yes`, in any case, is yes and anything else no.
pub open spec fn confirm_spec(input: Seq<char>, default_yes: bool) -> bool {
    let t = lower_of(trim(input));
    if t.len() == 0 {
        default_yes
    } else {
        t == "y"@ || t == "yes"@
    }
}

/// Reads a line typed at the selection prompt.
pub fn classify_selection(input: &str, count: usize) -> (r: SelectionInput)
    ensures
        r == selection_spec(input@, count as nat),
{
    let trimmed = string_of(&trim_chars(&chars_of(input)));
    let lowered = lowercase(trimmed.as_str());
    let t = chars_of(lowered.as_str());
    if same_chars(&t, &chars_of("q")) || same_chars(&t, &chars_of("quit")) {
        return SelectionInput::Quit;
    }
    if same_chars(&t, &chars_of("s")) || same_chars(&t, &chars_of("search")) {
        return SelectionInput::SearchAgain;
    }
    match parse_usize(&t) {
        Some(k) => {
            if 1 <= k && k <= count {
                SelectionInput::Pick(k - 1)
            } else {
                SelectionInput::OutOfRange
            }
        },
        None => SelectionInput::Invalid,
    }
}

/// Reads the answer to a yes/no question.
pub fn confirm_answer(input: &str, default_yes: bool) -> (r: bool)
    ensures
        r == confirm_spec(input@, default_yes),
{
    let trimmed = string_of(&trim_chars(&chars_of(input)));
    let lowered = lowercase(trimmed.as_str());
    let t = chars_of(lowered.as_str());
    if t.len() == 0 {
        return default_yes;
    }
    same_chars(&t, &chars_of("y")) || same_chars(&t, &chars_of("yes"))
}

/// The uppercase form of a character, as `char::to_uppercase` gives it.
pub uninterp spec fn upper_of(c: char) -> Seq<char>;

/// Relies on `char::to_uppercase`: the uppercase mapping depends on the
/// character alone.
#[verifier::external_body]
fn uppercase_char(c: char) -> (r: String)
    ensures
        r@ == upper_of(c),
{
    c.to_uppercase().collect()
}

/// `s` with its first character in uppercase.
pub open spec fn capitalized(s: Seq<char>) -> Seq<char> {
    if s.len() == 0 {
        s
    } else {
        upper_of(s[0]) + s.drop_first()
    }
}

/// `s` with its first character in uppercase.
pub fn capitalize_first(s: &str) -> (r: String)
    ensures
        r@ == capitalized(s@),
{
    let cs = chars_of(s);
    if cs.len() == 0 {
        return String::new();
    }
    let mut r = uppercase_char(cs[0]);
    let mut i: usize = 1;
    while i < cs.len()
        invariant
            1 <= i <= cs.len(),
            r@ == upper_of(cs@[0]) + cs@.subrange(1, i as int),
        decreases cs.len() - i,
    {
        crate::text::push_char(&mut r, cs[i]);
        i += 1;
        assert(r@ =~= upper_of(cs@[0]) + cs@.subrange(1, i as int));
    }
    assert(cs@.subrange(1, cs@.len() as int) =~= cs@.drop_first());
    r
}

/// The question put for a sole candidate, naming the action.
pub fn confirm_prompt(action_verb: &str) -> (r: String)
    ensures
        r@ == capitalized(action_verb@) + " this connection? [Y/n]: "@,
{
    let mut r = capitalize_first(action_verb);
    r.append(" this connection? [Y/n]: ");
    r
}

/// The selection prompt: what to select, the action, and the choices.
pub open spec fn selection_prompt_spec(from_recent: bool, action_verb: Seq<char>, count: nat) -> Seq<char> {
    (if from_recent {
        "Select recent connection to "@
    } else {
        "Select connection to "@
    }) + action_verb + " [1-"@ + decimal(count as int)
        + ", 's' to search again, 'q' to quit]: "@
}

/// The selection prompt for `count` candidates, or for the recently used
/// profiles offered when nothing matched.
pub fn selection_prompt(from_recent: bool, action_verb: &str, count: usize) -> (r: String)
    ensures
        r@ == selection_prompt_spec(from_recent, action_verb@, count as nat),
{
    let mut r = if from_recent {
        String::from_str("Select recent connection to ")
    } else {
        String::from_str("Select connection to ")
    };
    r.append(action_verb);
    r.append(" [1-");
    let n = decimal_count(count);
    r.append(n.as_str());
    r.append(", 's' to search again, 'q' to quit]: ");
    r
}

/// A yes/no question with its hint, the default answer in uppercase.
pub open spec fn question_spec(question: Seq<char>, default_yes: bool) -> Seq<char> {
    question + (if default_yes {
        " [Y/n]: "@
    } else {
        " [y/N]: "@
    })
}

/// A yes/no question with its hint, the default answer in uppercase.
pub fn question_with_hint(question: &str, default_yes: bool) -> (r: String)
    ensures
        r@ == question_spec(question@, default_yes),
{
    let mut r = string_of(&chars_of(question));
    if default_yes {
        r.append(" [Y/n]: ");
    } else {
        r.append(" [y/N]: ");
    }
    r
}

/// Where the protocol stands.
#[derive(Debug, Clone, Copy, PartialEq, Eq)]
pub enum Phase {
    /// Waiting for the candidates of a discovery round.
    Discovering,
    /// Nothing matched; waiting for the recently used profiles.
    NoMatch,
    /// Waiting for a yes or no on the sole candidate.
    ConfirmSingle,
    /// Waiting for a selection among the candidates.
    ChooseMany,
    /// Waiting for a new search term.
    SearchTerm,
    /// Ended with a chosen profile.
    Resolved,
    /// Ended without a choice.
    Cancelled,
}

/// How the protocol ends.
#[derive(Debug, Clone)]
pub enum Outcome {
    Resolved(Connection),
    Cancelled,
}

/// Why the selection prompt is put again.
#[derive(Debug, Clone, Copy, PartialEq, Eq)]
pub enum Notice {
    /// The number named no candidate.
    OutOfRange,
    /// The line was neither a number nor a command.
    Invalid,
    /// The new search term was blank.
    EmptySearchTerm,
}

/// What the caller does next.
#[derive(Debug, Clone)]
pub enum Step {
    /// Run discovery for this query and hand over the candidates.
    Discover(String),
    /// Fetch the recently used profiles and hand them over.
    FetchRecent,
    /// Show the sole candidate and ask whether to take it; hand over the line.
    Confirm,
    /// Show the candidates and ask for a selection; hand over the line.
    Choose,
    /// Tell why, then ask for a selection again; hand over the line.
    Reprompt(Notice),
    /// Ask for a new search term; hand over the line.
    AskSearchTerm,
    /// The protocol has ended.
    Done(Outcome),
}

/// The state of one run of the protocol.
pub ghost struct SessionView {
    pub query: Seq<char>,
    pub auto_select_single: bool,
    pub phase: Phase,
    pub candidates: Seq<ConnectionView>,
    pub revised: bool,
}

/// One run of the protocol: the current query and the current round's
/// candidates, nothing of earlier rounds.
pub struct Disambiguation {
    query: String,
    auto_select_single: bool,
    phase: Phase,
    candidates: Vec<Connection>,
    revised: bool,
}

impl View for Disambiguation {
    type V = SessionView;

    closed spec fn view(&self) -> SessionView {
        SessionView {
            query: self.query@,
            auto_select_single: self.auto_select_single,
            phase: self.phase,
            candidates: self.candidates.deep_view(),
            revised: self.revised,
        }
    }
}

/// Whether a step ends the protocol with a profile of the given value.
pub open spec fn resolves_to(s: Step, c: ConnectionView) -> bool {
    s matches Step::Done(Outcome::Resolved(x)) && x@ == c
}

impl Disambiguation {
    #[verifier::type_invariant]
    spec fn inv(&self) -> bool {
        self.phase == Phase::ConfirmSingle ==> self.candidates.len() == 1
    }

    /// A run for `query`; it starts with a discovery round for that query.
    /// With `auto_select_single`, a sole candidate is taken without asking.
    pub fn new(query: &str, auto_select_single: bool) -> (r: Disambiguation)
        ensures
            r@ == (SessionView {
                query: query@,
                auto_select_single,
                phase: Phase::Discovering,
                candidates: Seq::empty(),
                revised: false,
            }),
    {
        let q = string_of(&chars_of(query));
        let candidates: Vec<Connection> = Vec::new();
        assert(candidates.deep_view() =~= Seq::<ConnectionView>::empty());
        Disambiguation {
            query: q,
            auto_select_single,
            phase: Phase::Discovering,
            candidates,
            revised: false,
        }
    }

    /// The query of the current round.
    pub fn query(&self) -> (r: String)
        ensures
            r@ == self@.query,
    {
        self.query.clone()
    }

    /// Where the protocol stands.
    pub fn phase(&self) -> (r: Phase)
        ensures
            r == self@.phase,
    {
        self.phase
    }

    /// The candidates of the current round.
    pub fn candidates(&self) -> (r: &Vec<Connection>)
        ensures
            r.deep_view() == self@.candidates,
    {
        &self.candidates
    }

    /// Takes the candidates of a discovery round: none leads to the recently
    /// used profiles. In the first round, one is taken at once with
    /// auto-selection, else put for confirmation, and several are put for a
    /// selection. In a round after "search again", any candidates are put for
    /// a selection by number, even a single one.
    pub fn on_candidates(&mut self, found: Vec<Connection>) -> (r: Step)
        requires
            old(self)@.phase == Phase::Discovering,
        ensures
            final(self)@.query == old(self)@.query,
            final(self)@.auto_select_single == old(self)@.auto_select_single,
            final(self)@.revised == old(self)@.revised,
            found.len() == 0 ==> final(self)@.phase == Phase::NoMatch && r is FetchRecent,
            found.len() == 1 && !old(self)@.revised && old(self)@.auto_select_single
                ==> final(self)@.phase == Phase::Resolved && resolves_to(r, found.deep_view()[0]),
            found.len() == 1 && !old(self)@.revised && !old(self)@.auto_select_single
                ==> final(self)@.phase == Phase::ConfirmSingle && final(self)@.candidates
                == found.deep_view() && r is Confirm,
            (found.len() >= 2 || (old(self)@.revised && found.len() >= 1)) ==> final(self)@.phase
                == Phase::ChooseMany && final(self)@.candidates == found.deep_view() && r is Choose,
    {
        proof {
            use_type_invariant(&*self);
        }
        if found.len() == 0 {
            self.phase = Phase::NoMatch;
            Step::FetchRecent
        } else if self.revised || found.len() >= 2 {
            self.candidates = found;
            self.phase = Phase::ChooseMany;
            Step::Choose
        } else if found.len() == 1 && self.auto_select_single {
            let c = found[0].duplicate();
            assert(found.deep_view()[0] == found@[0]@);
            self.phase = Phase::Resolved;
            Step::Done(Outcome::Resolved(c))
        } else {
            self.candidates = found;
            self.phase = Phase::ConfirmSingle;
            Step::Confirm
        }
    }

    /// Takes the recently used profiles after a round with no match: none
    /// cancels; otherwise the first few are put for a selection.
    pub fn on_recent(&mut self, recent: Vec<Connection>) -> (r: Step)
        requires
            old(self)@.phase == Phase::NoMatch,
        ensures
            final(self)@.query == old(self)@.query,
            final(self)@.auto_select_single == old(self)@.auto_select_single,
            final(self)@.revised == old(self)@.revised,
            recent.len() == 0 ==> final(self)@.phase == Phase::Cancelled && r matches Step::Done(
                Outcome::Cancelled,
            ),
            recent.len() > 0 ==> final(self)@.phase == Phase::ChooseMany && final(self)@.candidates
                == first_n(recent.deep_view(), RECENT_LIMIT as nat) && r is Choose,
    {
        proof {
            use_type_invariant(&*self);
        }
        if recent.len() == 0 {
            self.phase = Phase::Cancelled;
            Step::Done(Outcome::Cancelled)
        } else {
            let mut recent = recent;
            let ghost before = recent;
            recent.truncate(RECENT_LIMIT);
            assert(recent.deep_view() =~= first_n(before.deep_view(), RECENT_LIMIT as nat));
            self.candidates = recent;
            self.phase = Phase::ChooseMany;
            Step::Choose
        }
    }

    /// Takes a line typed at the current prompt.
    pub fn on_line(&mut self, line: &str) -> (r: Step)
        requires
            old(self)@.phase == Phase::ConfirmSingle || old(self)@.phase == Phase::ChooseMany
                || old(self)@.phase == Phase::SearchTerm,
        ensures
            final(self)@.auto_select_single == old(self)@.auto_select_single,
            old(self)@.phase == Phase::ConfirmSingle ==> if confirm_spec(line@, true) {
                final(self)@.phase == Phase::Resolved && resolves_to(r, old(self)@.candidates[0])
            } else {
                final(self)@.phase == Phase::Cancelled && r matches Step::Done(Outcome::Cancelled)
            },
            old(self)@.phase == Phase::ChooseMany ==> match selection_spec(
                line@,
                old(self)@.candidates.len(),
            ) {
                SelectionInput::Quit => final(self)@.phase == Phase::Cancelled && r matches Step::Done(
                    Outcome::Cancelled,
                ),
                SelectionInput::SearchAgain => final(self)@ == (SessionView {
                    phase: Phase::SearchTerm,
                    ..old(self)@
                }) && r is AskSearchTerm,
                SelectionInput::Pick(k) => final(self)@.phase == Phase::Resolved && resolves_to(
                    r,
                    old(self)@.candidates[k as int],
                ),
                SelectionInput::OutOfRange => final(self)@ == old(self)@ && r matches Step::Reprompt(
                    Notice::OutOfRange,
                ),
                SelectionInput::Invalid => final(self)@ == old(self)@ && r matches Step::Reprompt(
                    Notice::Invalid,
                ),
            },
            old(self)@.phase == Phase::SearchTerm ==> if trim(line@).len() == 0 {
                final(self)@ == (SessionView { phase: Phase::ChooseMany, ..old(self)@ })
                    && r matches Step::Reprompt(Notice::EmptySearchTerm)
            } else {
                &&& final(self)@.phase == Phase::Discovering
                &&& final(self)@.query == trim(line@)
                &&& final(self)@.candidates.len() == 0
                &&& final(self)@.revised
                &&& r matches Step::Discover(q) && q@ == trim(line@)
            },
    {
        proof {
            use_type_invariant(&*self);
        }
        match self.phase {
            Phase::ConfirmSingle => {
                if confirm_answer(line, true) {
                    let c = self.candidates[0].duplicate();
                    assert(self.candidates.deep_view()[0] == self.candidates@[0]@);
                    self.phase = Phase::Resolved;
                    Step::Done(Outcome::Resolved(c))
                } else {
                    self.phase = Phase::Cancelled;
                    Step::Done(Outcome::Cancelled)
                }
            },
            Phase::ChooseMany => {
                match classify_selection(line, self.candidates.len()) {
                    SelectionInput::Quit => {
                        self.phase = Phase::Cancelled;
                        Step::Done(Outcome::Cancelled)
                    },
                    SelectionInput::SearchAgain => {
                        self.phase = Phase::SearchTerm;
                        Step::AskSearchTerm
                    },
                    SelectionInput::Pick(k) => {
                        let c = self.candidates[k].duplicate();
                        assert(self.candidates.deep_view()[k as int] == self.candidates@[k as int]@);
                        self.phase = Phase::Resolved;
                        Step::Done(Outcome::Resolved(c))
                    },
                    SelectionInput::OutOfRange => Step::Reprompt(Notice::OutOfRange),
                    SelectionInput::Invalid => Step::Reprompt(Notice::Invalid),
                }
            },
            _ => {
                let t = trim_chars(&chars_of(line));
                if t.len() == 0 {
                    self.phase = Phase::ChooseMany;
                    Step::Reprompt(Notice::EmptySearchTerm)
                } else {
                    self.query = string_of(&t);
                    self.candidates = Vec::new();
                    assert(self.candidates.deep_view() =~= Seq::<ConnectionView>::empty());
                    self.phase = Phase::Discovering;
                    self.revised = true;
                    Step::Discover(string_of(&t))
                }
            },
        }
    }
}

} // verus!
