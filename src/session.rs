//! How a connection identifies itself, and what each kind of connection
//! does in a round.

use vstd::prelude::*;

verus! {

/// What an identified connection is, for the rest of its life.
#[derive(Clone, Copy, Debug, PartialEq, Eq, Structural)]
pub enum Role {
    /// The first competitor; its handler computes each tick.
    CompetitorA,
    /// The second competitor.
    CompetitorB,
    /// The one spectator; it never sends input.
    Spectator,
}

/// Why a connection was refused; the connection is then closed.
#[derive(Clone, Copy, Debug, PartialEq, Eq, Structural)]
pub enum Rejection {
    /// The first line was neither `COMPETITOR` nor `SPECTATOR`.
    UnknownGreeting,
    /// Two competitors are registered already.
    CompetitorsFull,
    /// Training mode admits no spectator.
    SpectatorsClosed,
    /// A spectator is registered already.
    SpectatorTaken,
}

/// The first line of a connection, read as a greeting.
#[derive(Clone, Copy, Debug, PartialEq, Eq, Structural)]
pub enum Greeting {
    Competitor,
    Spectator,
}

/// ASCII whitespace: space, tab, line feed, vertical tab, form feed,
/// carriage return.  No other byte counts as whitespace.
pub open spec fn is_space(b: u8) -> bool {
    b == 0x20 || (0x09 <= b && b <= 0x0d)
}

/// `s` without its leading whitespace.
pub open spec fn trim_front(s: Seq<u8>) -> Seq<u8>
    decreases s.len(),
{
    if s.len() > 0 && is_space(s[0]) {
        trim_front(s.subrange(1, s.len() as int))
    } else {
        s
    }
}

/// `s` without its trailing whitespace.
pub open spec fn trim_back(s: Seq<u8>) -> Seq<u8>
    decreases s.len(),
{
    if s.len() > 0 && is_space(s.last()) {
        trim_back(s.drop_last())
    } else {
        s
    }
}

/// `s` without leading and trailing whitespace.
pub open spec fn trimmed(s: Seq<u8>) -> Seq<u8> {
    trim_back(trim_front(s))
}

pub open spec fn competitor_word() -> Seq<u8> {
    seq![0x43u8, 0x4f, 0x4d, 0x50, 0x45, 0x54, 0x49, 0x54, 0x4f, 0x52]
}

pub open spec fn spectator_word() -> Seq<u8> {
    seq![0x53u8, 0x50, 0x45, 0x43, 0x54, 0x41, 0x54, 0x4f, 0x52]
}

/// The greeting that a line holds, once trimmed.
pub open spec fn greeting_of(line: Seq<u8>) -> Option<Greeting> {
    if trimmed(line) == competitor_word() {
        Some(Greeting::Competitor)
    } else if trimmed(line) == spectator_word() {
        Some(Greeting::Spectator)
    } else {
        None
    }
}

proof fn lemma_trim_front_skip(s: Seq<u8>, a: int)
    requires
        0 <= a <= s.len(),
        forall|j: int| 0 <= j < a ==> is_space(#[trigger] s[j]),
    ensures
        trim_front(s) == trim_front(s.subrange(a, s.len() as int)),
    decreases a,
{
    if a > 0 {
        let t = s.subrange(1, s.len() as int);
        assert forall|j: int| 0 <= j < a - 1 implies is_space(#[trigger] t[j]) by {
            assert(t[j] == s[j + 1]);
        }
        lemma_trim_front_skip(t, a - 1);
        assert(t.subrange(a - 1, t.len() as int) =~= s.subrange(a, s.len() as int));
    } else {
        assert(s.subrange(0, s.len() as int) =~= s);
    }
}

proof fn lemma_trim_back_skip(s: Seq<u8>, b: int)
    requires
        0 <= b <= s.len(),
        forall|j: int| b <= j < s.len() ==> is_space(#[trigger] s[j]),
    ensures
        trim_back(s) == trim_back(s.subrange(0, b)),
    decreases s.len() - b,
{
    if b < s.len() {
        let t = s.drop_last();
        lemma_trim_back_skip(t, b);
        assert(t.subrange(0, b) =~= s.subrange(0, b));
    } else {
        assert(s.subrange(0, b) =~= s);
    }
}

fn is_space_byte(b: u8) -> (r: bool)
    ensures
        r == is_space(b),
{
    b == 0x20 || (0x09 <= b && b <= 0x0d)
}

/// Whether `line[lo..hi]` is exactly `word`.
fn span_is(line: &[u8], lo: usize, hi: usize, word: &[u8]) -> (r: bool)
    requires
        lo <= hi <= line@.len(),
    ensures
        r == (line@.subrange(lo as int, hi as int) == word@),
{
    if hi - lo != word.len() {
        return false;
    }
    let mut i: usize = 0;
    while i < word.len()
        invariant
            hi - lo == word@.len(),
            lo <= hi <= line@.len(),
            i <= word@.len(),
            forall|j: int| 0 <= j < i ==> line@[lo + j] == word@[j],
        decreases word.len() - i,
    {
        if line[lo + i] != word[i] {
            assert(line@.subrange(lo as int, hi as int)[i as int] != word@[i as int]);
            return false;
        }
        i = i + 1;
    }
    assert(line@.subrange(lo as int, hi as int) =~= word@);
    true
}

/// Reads the greeting in a connection's first line: `COMPETITOR` or
/// `SPECTATOR`, with surrounding ASCII whitespace ignored.  Only ASCII
/// whitespace is trimmed: a line padded with other Unicode whitespace,
/// such as a no-break space, holds no greeting.
pub fn parse_greeting(line: &[u8]) -> (r: Option<Greeting>)
    ensures
        r == greeting_of(line@),
{
    let mut a: usize = 0;
    while a < line.len() && is_space_byte(line[a])
        invariant
            a <= line@.len(),
            forall|j: int| 0 <= j < a ==> is_space(#[trigger] line@[j]),
        decreases line.len() - a,
    {
        a = a + 1;
    }
    let mut b: usize = line.len();
    while b > a && is_space_byte(line[b - 1])
        invariant
            a <= b <= line@.len(),
            forall|j: int| b <= j < line@.len() ==> is_space(#[trigger] line@[j]),
        decreases b - a,
    {
        b = b - 1;
    }
    proof {
        lemma_trim_front_skip(line@, a as int);
        let rest = line@.subrange(a as int, line@.len() as int);
        assert(trim_front(rest) == rest);
        lemma_trim_back_skip(rest, (b - a) as int);
        assert(rest.subrange(0, (b - a) as int) =~= line@.subrange(a as int, b as int));
        let mid = line@.subrange(a as int, b as int);
        assert(trim_back(mid) == mid);
    }
    let competitor: [u8; 10] = [0x43, 0x4f, 0x4d, 0x50, 0x45, 0x54, 0x49, 0x54, 0x4f, 0x52];
    let spectator: [u8; 9] = [0x53, 0x50, 0x45, 0x43, 0x54, 0x41, 0x54, 0x4f, 0x52];
    assert(competitor@ =~= competitor_word());
    assert(spectator@ =~= spectator_word());
    if span_is(line, a, b, competitor.as_slice()) {
        Some(Greeting::Competitor)
    } else if span_is(line, a, b, spectator.as_slice()) {
        Some(Greeting::Spectator)
    } else {
        None
    }
}

/// The connections identified so far.
#[derive(Clone, Copy, Debug, PartialEq, Eq, Structural)]
pub struct Registry {
    /// Competitors registered so far.
    pub competitors: u32,
    /// Whether a spectator is registered.
    pub spectator: bool,
    /// Training mode: no spectator, no pacing.
    pub training_mode: bool,
}

/// The registry after a greeting, and the role given or the refusal.
pub open spec fn registered(reg: Registry, greeting: Option<Greeting>) -> (Registry, Result<Role, Rejection>) {
    match greeting {
        None => (reg, Err(Rejection::UnknownGreeting)),
        Some(Greeting::Competitor) => {
            if reg.competitors == 0 {
                (Registry { competitors: 1, ..reg }, Ok(Role::CompetitorA))
            } else if reg.competitors == 1 {
                (Registry { competitors: 2, ..reg }, Ok(Role::CompetitorB))
            } else {
                (reg, Err(Rejection::CompetitorsFull))
            }
        },
        Some(Greeting::Spectator) => {
            if reg.training_mode {
                (reg, Err(Rejection::SpectatorsClosed))
            } else if reg.spectator {
                (reg, Err(Rejection::SpectatorTaken))
            } else {
                (Registry { spectator: true, ..reg }, Ok(Role::Spectator))
            }
        },
    }
}

impl Registry {
    /// No connection identified yet.
    pub fn new(training_mode: bool) -> (r: Registry)
        ensures
            r == (Registry { competitors: 0, spectator: false, training_mode }),
    {
        Registry { competitors: 0, spectator: false, training_mode }
    }

    /// Identifies a connection by its first line.  The first competitor
    /// to register is A and the second B; a third is refused.  A spectator
    /// is refused in training mode and once one is registered.  Any other
    /// line is refused.  A refusal leaves the registry as it was.
    pub fn identify(&mut self, line: &[u8]) -> (r: Result<Role, Rejection>)
        ensures
            (*final(self), r) == registered(*old(self), greeting_of(line@)),
    {
        match parse_greeting(line) {
            None => Err(Rejection::UnknownGreeting),
            Some(Greeting::Competitor) => {
                if self.competitors == 0 {
                    self.competitors = 1;
                    Ok(Role::CompetitorA)
                } else if self.competitors == 1 {
                    self.competitors = 2;
                    Ok(Role::CompetitorB)
                } else {
                    Err(Rejection::CompetitorsFull)
                }
            },
            Some(Greeting::Spectator) => {
                if self.training_mode {
                    Err(Rejection::SpectatorsClosed)
                } else if self.spectator {
                    Err(Rejection::SpectatorTaken)
                } else {
                    self.spectator = true;
                    Ok(Role::Spectator)
                }
            },
        }
    }
}

impl Role {
    /// Competitors send one input line per round; the spectator sends none.
    pub fn submits_input(self) -> (r: bool)
        ensures
            r == (self != Role::Spectator),
    {
        match self {
            Role::Spectator => false,
            _ => true,
        }
    }

    /// Only competitor A's handler advances the match.
    pub fn computes_tick(self) -> (r: bool)
        ensures
            r == (self == Role::CompetitorA),
    {
        match self {
            Role::CompetitorA => true,
            _ => false,
        }
    }
}

/// Parties of the rendezvous after the inputs of a round: both competitors.
pub const INPUT_PARTIES: u32 = 2;

/// Parties of the rendezvous after a tick is computed: both competitors,
/// and the spectator unless in training mode.
pub fn tick_parties(training_mode: bool) -> (r: u32)
    ensures
        r == (if training_mode { 2u32 } else { 3u32 }),
{
    if training_mode {
        2
    } else {
        3
    }
}

} // verus!
