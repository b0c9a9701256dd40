use vstd::prelude::*;

use crate::models::{Address, AddressData};

verus! {

/// What `str::trim` leaves of a line.
pub uninterp spec fn trimmed(s: Seq<char>) -> Seq<char>;

/// Relies on `str::trim`: the line without leading and trailing white space,
/// as a function of the line alone.
#[verifier::external_body]
fn trim_line(s: &str) -> (r: &str)
    ensures
        r@ == trimmed(s@),
{
    s.trim()
}

pub open spec fn is_digit(c: char) -> bool {
    '0' <= c <= '9'
}

pub open spec fn all_digits(s: Seq<char>) -> bool {
    forall|i: int| 0 <= i < s.len() ==> #[trigger] is_digit(s[i])
}

/// The number written by a sequence of decimal digits.
pub open spec fn digits_value(s: Seq<char>) -> int
    decreases s.len(),
{
    if s.len() == 0 {
        0
    } else {
        digits_value(s.drop_last()) * 10 + (s.last() as int - '0' as int)
    }
}

/// The digits of an unsigned decimal, after an optional leading `+`.
pub open spec fn unsigned_digits(s: Seq<char>) -> Seq<char> {
    if s.len() > 0 && s[0] == '+' {
        s.drop_first()
    } else {
        s
    }
}

/// The `usize` that `s` writes in decimal, as `str::parse` reads it: an
/// optional `+`, then at least one digit, with a value that fits.
pub open spec fn parsed_index(s: Seq<char>) -> Option<int> {
    let d = unsigned_digits(s);
    if d.len() > 0 && all_digits(d) && digits_value(d) <= usize::MAX {
        Some(digits_value(d))
    } else {
        None
    }
}

proof fn lemma_digits_value_nonneg(s: Seq<char>)
    requires
        all_digits(s),
    ensures
        0 <= digits_value(s),
    decreases s.len(),
{
    if s.len() > 0 {
        let p = s.drop_last();
        assert forall|i: int| 0 <= i < p.len() implies #[trigger] is_digit(p[i]) by {
            assert(p[i] == s[i]);
        }
        lemma_digits_value_nonneg(p);
        assert(is_digit(s[s.len() - 1]));
    }
}

proof fn lemma_digits_value_grows(s: Seq<char>, k: int)
    requires
        all_digits(s),
        0 <= k <= s.len(),
    ensures
        digits_value(s.take(k)) <= digits_value(s),
    decreases s.len() - k,
{
    if k < s.len() {
        lemma_digits_value_grows(s, k + 1);
        let p = s.take(k);
        assert(s.take(k + 1).drop_last() =~= p);
        assert forall|i: int| 0 <= i < p.len() implies #[trigger] is_digit(p[i]) by {
            assert(p[i] == s[i]);
        }
        lemma_digits_value_nonneg(p);
        assert(is_digit(s[k]));
    } else {
        assert(s.take(k) =~= s);
    }
}

/// Reads an unsigned decimal index; absent where `str::parse::<usize>` fails.
pub fn parse_index(s: &str) -> (r: Option<usize>)
    ensures
        r matches Some(v) ==> parsed_index(s@) == Some(v as int),
        r is None ==> parsed_index(s@) is None,
{
    let n: usize = s.unicode_len();
    let mut k: usize = 0;
    if n > 0 && s.get_char(0) == '+' {
        k = 1;
    }
    let ghost d = unsigned_digits(s@);
    assert(d =~= s@.subrange(k as int, n as int));
    if k == n {
        return None;
    }
    let start: usize = k;
    let mut value: u128 = 0;
    while k < n
        invariant
            start <= k <= n,
            start < n,
            n == s@.len(),
            d == s@.subrange(start as int, n as int),
            d == unsigned_digits(s@),
            all_digits(d.take(k - start)),
            value as int == digits_value(d.take(k - start)),
            value <= usize::MAX,
        decreases n - k,
    {
        let c = s.get_char(k);
        if !('0' <= c && c <= '9') {
            assert(d[k - start] == c);
            assert(!is_digit(d[k - start]));

            return None;
        }
        let ghost j: int = k - start;
        assert(d.take(j + 1).drop_last() =~= d.take(j));
        assert(d.take(j + 1).last() == c);
        value = value * 10 + (c as u32 - '0' as u32) as u128;
        k = k + 1;
        assert(value as int == digits_value(d.take(k - start)));
        assert(all_digits(d.take(k - start))) by {
            assert forall|i: int| 0 <= i < d.take(k - start).len() implies #[trigger] is_digit(
                d.take(k - start)[i],
            ) by {
                if i < j {
                    assert(d.take(k - start)[i] == d.take(j)[i]);
                }
            }
        }
        if value > usize::MAX as u128 {
            proof {
                if all_digits(d) {
                    lemma_digits_value_grows(d, k - start);
                }
            }
            return None;
        }
    }
    assert(d.take(k - start) =~= d);
    Some(value as usize)
}

/// What the user answered when asked to pick an address.
#[derive(Clone, Copy, Debug, PartialEq, Eq, Structural)]
pub enum Selection {
    /// Give up.
    Exit,
    /// The address at this position of the list, counted from zero.
    Choice(usize),
    /// Not an answer: ask again.
    Invalid,
}

/// The answer a typed line gives, among `count` listed addresses numbered
/// from one: `e` exits, a listed number chooses, anything else is invalid.
pub open spec fn selection_of(line: Seq<char>, count: int) -> Selection {
    let t = trimmed(line);
    if t == seq!['e'] {
        Selection::Exit
    } else {
        match parsed_index(t) {
            Some(v) => if 1 <= v <= count {
                Selection::Choice((v - 1) as usize)
            } else {
                Selection::Invalid
            },
            None => Selection::Invalid,
        }
    }
}

/// Reads the user's choice among `count` listed addresses.
pub fn parse_selection(line: &str, count: usize) -> (r: Selection)
    ensures
        r == selection_of(line@, count as int),
{
    let t = trim_line(line);
    if t.unicode_len() == 1 && t.get_char(0) == 'e' {
        assert(t@ =~= seq!['e']);
        return Selection::Exit;
    }
    match parse_index(t) {
        Some(v) => {
            if 1 <= v && v <= count {
                Selection::Choice(v - 1)
            } else {
                Selection::Invalid
            }
        },
        None => Selection::Invalid,
    }
}

/// Where the one-time resolution of a postcode into a property identifier
/// stands. Each state names the remote call or the question that comes next.
#[derive(Debug)]
pub enum Resolution {
    /// Fetch an authorization token.
    AwaitingToken,
    /// Ask for a postcode and look up its addresses.
    AwaitingAddresses { token: String },
    /// List the addresses and ask the user to pick one.
    AwaitingSelection { token: String, addresses: Vec<AddressData> },
    /// Look up the property identifier of the chosen address.
    AwaitingIdentifier { token: String, object_id: String },
    /// Done: the identifier to store and use.
    Resolved { uprn: String },
    /// Given up: no identifier, and no further remote call.
    Abandoned,
}

/// The outcome of the step a state asked for. Every failure of a remote call
/// arrives as its empty or absent form.
#[derive(Debug)]
pub enum ResolutionEvent {
    Token(String),
    Addresses(Option<Address>),
    Selection(String),
    Identifier(String),
}

/// The state that follows `state` once `event` has arrived. An event that
/// does not answer the state's step leaves the state as it is.
pub open spec fn advanced(state: Resolution, event: ResolutionEvent) -> Resolution {
    match (state, event) {
        (Resolution::AwaitingToken, ResolutionEvent::Token(t)) => if t@.len() == 0 {
            Resolution::Abandoned
        } else {
            Resolution::AwaitingAddresses { token: t }
        },
        (Resolution::AwaitingAddresses { token }, ResolutionEvent::Addresses(found)) => match found {
            Some(a) => if a.data@.len() == 0 {
                Resolution::Abandoned
            } else {
                Resolution::AwaitingSelection { token, addresses: a.data }
            },
            None => Resolution::Abandoned,
        },
        (
            Resolution::AwaitingSelection { token, addresses },
            ResolutionEvent::Selection(line),
        ) => match selection_of(line@, addresses@.len() as int) {
            Selection::Exit => Resolution::Abandoned,
            Selection::Choice(i) => Resolution::AwaitingIdentifier {
                token,
                object_id: addresses@[i as int].value,
            },
            Selection::Invalid => Resolution::AwaitingSelection { token, addresses },
        },
        (Resolution::AwaitingIdentifier { .. }, ResolutionEvent::Identifier(u)) => if u@.len()
            == 0 {
            Resolution::Abandoned
        } else {
            Resolution::Resolved { uprn: u }
        },
        (s, _) => s,
    }
}

impl Resolution {
    /// The state every resolution starts in.
    pub fn new() -> (r: Resolution)
        ensures
            r is AwaitingToken,
    {
        Resolution::AwaitingToken
    }

    /// Takes the outcome of the current step.
    pub fn advance(self, event: ResolutionEvent) -> (r: Resolution)
        ensures
            r == advanced(self, event),
    {
        match (self, event) {
            (Resolution::AwaitingToken, ResolutionEvent::Token(t)) => {
                if t.unicode_len() == 0 {
                    Resolution::Abandoned
                } else {
                    Resolution::AwaitingAddresses { token: t }
                }
            },
            (Resolution::AwaitingAddresses { token }, ResolutionEvent::Addresses(found)) => {
                match found {
                    Some(a) => {
                        if a.data.len() == 0 {
                            Resolution::Abandoned
                        } else {
                            Resolution::AwaitingSelection { token, addresses: a.data }
                        }
                    },
                    None => Resolution::Abandoned,
                }
            },
            (
                Resolution::AwaitingSelection { token, addresses },
                ResolutionEvent::Selection(line),
            ) => {
                match parse_selection(line.as_str(), addresses.len()) {
                    Selection::Exit => Resolution::Abandoned,
                    Selection::Choice(i) => {
                        let object_id = addresses[i].value.clone();
                        Resolution::AwaitingIdentifier { token, object_id }
                    },
                    Selection::Invalid => Resolution::AwaitingSelection { token, addresses },
                }
            },
            (Resolution::AwaitingIdentifier { .. }, ResolutionEvent::Identifier(u)) => {
                if u.unicode_len() == 0 {
                    Resolution::Abandoned
                } else {
                    Resolution::Resolved { uprn: u }
                }
            },
            (s, _) => s,
        }
    }

    /// Whether no step is left.
    pub fn is_finished(&self) -> (r: bool)
        ensures
            r == (self is Resolved || self is Abandoned),
    {
        match self {
            Resolution::Resolved { .. } | Resolution::Abandoned => true,
            _ => false,
        }
    }

    /// The property identifier, once resolved.
    pub fn uprn(&self) -> (r: Option<String>)
        ensures
            r is Some <==> self is Resolved,
            r matches Some(u) ==> self matches Resolution::Resolved { uprn } && u@ == uprn@,
    {
        match self {
            Resolution::Resolved { uprn } => Some(uprn.clone()),
            _ => None,
        }
    }
}

/// Once given up, a resolution stays given up whatever arrives: no remote
/// call follows, and no identifier comes out of it.
pub proof fn lemma_abandoned_is_final(event: ResolutionEvent)
    ensures
        advanced(Resolution::Abandoned, event) is Abandoned,
{
}

/// A postcode search that fails or finds nothing ends the resolution.
pub proof fn lemma_no_address_abandons(token: String, found: Option<Address>)
    requires
        found matches Some(a) ==> a.data@.len() == 0,
    ensures
        advanced(Resolution::AwaitingAddresses { token }, ResolutionEvent::Addresses(found)) is Abandoned,
{
}

} // verus!
