//! Who may open a session: the token in the query of the upgrade request,
//! and the count of the sessions that are open.

use crate::text::str_eq;
use vstd::prelude::*;

verus! {

/// The most sessions that are open at once.
pub const MAX_SESSIONS: usize = 1;

/// `j` is where `c` stands first in `s`, or the length of `s` where it does
/// not occur.
pub open spec fn is_first_index(s: Seq<char>, c: char, j: int) -> bool {
    &&& 0 <= j <= s.len()
    &&& j < s.len() ==> s[j] == c
    &&& forall|i: int| 0 <= i < j ==> s[i] != c
}

/// Where `c` stands first in `s`, or the length of `s`.
pub open spec fn first_index_of(s: Seq<char>, c: char) -> int {
    choose|j: int| is_first_index(s, c, j)
}

/// `j` is where `c` stands last in `s`, or -1 where it does not occur.
pub open spec fn is_last_index(s: Seq<char>, c: char, j: int) -> bool {
    &&& -1 <= j < s.len()
    &&& j >= 0 ==> s[j] == c
    &&& forall|i: int| j < i < s.len() ==> s[i] != c
}

/// Where `c` stands last in `s`, or -1.
pub open spec fn last_index_of(s: Seq<char>, c: char) -> int {
    choose|j: int| is_last_index(s, c, j)
}

/// The value of one pair of a query, where the pair has a `=` and its name
/// is `token`. The value is taken as it is written.
pub open spec fn token_in_pair(pair: Seq<char>) -> Option<Seq<char>> {
    let eq = first_index_of(pair, '=');
    if 0 <= eq < pair.len() && pair.take(eq) == "token"@ {
        Some(pair.skip(eq + 1))
    } else {
        None
    }
}

/// The token that a query names: the pairs of the query are parted by `&`,
/// and of the pairs named `token` the last one decides.
pub open spec fn query_token(query: Seq<char>) -> Option<Seq<char>>
    decreases query.len(),
{
    let amp = last_index_of(query, '&');
    if 0 <= amp < query.len() {
        match token_in_pair(query.skip(amp + 1)) {
            Some(token) => Some(token),
            None => query_token(query.take(amp)),
        }
    } else {
        token_in_pair(query)
    }
}

/// Only one index is the first of a character.
proof fn lemma_first_index(s: Seq<char>, c: char, j: int)
    requires
        is_first_index(s, c, j),
    ensures
        first_index_of(s, c) == j,
{
    let k = first_index_of(s, c);
    assert(is_first_index(s, c, k));
    if k < j {
        assert(s[k] != c);
    } else if j < k {
        assert(s[j] != c);
    }
}

/// Only one index is the last of a character.
proof fn lemma_last_index(s: Seq<char>, c: char, j: int)
    requires
        is_last_index(s, c, j),
    ensures
        last_index_of(s, c) == j,
{
    let k = last_index_of(s, c);
    assert(is_last_index(s, c, k));
    if k < j {
        assert(s[j] != c);
    } else if j < k {
        assert(s[k] != c);
    }
}

/// A query that is one pair named `token` names the value of that pair.
pub proof fn lemma_token_alone(value: Seq<char>)
    requires
        !value.contains('&'),
    ensures
        query_token("token="@ + value) == Some(value),
{
    reveal_strlit("token=");
    reveal_strlit("token");
    let query = "token="@ + value;
    assert forall|i: int| 0 <= i < query.len() implies query[i] != '&' by {
        if i >= 6 {
            assert(query[i] == value[i - 6]);
        }
    }
    lemma_last_index(query, '&', -1);
    lemma_first_index(query, '=', 5);
    assert(query.take(5) =~= "token"@);
    assert(query.skip(6) =~= value);
}

/// The characters of a text.
fn chars_of(text: &str) -> (chars: Vec<char>)
    ensures
        chars@ == text@,
{
    let mut chars: Vec<char> = Vec::new();
    for c in it: text.chars()
        invariant
            it.seq() == text@,
            chars@ == text@.take(it.index() as int),
    {
        chars.push(c);
        assert(chars@ =~= text@.take(it.index() + 1));
    }
    assert(text@.take(text@.len() as int) =~= text@);
    chars
}

/// The characters of `chars` from `from` up to `to`, as a string.
fn string_of(chars: &Vec<char>, from: usize, to: usize) -> (text: String)
    requires
        from <= to <= chars.len(),
    ensures
        text@ == chars@.subrange(from as int, to as int),
{
    let mut text = String::new();
    let mut i: usize = from;
    while i < to
        invariant
            from <= i <= to <= chars.len(),
            text@ == chars@.subrange(from as int, i as int),
        decreases to - i,
    {
        text.push(chars[i]);
        assert(text@ =~= chars@.subrange(from as int, i + 1));
        i = i + 1;
    }
    text
}

/// The token that a query names.
pub fn token_of(query: &str) -> (token: Option<String>)
    ensures
        match token {
            Some(t) => query_token(query@) == Some(t@),
            None => query_token(query@) is None,
        },
{
    let chars = chars_of(query);
    let mut end: usize = chars.len();
    assert(chars@.take(end as int) =~= chars@);
    loop
        invariant
            0 <= end <= chars.len(),
            chars@ == query@,
            query_token(query@) == query_token(chars@.take(end as int)),
        decreases end,
    {
        let ghost rest = chars@.take(end as int);
        let mut start: usize = end;
        while start > 0 && chars[start - 1] != '&'
            invariant
                0 <= start <= end <= chars.len(),
                forall|i: int| start <= i < end ==> chars@[i] != '&',
            decreases start,
        {
            start = start - 1;
        }
        let ghost pair = chars@.subrange(start as int, end as int);
        proof {
            lemma_last_index(rest, '&', start - 1);
            if start > 0 {
                assert(rest.skip(start as int) =~= pair);
                assert(rest.take(start - 1) =~= chars@.take(start - 1));
            } else {
                assert(rest =~= pair);
            }
        }
        let mut eq: usize = start;
        while eq < end && chars[eq] != '='
            invariant
                start <= eq <= end <= chars.len(),
                forall|i: int| start <= i < eq ==> chars@[i] != '=',
            decreases end - eq,
        {
            eq = eq + 1;
        }
        proof {
            lemma_first_index(pair, '=', eq - start);
            reveal_strlit("token");
        }
        if eq < end && eq - start == 5 && chars[start] == 't' && chars[start + 1] == 'o'
            && chars[start + 2] == 'k' && chars[start + 3] == 'e' && chars[start + 4] == 'n' {
            let token = string_of(&chars, eq + 1, end);
            proof {
                assert(pair.take(eq - start) =~= "token"@);
                assert(pair.skip(eq - start + 1) =~= token@);
            }
            return Some(token);
        }
        proof {
            if eq < end {
                let name = pair.take(eq - start);
                if name == "token"@ {
                    assert(name.len() == 5);
                    assert(name[0] == chars@[start as int]);
                    assert(name[1] == chars@[start + 1]);
                    assert(name[2] == chars@[start + 2]);
                    assert(name[3] == chars@[start + 3]);
                    assert(name[4] == chars@[start + 4]);
                }
            }
            assert(token_in_pair(pair) is None);
        }
        if start == 0 {
            return None;
        }
        end = start - 1;
    }
}


/// What becomes of a request to open a session.
#[derive(Debug, Clone, Copy, PartialEq, Eq, Structural)]
pub enum Admission {
    /// The token is missing or wrong.
    Unauthorized,
    /// As many sessions are open as may be.
    TooManyRequests,
    /// The connection is upgraded.
    Upgrade,
}

/// What becomes of a request with this query, where `expected` is the
/// token that opens a session and `active` sessions are open: the token is
/// looked at first, and compared as it is written.
pub open spec fn admission(query: Seq<char>, expected: Seq<char>, active: usize) -> Admission {
    if query_token(query) != Some(expected) {
        Admission::Unauthorized
    } else if active >= MAX_SESSIONS {
        Admission::TooManyRequests
    } else {
        Admission::Upgrade
    }
}

/// Decides on a request to open a session.
pub fn decide_admission(query: &str, expected: &str, active: usize) -> (verdict: Admission)
    ensures
        verdict == admission(query@, expected@, active),
{
    let authorized = match token_of(query) {
        Some(token) => str_eq(token.as_str(), expected),
        None => false,
    };
    if !authorized {
        Admission::Unauthorized
    } else if active >= MAX_SESSIONS {
        Admission::TooManyRequests
    } else {
        Admission::Upgrade
    }
}

impl Admission {
    /// The HTTP status that answers the request: 401, 429, or 101 for an
    /// upgrade.
    pub open spec fn status(&self) -> u16 {
        match self {
            Admission::Unauthorized => 401,
            Admission::TooManyRequests => 429,
            Admission::Upgrade => 101,
        }
    }

    /// The text that the answer carries.
    pub open spec fn body_text(&self) -> Seq<char> {
        match self {
            Admission::TooManyRequests => "There is already an active WebSocket connection"@,
            _ => Seq::empty(),
        }
    }

    /// The HTTP status that answers the request.
    pub fn status_code(&self) -> (code: u16)
        ensures
            code == self.status(),
    {
        match self {
            Admission::Unauthorized => 401,
            Admission::TooManyRequests => 429,
            Admission::Upgrade => 101,
        }
    }

    /// The text that the answer carries.
    pub fn body(&self) -> (text: &'static str)
        ensures
            text@ == self.body_text(),
    {
        match self {
            Admission::TooManyRequests => "There is already an active WebSocket connection",
            _ => {
                proof {
                    reveal_strlit("");
                }
                ""
            },
        }
    }
}

/// The count of open sessions after one more asks to be counted: one more
/// where there is room, else as before.
pub open spec fn count_after_enter(active: usize) -> usize {
    if active < MAX_SESSIONS {
        (active + 1) as usize
    } else {
        active
    }
}

/// The count of open sessions after one has ended.
pub open spec fn count_after_leave(active: usize) -> usize {
    if active > 0 {
        (active - 1) as usize
    } else {
        0
    }
}

/// Counts one more session, where there is room: the new count, or nothing
/// where as many sessions are open as may be.
pub fn enter(active: usize) -> (admitted: Option<usize>)
    ensures
        admitted is Some <==> active < MAX_SESSIONS,
        admitted matches Some(count) ==> count == count_after_enter(active),
{
    if active < MAX_SESSIONS {
        Some(active + 1)
    } else {
        None
    }
}

/// Counts one session less.
pub fn leave(active: usize) -> (count: usize)
    ensures
        count == count_after_leave(active),
{
    if active > 0 {
        active - 1
    } else {
        0
    }
}

/// What happens to the count of open sessions.
#[derive(Debug, Clone, Copy, PartialEq, Eq, Structural)]
pub enum GateEvent {
    /// A session asks to be counted.
    Enter,
    /// A session has ended.
    Leave,
}

/// The count of open sessions after a run of events, none being open at
/// first.
pub open spec fn count_after(events: Seq<GateEvent>) -> usize
    decreases events.len(),
{
    if events.len() == 0 {
        0
    } else {
        match events.last() {
            GateEvent::Enter => count_after_enter(count_after(events.drop_last())),
            GateEvent::Leave => count_after_leave(count_after(events.drop_last())),
        }
    }
}

/// Whatever happens, no more sessions are counted as open than may be.
pub proof fn lemma_count_never_exceeds_limit(events: Seq<GateEvent>)
    ensures
        count_after(events) <= MAX_SESSIONS,
    decreases events.len(),
{
    if events.len() > 0 {
        lemma_count_never_exceeds_limit(events.drop_last());
    }
}

} // verus!
