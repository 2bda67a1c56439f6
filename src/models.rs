use vstd::prelude::*;

use crate::config::AppConfig;
use crate::routing::{join, join_range, segments, split_segments, views};
use crate::utils::{decimal, decimal_string, duration_text, format_duration};

verus! {

/// The mapping of a sequence of key/destination pairs, where a later pair
/// overrides an earlier one with the same key.
pub open spec fn entries_map(e: Seq<(String, String)>) -> Map<Seq<char>, Seq<char>>
    decreases e.len(),
{
    if e.len() == 0 {
        Map::empty()
    } else {
        entries_map(e.drop_last()).insert(e.last().0@, e.last().1@)
    }
}

/// The normal form of a route key: its non-empty segments joined with `/`.
pub open spec fn normal_key(k: Seq<char>) -> Seq<char> {
    join(segments(k))
}

/// The mapping of key/destination pairs with each key put in normal form;
/// a later pair overrides an earlier one with the same normal key.
pub open spec fn normalized_map(e: Seq<(String, String)>) -> Map<Seq<char>, Seq<char>>
    decreases e.len(),
{
    if e.len() == 0 {
        Map::empty()
    } else {
        normalized_map(e.drop_last()).insert(normal_key(e.last().0@), e.last().1@)
    }
}

/// A route key with no segment at all (empty, or only slashes).
#[derive(Clone, Debug)]
pub struct MalformedRoute {
    pub key: String,
}

/// The route table: link keys mapped to destination URLs. Immutable once
/// built; a reload builds a new one.
#[derive(Clone, Debug)]
pub struct Routes {
    routes: Vec<(String, String)>,
}

impl View for Routes {
    type V = Map<Seq<char>, Seq<char>>;

    closed spec fn view(&self) -> Map<Seq<char>, Seq<char>> {
        entries_map(self.routes@)
    }
}

impl Routes {
    /// Fetches the URL for a given link (exact match on the key).
    pub fn fetch(&self, link: &str) -> (r: Option<String>)
        ensures
            r is Some <==> self@.contains_key(link@),
            r is Some ==> r->0@ == self@[link@],
    {
        let key = link.to_owned();
        let mut j: usize = self.routes.len();
        assert(self.routes@.subrange(0, j as int) =~= self.routes@);
        while j > 0
            invariant
                j <= self.routes@.len(),
                key@ == link@,
                entries_map(self.routes@.subrange(0, j as int)).contains_key(link@)
                    == self@.contains_key(link@),
                self@.contains_key(link@) ==> entries_map(
                    self.routes@.subrange(0, j as int),
                )[link@] == self@[link@],
            decreases j,
        {
            let ghost prefix = self.routes@.subrange(0, j as int);
            assert(prefix.drop_last() =~= self.routes@.subrange(0, j - 1));
            let entry = &self.routes[j - 1];
            if entry.0 == key {
                return Some(entry.1.clone());
            }
            j = j - 1;
        }
        None
    }

    /// Builds a route table from key/destination pairs, each key put in
    /// normal form; where two keys share a normal form, the last pair wins.
    /// Fails on the first key that has no segment.
    pub fn build(entries: Vec<(String, String)>) -> (r: Result<Routes, MalformedRoute>)
        ensures
            r is Ok <==> forall|i: int|
                0 <= i < entries@.len() ==> segments(#[trigger] entries@[i].0@).len() > 0,
            r matches Ok(t) ==> t@ == normalized_map(entries@),
            r matches Err(e) ==> exists|i: int|
                0 <= i < entries@.len() && segments(#[trigger] entries@[i].0@).len() == 0
                    && e.key@ == entries@[i].0@ && forall|j: int|
                    0 <= j < i ==> segments(#[trigger] entries@[j].0@).len() > 0,
    {
        let mut out: Vec<(String, String)> = Vec::new();
        let mut i: usize = 0;
        assert(entries@.subrange(0, 0) =~= Seq::<(String, String)>::empty());
        while i < entries.len()
            invariant
                i <= entries@.len(),
                entries_map(out@) == normalized_map(entries@.subrange(0, i as int)),
                forall|j: int| 0 <= j < i ==> segments(#[trigger] entries@[j].0@).len() > 0,
            decreases entries@.len() - i,
        {
            let segs = split_segments(entries[i].0.as_str());
            if segs.len() == 0 {
                return Err(MalformedRoute { key: entries[i].0.clone() });
            }
            let key = join_range(&segs, 0, segs.len());
            assert(views(segs@).subrange(0, segs@.len() as int) =~= views(segs@));
            let ghost before = out@;
            out.push((key, entries[i].1.clone()));
            assert(out@.drop_last() =~= before);
            assert(entries@.subrange(0, i as int + 1).drop_last() =~= entries@.subrange(0, i as int));
            i = i + 1;
        }
        assert(entries@.subrange(0, i as int) =~= entries@);
        Ok(Routes { routes: out })
    }

    /// Creates a route table from key/destination pairs; where a key occurs
    /// more than once, the last pair wins.
    pub fn with_routes(routes: Vec<(String, String)>) -> (r: Routes)
        ensures
            r@ == entries_map(routes@),
    {
        Routes { routes }
    }
}

/// A point in time: seconds and nanoseconds since the Unix epoch.
#[derive(Clone, Copy, Debug, PartialEq, Eq, Structural)]
pub struct Moment {
    pub secs: u64,
    pub nanos: u32,
}

impl Moment {
    /// The nanoseconds field holds less than a second.
    pub open spec fn wf(self) -> bool {
        self.nanos < 1_000_000_000
    }

    /// The moment as a count of nanoseconds.
    pub open spec fn total_nanos(self) -> int {
        self.secs * 1_000_000_000 + self.nanos
    }
}

/// The time from `start` to `end`, as whole seconds and the nanoseconds
/// beyond them; `None` when `end` comes before `start`.
pub open spec fn elapsed_between(start: Moment, end: Moment) -> Option<(nat, nat)> {
    let d = end.total_nanos() - start.total_nanos();
    if d < 0 {
        None
    } else {
        Some(((d / 1_000_000_000) as nat, (d % 1_000_000_000) as nat))
    }
}

/// The formatted time from `start` to `end`; `None` when there is no start
/// or `end` comes before it.
pub open spec fn timing_text(start: Option<Moment>, end: Moment) -> Option<Seq<char>> {
    match start {
        None => None,
        Some(s) => match elapsed_between(s, end) {
            None => None,
            Some((secs, nanos)) => Some(duration_text(secs, nanos)),
        },
    }
}

/// Value stored in request-local state: when the request started, if that
/// was recorded.
#[derive(Clone, Copy, Debug)]
pub struct TimerStart(pub Option<Moment>);

impl TimerStart {
    /// The formatted time from the recorded start to `end`; `None` when no
    /// start was recorded or the clock went backwards.
    pub fn elapsed_text(&self, end: Moment) -> (r: Option<String>)
        requires
            end.wf(),
            self.0 matches Some(s) ==> s.wf(),
        ensures
            r is Some <==> timing_text(self.0, end) is Some,
            r is Some ==> r->0@ == timing_text(self.0, end)->0,
    {
        match self.0 {
            None => None,
            Some(start) => {
                if end.secs < start.secs || (end.secs == start.secs && end.nanos < start.nanos) {
                    None
                } else if end.nanos >= start.nanos {
                    Some(format_duration(end.secs - start.secs, end.nanos - start.nanos))
                } else {
                    Some(
                        format_duration(
                            end.secs - start.secs - 1,
                            end.nanos + 1_000_000_000 - start.nanos,
                        ),
                    )
                }
            },
        }
    }
}

/// `n` spaces.
pub open spec fn spaces(n: nat) -> Seq<char> {
    Seq::new(n, |i: int| ' ')
}

/// `s` centred in a field of `width` characters: the padding is split
/// evenly, the odd space going to the right.
pub open spec fn centered(s: Seq<char>, width: nat) -> Seq<char> {
    if s.len() >= width {
        s
    } else {
        let pad = (width - s.len()) as nat;
        spaces(pad / 2) + s + spaces((pad - pad / 2) as nat)
    }
}

/// `s` aligned right in a field of `width` characters.
pub open spec fn right_aligned(s: Seq<char>, width: nat) -> Seq<char> {
    if s.len() >= width {
        s
    } else {
        spaces((width - s.len()) as nat) + s
    }
}

/// The log line for a timed request:
/// `time | method | duration | status | "uri"`, the method centred in seven
/// columns and the duration aligned right in twelve.
pub open spec fn log_line_text(
    time: Seq<char>,
    method: Seq<char>,
    duration: Seq<char>,
    status: nat,
    uri: Seq<char>,
) -> Seq<char> {
    time + seq![' ', '|', ' '] + centered(method, 7) + seq![' ', '|', ' '] + right_aligned(
        duration,
        12,
    ) + seq![' ', '|', ' '] + decimal(status) + seq![' ', '|', ' ', '"'] + uri + seq!['"']
}

/// Appends `n` spaces to `s`.
fn push_spaces(s: &mut String, n: usize)
    ensures
        final(s)@ == old(s)@ + spaces(n as nat),
{
    let mut i: usize = 0;
    while i < n
        invariant
            i <= n,
            s@ == old(s)@ + spaces(i as nat),
        decreases n - i,
    {
        proof {
            reveal_strlit(" ");
        }
        s.append(" ");
        assert(old(s)@ + spaces(i as nat) + " "@ =~= old(s)@ + spaces(i as nat + 1));
        i = i + 1;
    }
}

/// Appends `text` centred in a field of `width` characters.
fn push_centered(s: &mut String, text: &str, width: usize)
    ensures
        final(s)@ == old(s)@ + centered(text@, width as nat),
{
    let n = text.unicode_len();
    if n < width {
        let pad: usize = width - n;
        push_spaces(s, pad / 2);
        s.append(text);
        push_spaces(s, pad - pad / 2);
        assert(final(s)@ =~= old(s)@ + centered(text@, width as nat));
    } else {
        s.append(text);
    }
}

/// Appends `text` aligned right in a field of `width` characters.
fn push_right_aligned(s: &mut String, text: &str, width: usize)
    ensures
        final(s)@ == old(s)@ + right_aligned(text@, width as nat),
{
    let n = text.unicode_len();
    if n < width {
        push_spaces(s, width - n);
        s.append(text);
        assert(final(s)@ =~= old(s)@ + right_aligned(text@, width as nat));
    } else {
        s.append(text);
    }
}

/// Fairing that times requests.
pub struct RequestTimer {
    date_format: String,
}

impl RequestTimer {
    /// The format in which the time of a log line is written.
    pub closed spec fn date_format_spec(&self) -> Seq<char> {
        self.date_format@
    }

    /// Creates a new `RequestTimer`.
    pub fn new(configs: &AppConfig) -> (r: RequestTimer)
        ensures
            r.date_format_spec() == configs.time_format_spec(),
    {
        RequestTimer { date_format: configs.time_format().to_owned() }
    }

    /// The format in which the time of a log line is written.
    pub fn date_format(&self) -> (r: &str)
        ensures
            r@ == self.date_format_spec(),
    {
        self.date_format.as_str()
    }

    /// The log line for a request answered with `status`, which took
    /// `duration` (already formatted) and was made at `time`.
    pub fn log_line(&self, time: &str, method: &str, duration: &str, status: u16, uri: &str) -> (r:
        String)
        ensures
            r@ == log_line_text(time@, method@, duration@, status as nat, uri@),
    {
        proof {
            reveal_strlit(" | ");
            reveal_strlit(" | \"");
            reveal_strlit("\"");
        }
        let mut r = time.to_owned();
        r.append(" | ");
        push_centered(&mut r, method, 7);
        r.append(" | ");
        push_right_aligned(&mut r, duration, 12);
        r.append(" | ");
        let code = decimal_string(status as u64);
        r.append(code.as_str());
        r.append(" | \"");
        r.append(uri);
        r.append("\"");
        assert(r@ =~= log_line_text(time@, method@, duration@, status as nat, uri@));
        r
    }
}

/// A status message: a status word and a sentence.
#[derive(Clone, Debug)]
pub struct StatusMessage {
    pub status: String,
    pub message: String,
}

impl StatusMessage {
    /// The answer of the liveness endpoint.
    pub fn heartbeat() -> (r: StatusMessage)
        ensures
            r.status@ == "ok"@,
            r.message@ == "The server is running"@,
    {
        StatusMessage {
            status: String::from_str("ok"),
            message: String::from_str("The server is running"),
        }
    }

    /// The answer to a request for a path that is not a known link.
    pub fn not_found(uri: &str) -> (r: StatusMessage)
        ensures
            r.status@ == "error"@,
            r.message@ == "'"@ + uri@ + "' is not a known link."@,
    {
        let mut message = String::from_str("'");
        message.append(uri);
        message.append("' is not a known link.");
        StatusMessage { status: String::from_str("error"), message }
    }
}

} // verus!
