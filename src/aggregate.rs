use vstd::prelude::*;

use crate::authors::{
    aliases_after, canonical_key, canonicalize_author, matches_author_filters_lowered,
    names_after, passes_filters, text_map, StringHashMap,
};
use crate::dates::{epoch_day_of_timestamp, timestamp_date_text};
use crate::error::StatsError;
use crate::text::{
    chars_of, contains_seq, decimal_i64, find, first_occurrence, lemma_text_less_total,
    lemma_text_less_transitive, parse_i64, string_texts, text_before, text_less, trim_of,
    trim_str,
};
use crate::timerange::{RangeModel, TimeRange};

verus! {

/// One commit of the history: when, and by whom.
pub struct CommitRecord {
    pub timestamp: i64,
    pub name: String,
    pub email: String,
}

/// What one history line holds.
pub enum LineParse {
    /// Nothing but white space.
    Blank,
    /// Fewer than three tab-separated fields, or an empty timestamp.
    Malformed,
    /// A timestamp field that is not a decimal integer.
    BadTimestamp(Seq<char>),
    /// A commit: timestamp, name, email.
    Record(int, Seq<char>, Seq<char>),
}

/// A tab character, as a text.
pub open spec fn tab() -> Seq<char> {
    seq!['\t']
}

/// The three fields of `t`, split at its first two tabs; the last keeps any
/// further tabs.
pub open spec fn tab_fields(t: Seq<char>) -> Option<(Seq<char>, Seq<char>, Seq<char>)> {
    if contains_seq(t, tab()) {
        let i = first_occurrence(t, tab());
        let rest = t.skip(i + 1);
        if contains_seq(rest, tab()) {
            let j = first_occurrence(rest, tab());
            Some((t.take(i), rest.take(j), rest.skip(j + 1)))
        } else {
            None
        }
    } else {
        None
    }
}

/// A history line `<timestamp>\t<name>\t<email>`, read after trimming it; the
/// name and email are trimmed, and an empty email reads as `Unknown`.
pub open spec fn parse_line(line: Seq<char>) -> LineParse {
    let t = trim_of(line);
    if t.len() == 0 {
        LineParse::Blank
    } else {
        match tab_fields(t) {
            None => LineParse::Malformed,
            Some(f) => {
                if f.0.len() == 0 {
                    LineParse::Malformed
                } else {
                    match decimal_i64(f.0) {
                        None => LineParse::BadTimestamp(f.0),
                        Some(ts) => LineParse::Record(
                            ts,
                            trim_of(f.1),
                            if trim_of(f.2).len() == 0 {
                                "Unknown"@
                            } else {
                                trim_of(f.2)
                            },
                        ),
                    }
                }
            },
        }
    }
}

/// Reads one history line; a blank line holds no record.
pub fn parse_record(line: &str) -> (r: Result<Option<CommitRecord>, StatsError>)
    ensures
        match r {
            Ok(None) => parse_line(line@) is Blank,
            Ok(Some(c)) => parse_line(line@) == LineParse::Record(
                c.timestamp as int,
                c.name@,
                c.email@,
            ),
            Err(StatsError::MalformedRecord(t)) => parse_line(line@) is Malformed && t@ == trim_of(
                line@,
            ),
            Err(StatsError::BadTimestamp(t)) => parse_line(line@) == LineParse::BadTimestamp(t@),
            Err(_) => false,
        },
{
    let t = trim_str(line);
    if t.is_empty() {
        return Ok(None);
    }
    let tc = chars_of(t);
    let tab_v: Vec<char> = vec!['\t'];
    assert(tab_v@ =~= tab());
    let i = match find(&tc, &tab_v) {
        None => return Err(StatsError::MalformedRecord(t.to_owned())),
        Some(i) => i,
    };
    assert(i + 1 <= tc.len());
    let rest = t.substring_char(i + 1, tc.len());
    let rc = chars_of(rest);
    assert(rest@ =~= t@.skip(i + 1));
    let j = match find(&rc, &tab_v) {
        None => return Err(StatsError::MalformedRecord(t.to_owned())),
        Some(j) => j,
    };
    let ts_part = t.substring_char(0, i);
    let name_part = rest.substring_char(0, j);
    let email_part = rest.substring_char(j + 1, rc.len());
    assert(ts_part@ =~= t@.take(i as int));
    assert(name_part@ =~= rest@.take(j as int));
    assert(email_part@ =~= rest@.skip(j + 1));
    if ts_part.is_empty() {
        return Err(StatsError::MalformedRecord(t.to_owned()));
    }
    let timestamp = match parse_i64(ts_part) {
        None => return Err(StatsError::BadTimestamp(ts_part.to_owned())),
        Some(v) => v,
    };
    let email_t = trim_str(email_part);
    let email = if email_t.is_empty() {
        "Unknown".to_owned()
    } else {
        email_t.to_owned()
    };
    let name = trim_str(name_part).to_owned();
    Ok(Some(CommitRecord { timestamp, name, email }))
}

/// An author's entry in a tally: key and commit count.
pub open spec fn entry_view(e: (String, usize)) -> (Seq<char>, nat) {
    (e.0@, e.1 as nat)
}

pub open spec fn entries_view(s: Seq<(String, usize)>) -> Seq<(Seq<char>, nat)> {
    s.map_values(|e: (String, usize)| entry_view(e))
}

/// `a` is listed before `b`: more commits first, then keys in ascending order.
pub open spec fn entry_before(a: (Seq<char>, nat), b: (Seq<char>, nat)) -> bool {
    a.1 > b.1 || (a.1 == b.1 && text_less(a.0, b.0))
}

/// Every entry is listed before every later one.
pub open spec fn tally_sorted(s: Seq<(Seq<char>, nat)>) -> bool {
    forall|i: int, j: int| 0 <= i < j < s.len() ==> #[trigger] entry_before(s[i], s[j])
}

/// Commit counts as numbers.
pub open spec fn count_map(m: Map<Seq<char>, usize>) -> Map<Seq<char>, nat> {
    m.map_values(|v: usize| v as nat)
}

/// No text is listed twice.
pub open spec fn distinct_texts(s: Seq<Seq<char>>) -> bool {
    forall|i: int, j: int| 0 <= i < j < s.len() ==> s[i] != s[j]
}

fn entry_goes_before(a_count: usize, a_key: &Vec<char>, b_count: usize, b_key: &Vec<char>) -> (r:
    bool)
    ensures
        r == entry_before((a_key@, a_count as nat), (b_key@, b_count as nat)),
{
    a_count > b_count || (a_count == b_count && text_before(a_key, b_key))
}

/// The entries `(key, counts[key])` of `keys`, listed in tally order.
fn sorted_entries(keys: &Vec<String>, counts: &StringHashMap<usize>) -> (r: Vec<(String, usize)>)
    requires
        distinct_texts(string_texts(keys@)),
        forall|i: int| 0 <= i < keys@.len() ==> counts@.contains_key(#[trigger] keys@[i]@),
    ensures
        r@.len() == keys@.len(),
        tally_sorted(entries_view(r@)),
        forall|i: int|
            0 <= i < r@.len() ==> string_texts(keys@).contains(#[trigger] r@[i].0@)
                && counts@[r@[i].0@] == r@[i].1,
{
    let mut out: Vec<(String, usize)> = Vec::new();
    let mut k: usize = 0;
    while k < keys.len()
        invariant
            k <= keys@.len(),
            out@.len() == k,
            distinct_texts(string_texts(keys@)),
            forall|i: int| 0 <= i < keys@.len() ==> counts@.contains_key(#[trigger] keys@[i]@),
            tally_sorted(entries_view(out@)),
            forall|i: int|
                0 <= i < out@.len() ==> string_texts(keys@).take(k as int).contains(
                    #[trigger] out@[i].0@,
                ) && counts@[out@[i].0@] == out@[i].1,
        decreases keys.len() - k,
    {
        let key = keys[k].clone();
        let count: usize = match counts.get(key.as_str()) {
            Some(c) => *c,
            None => {
                assert(counts@.contains_key(keys@[k as int]@));
                0
            },
        };
        let kc = chars_of(key.as_str());
        let ghost e = (key@, count as nat);
        let mut p: usize = 0;
        while p < out.len()
            invariant
                p <= out@.len(),
                kc@ == key@,
                e == (key@, count as nat),
                forall|i: int| 0 <= i < p ==> #[trigger] entry_before(entry_view(out@[i]), e),
            ensures
                p <= out@.len(),
                e == (key@, count as nat),
                forall|i: int| 0 <= i < p ==> #[trigger] entry_before(entry_view(out@[i]), e),
                p < out@.len() ==> !entry_before(entry_view(out@[p as int]), e),
            decreases out.len() - p,
        {
            let oc = chars_of(out[p].0.as_str());
            assert(oc@ == out@[p as int].0@);
            let before_new = entry_goes_before(out[p].1, &oc, count, &kc);
            if !before_new {
                break;
            }
            assert(entry_before(entry_view(out@[p as int]), e));
            p = p + 1;
        }
        proof {
            assert(!string_texts(keys@).take(k as int).contains(key@)) by {
                if string_texts(keys@).take(k as int).contains(key@) {
                    let j = choose|j: int|
                        0 <= j < k && #[trigger] string_texts(keys@).take(k as int)[j] == key@;
                    assert(string_texts(keys@)[j] == string_texts(keys@)[k as int]);
                }
            }
            assert forall|i: int| p <= i < out@.len() implies #[trigger] entry_before(
                e,
                entry_view(out@[i]),
            ) by {
                let ep = entry_view(out@[p as int]);
                assert(string_texts(keys@).take(k as int).contains(out@[p as int].0@));
                assert(ep.0 != e.0);
                lemma_text_less_total(ep.0, e.0);
                if i > p {
                    assert(entries_view(out@)[p as int] == ep);
                    assert(entries_view(out@)[i] == entry_view(out@[i]));
                    assert(entry_before(entries_view(out@)[p as int], entries_view(out@)[i]));
                    if e.1 == ep.1 && ep.1 == out@[i].1 {
                        lemma_text_less_transitive(e.0, ep.0, out@[i].0@);
                    }
                }
            }
        }
        let ghost before = out@;
        out.insert(p, (key, count));
        proof {
            let v = entries_view(out@);
            assert(string_texts(keys@).take(k + 1) =~= string_texts(keys@).take(k as int).push(key@));
            assert forall|i: int, j: int| 0 <= i < j < v.len() implies #[trigger] entry_before(
                v[i],
                v[j],
            ) by {
                if j < p {
                    assert(entries_view(before)[i] == v[i] && entries_view(before)[j] == v[j]);
                } else if j == p {
                    assert(v[j] == e);
                    assert(v[i] == entry_view(before[i]));
                } else if i == p {
                    assert(v[i] == e);
                    assert(v[j] == entry_view(before[j - 1]));
                } else if i < p {
                    assert(v[i] == entries_view(before)[i]);
                    assert(v[j] == entries_view(before)[j - 1]);
                } else {
                    assert(v[i] == entries_view(before)[i - 1]);
                    assert(v[j] == entries_view(before)[j - 1]);
                }
            }
            assert forall|i: int| 0 <= i < out@.len() implies string_texts(keys@).take(k + 1).contains(
                #[trigger] out@[i].0@,
            ) && counts@[out@[i].0@] == out@[i].1 by {
                if i < p {
                    assert(out@[i] == before[i]);
                } else if i > p {
                    assert(out@[i] == before[i - 1]);
                } else {
                    assert(string_texts(keys@).take(k + 1)[k as int] == key@);
                }
            }
        }
        k = k + 1;
    }
    proof {
        assert(string_texts(keys@).take(k as int) =~= string_texts(keys@));
    }
    out
}

} // verus!

verus! {

/// The state of an aggregation run, as mathematical values.
pub struct TallyModel {
    /// First second counted, if bounded.
    pub start: Option<int>,
    /// Last second counted.
    pub end: int,
    /// Lower-case name filters.
    pub name_filters: Seq<Seq<char>>,
    /// Lower-case email filters.
    pub email_filters: Seq<Seq<char>>,
    /// Email bindings of the canonicalization.
    pub aliases: Map<Seq<char>, Seq<char>>,
    /// Name bindings of the canonicalization.
    pub names: Map<Seq<char>, Seq<char>>,
    /// Canonical keys, in the order they were first counted.
    pub keys: Seq<Seq<char>>,
    /// Commits counted per canonical key.
    pub counts: Map<Seq<char>, nat>,
    /// The first non-empty name counted per canonical key.
    pub display: Map<Seq<char>, Seq<char>>,
    /// The day of the first commit counted (the latest, in a newest-first history).
    pub latest_day: Option<int>,
    /// Commits counted.
    pub total: nat,
}

impl TallyModel {
    /// Keys are listed once each, exactly the counted ones, with counts between
    /// one and the total; nothing is listed before anything is counted.
    pub open spec fn wf(self) -> bool {
        &&& distinct_texts(self.keys)
        &&& forall|k: Seq<char>| #[trigger] self.counts.contains_key(k) <==> self.keys.contains(k)
        &&& forall|k: Seq<char>| #[trigger]
            self.counts.contains_key(k) ==> 1 <= self.counts[k] <= self.total
        &&& (self.total == 0 <==> self.keys.len() == 0)
    }

    /// A commit at `ts` by (`name`, `email`) is counted: it lies in the window and
    /// passes both filter sets.
    pub open spec fn accepts(self, ts: int, name: Seq<char>, email: Seq<char>) -> bool {
        &&& (self.start is None || self.start->0 <= ts)
        &&& ts <= self.end
        &&& passes_filters(name, self.name_filters)
        &&& passes_filters(email, self.email_filters)
    }

    /// The state after counting a commit at `ts` by (`name`, `email`).
    pub open spec fn record(self, ts: int, name: Seq<char>, email: Seq<char>) -> TallyModel {
        let key = canonical_key(self.aliases, self.names, email, name);
        TallyModel {
            aliases: aliases_after(self.aliases, self.names, email, name),
            names: names_after(self.aliases, self.names, email, name),
            keys: if self.counts.contains_key(key) {
                self.keys
            } else {
                self.keys.push(key)
            },
            counts: self.counts.insert(
                key,
                if self.counts.contains_key(key) {
                    self.counts[key] + 1
                } else {
                    1
                },
            ),
            display: if name.len() > 0 && !self.display.contains_key(key) {
                self.display.insert(key, name)
            } else {
                self.display
            },
            latest_day: if self.latest_day is None {
                Some(ts / 86400)
            } else {
                self.latest_day
            },
            total: self.total + 1,
            ..self
        }
    }

    /// The state after seeing a commit: counted if accepted, else unchanged.
    pub open spec fn after(self, ts: int, name: Seq<char>, email: Seq<char>) -> TallyModel {
        if self.accepts(ts, name, email) {
            self.record(ts, name, email)
        } else {
            self
        }
    }

    /// The state after seeing the commits of `records` in order.
    pub open spec fn after_all(self, records: Seq<(int, Seq<char>, Seq<char>)>) -> TallyModel
        decreases records.len(),
    {
        if records.len() == 0 {
            self
        } else {
            self.after(records[0].0, records[0].1, records[0].2).after_all(records.drop_first())
        }
    }
}

/// How an author is shown: `"<name> <<key>>"` when a name is known, else the key.
pub open spec fn author_label(display: Map<Seq<char>, Seq<char>>, key: Seq<char>) -> Seq<char> {
    if display.contains_key(key) {
        display[key] + " <"@ + key + ">"@
    } else {
        key
    }
}

/// Counts commits per author over a history, one record at a time.
pub struct CommitAggregator {
    start_ts: Option<i64>,
    end_ts: i64,
    name_filters_lower: Vec<String>,
    email_filters_lower: Vec<String>,
    email_aliases: StringHashMap<String>,
    name_to_email: StringHashMap<String>,
    keys: Vec<String>,
    counts: StringHashMap<usize>,
    display_names: StringHashMap<String>,
    latest_day: Option<i32>,
    total: usize,
}

impl View for CommitAggregator {
    type V = TallyModel;

    closed spec fn view(&self) -> TallyModel {
        TallyModel {
            start: match self.start_ts {
                Some(s) => Some(s as int),
                None => None,
            },
            end: self.end_ts as int,
            name_filters: string_texts(self.name_filters_lower@),
            email_filters: string_texts(self.email_filters_lower@),
            aliases: text_map(self.email_aliases@),
            names: text_map(self.name_to_email@),
            keys: string_texts(self.keys@),
            counts: count_map(self.counts@),
            display: text_map(self.display_names@),
            latest_day: match self.latest_day {
                Some(d) => Some(d as int),
                None => None,
            },
            total: self.total as nat,
        }
    }
}

/// Per-author commit counts, in tally order, with how to show each author.
pub struct AuthorTally {
    /// (canonical key, commits), most commits first, then keys ascending.
    pub entries: Vec<(String, usize)>,
    /// How each entry's author is shown.
    pub labels: Vec<String>,
    /// Commits counted in all.
    pub total: usize,
    /// The day of the latest commit counted.
    pub latest_day: Option<i32>,
}

/// The outcome of an aggregation run.
pub enum Aggregation {
    /// No commit in the window passed the filters.
    NoCommits,
    /// At least one commit was counted.
    Tally(AuthorTally),
}

impl CommitAggregator {
    /// An empty tally over `range`, with the given name and email filters.
    pub fn new(range: &TimeRange, name_filters: &Vec<String>, email_filters: &Vec<String>) -> (r:
        CommitAggregator)
        ensures
            r@.wf(),
            r@.start == range@.start_ts,
            r@.end == range@.end_ts,
            r@.name_filters == crate::authors::lowered(name_filters@),
            r@.email_filters == crate::authors::lowered(email_filters@),
            r@.aliases.is_empty() && r@.names.is_empty() && r@.display.is_empty(),
            r@.keys.len() == 0 && r@.counts.is_empty(),
            r@.latest_day is None && r@.total == 0,
    {
        let r = CommitAggregator {
            start_ts: range.start_ts,
            end_ts: range.end_ts,
            name_filters_lower: crate::authors::lowercase_all(name_filters),
            email_filters_lower: crate::authors::lowercase_all(email_filters),
            email_aliases: StringHashMap::new(),
            name_to_email: StringHashMap::new(),
            keys: Vec::new(),
            counts: StringHashMap::new(),
            display_names: StringHashMap::new(),
            latest_day: None,
            total: 0,
        };
        assert(r@.aliases =~= Map::empty());
        assert(r@.names =~= Map::empty());
        assert(r@.display =~= Map::empty());
        assert(r@.counts =~= Map::empty());
        r
    }

    /// Commits counted so far.
    pub fn total(&self) -> (r: usize)
        ensures
            r == self@.total,
    {
        self.total
    }

    /// Sees one commit: counts it if it lies in the window and passes the filters.
    /// A counted commit whose day is out of the calendar range is an error.
    pub fn add_record(&mut self, rec: CommitRecord) -> (r: Result<(), StatsError>)
        requires
            old(self)@.wf(),
            old(self)@.total < usize::MAX,
        ensures
            final(self)@.wf(),
            match r {
                Ok(()) => final(self)@ == old(self)@.after(
                    rec.timestamp as int,
                    rec.name@,
                    rec.email@,
                ) && !(old(self)@.accepts(rec.timestamp as int, rec.name@, rec.email@)
                    && timestamp_date_text(rec.timestamp as int) is None),
                Err(e) => e == StatsError::TimestampOutOfRange(rec.timestamp)
                    && old(self)@.accepts(rec.timestamp as int, rec.name@, rec.email@)
                    && timestamp_date_text(rec.timestamp as int) is None,
            },
    {
        let ghost m = self@;
        let ts = rec.timestamp;
        let after_start = match self.start_ts {
            Some(s) => s <= ts,
            None => true,
        };
        if !(after_start && ts <= self.end_ts) {
            return Ok(());
        }
        if !matches_author_filters_lowered(
            rec.name.as_str(),
            rec.email.as_str(),
            &self.name_filters_lower,
            &self.email_filters_lower,
        ) {
            return Ok(());
        }
        let day = match epoch_day_of_timestamp(ts) {
            None => return Err(StatsError::TimestampOutOfRange(ts)),
            Some(d) => d,
        };
        let key = canonicalize_author(
            rec.email.as_str(),
            rec.name.as_str(),
            &mut self.email_aliases,
            &mut self.name_to_email,
        );
        if !rec.name.as_str().is_empty() && !self.display_names.contains_key(key.as_str()) {
            self.display_names.insert(key.clone(), rec.name);
        }
        if self.latest_day.is_none() {
            self.latest_day = Some(day);
        }
        let ghost keys0 = self.keys@;
        let ghost counts0 = self.counts@;
        match self.counts.get(key.as_str()) {
            Some(c) => {
                let c = *c;
                assert(m.counts.contains_key(key@));
                self.counts.insert(key, c + 1);
            },
            None => {
                self.keys.push(key.clone());
                self.counts.insert(key, 1);
                proof {
                    assert(string_texts(self.keys@) =~= string_texts(keys0).push(key@));
                }
            },
        }
        self.total = self.total + 1;
        proof {
            let n = self@;
            let want = m.record(ts as int, rec.name@, rec.email@);
            assert(n.counts =~= want.counts);
            assert(n.display =~= want.display);
            assert(n.keys =~= want.keys);
            assert(n.wf()) by {
                assert forall|k: Seq<char>| #[trigger]
                    n.counts.contains_key(k) implies 1 <= n.counts[k] <= n.total by {
                    if k != key@ {
                        assert(m.counts.contains_key(k));
                    }
                }
                assert forall|k: Seq<char>| #[trigger]
                    n.counts.contains_key(k) <==> n.keys.contains(k) by {
                    assert(m.counts.contains_key(k) <==> m.keys.contains(k));
                    if m.counts.contains_key(key@) {
                        assert(n.keys == m.keys);
                    } else if k == key@ {
                        assert(n.keys[n.keys.len() - 1] == k);
                    } else {
                        if m.keys.contains(k) {
                            let j = choose|j: int| 0 <= j < m.keys.len() && m.keys[j] == k;
                            assert(n.keys[j] == k);
                        }
                        if n.keys.contains(k) {
                            let j = choose|j: int| 0 <= j < n.keys.len() && n.keys[j] == k;
                            assert(j < m.keys.len());
                            assert(m.keys[j] == k);
                        }
                    }
                }
                if !m.counts.contains_key(key@) {
                    assert forall|i: int, j: int| 0 <= i < j < n.keys.len() implies n.keys[i]
                        != n.keys[j] by {
                        if j == n.keys.len() - 1 {
                            assert(m.keys.contains(n.keys[i])) by {
                                assert(m.keys[i] == n.keys[i]);
                            }
                        }
                    }
                }
            }
            assert(n == want);
        }
        Ok(())
    }
}

} // verus!

verus! {

impl CommitAggregator {
    /// Reads one history line and sees the commit it holds; a blank line holds
    /// none. A malformed line is an error, never skipped.
    pub fn add_line(&mut self, line: &str) -> (r: Result<(), StatsError>)
        requires
            old(self)@.wf(),
            old(self)@.total < usize::MAX,
        ensures
            final(self)@.wf(),
            match r {
                Ok(()) => match parse_line(line@) {
                    LineParse::Blank => final(self)@ == old(self)@,
                    LineParse::Record(ts, name, email) => final(self)@ == old(self)@.after(
                        ts,
                        name,
                        email,
                    ) && !(old(self)@.accepts(ts, name, email) && timestamp_date_text(ts) is None),
                    _ => false,
                },
                Err(StatsError::MalformedRecord(_)) => parse_line(line@) is Malformed,
                Err(StatsError::BadTimestamp(_)) => parse_line(line@) is BadTimestamp,
                Err(StatsError::TimestampOutOfRange(t)) => match parse_line(line@) {
                    LineParse::Record(ts, name, email) => ts == t && old(self)@.accepts(
                        ts,
                        name,
                        email,
                    ) && timestamp_date_text(ts) is None,
                    _ => false,
                },
                Err(_) => false,
            },
    {
        match parse_record(line) {
            Err(e) => Err(e),
            Ok(None) => Ok(()),
            Ok(Some(rec)) => self.add_record(rec),
        }
    }

    /// The tally, sorted and labelled; `NoCommits` exactly when nothing was counted.
    pub fn finish(&self) -> (r: Aggregation)
        requires
            self@.wf(),
        ensures
            match r {
                Aggregation::NoCommits => self@.total == 0,
                Aggregation::Tally(t) => {
                    &&& self@.total > 0
                    &&& t.total == self@.total
                    &&& match t.latest_day {
                        Some(d) => self@.latest_day == Some(d as int),
                        None => self@.latest_day is None,
                    }
                    &&& t.entries@.len() == self@.keys.len()
                    &&& t.labels@.len() == t.entries@.len()
                    &&& tally_sorted(entries_view(t.entries@))
                    &&& forall|i: int|
                        0 <= i < t.entries@.len() ==> self@.counts.contains_key(
                            #[trigger] t.entries@[i].0@,
                        ) && self@.counts[t.entries@[i].0@] == t.entries@[i].1 && t.labels@[i]@
                            == author_label(self@.display, t.entries@[i].0@)
                },
            },
    {
        if self.total == 0 {
            return Aggregation::NoCommits;
        }
        proof {
            assert forall|i: int| 0 <= i < self.keys@.len() implies self.counts@.contains_key(
                #[trigger] self.keys@[i]@,
            ) by {
                assert(self@.keys[i] == self.keys@[i]@);
                assert(self@.keys.contains(self.keys@[i]@));
                assert(self@.counts.contains_key(self.keys@[i]@));
            }
        }
        let entries = sorted_entries(&self.keys, &self.counts);
        let mut labels: Vec<String> = Vec::new();
        let mut i: usize = 0;
        while i < entries.len()
            invariant
                i <= entries@.len(),
                labels@.len() == i,
                forall|j: int|
                    0 <= j < i ==> #[trigger] labels@[j]@ == author_label(
                        self@.display,
                        entries@[j].0@,
                    ),
            decreases entries.len() - i,
        {
            let key = &entries[i].0;
            let label = match self.display_names.get(key.as_str()) {
                Some(name) => {
                    let mut l = name.clone();
                    l.append(" <");
                    l.append(key.as_str());
                    l.append(">");
                    l
                },
                None => key.clone(),
            };
            labels.push(label);
            i = i + 1;
        }
        proof {
            assert forall|i: int| 0 <= i < entries@.len() implies self@.counts.contains_key(
                #[trigger] entries@[i].0@,
            ) && self@.counts[entries@[i].0@] == entries@[i].1 by {
                assert(string_texts(self.keys@).contains(entries@[i].0@));
            }
        }
        Aggregation::Tally(
            AuthorTally { entries, labels, total: self.total, latest_day: self.latest_day },
        )
    }
}

/// The rows to show: (label, commits) of the first `top` entries, or of all.
pub open spec fn shown_rows(tally: &AuthorTally, top: Option<usize>) -> Seq<(Seq<char>, nat)> {
    let n = match top {
        Some(t) => if t < tally.entries@.len() {
            t as int
        } else {
            tally.entries@.len() as int
        },
        None => tally.entries@.len() as int,
    };
    Seq::new(n as nat, |i: int| (tally.labels@[i]@, tally.entries@[i].1 as nat))
}

/// (label, commits) of the first `top` entries of the tally, or of all of them.
pub fn top_rows(tally: &AuthorTally, top: Option<usize>) -> (r: Vec<(String, usize)>)
    requires
        tally.labels@.len() == tally.entries@.len(),
    ensures
        entries_view(r@) == shown_rows(tally, top),
{
    let n = match top {
        Some(t) => if t < tally.entries.len() {
            t
        } else {
            tally.entries.len()
        },
        None => tally.entries.len(),
    };
    let mut out: Vec<(String, usize)> = Vec::new();
    let mut i: usize = 0;
    while i < n
        invariant
            i <= n <= tally.entries@.len(),
            tally.labels@.len() == tally.entries@.len(),
            entries_view(out@) =~= shown_rows(tally, top).take(i as int),
            shown_rows(tally, top).len() == n,
        decreases n - i,
    {
        let label = tally.labels[i].clone();
        let ghost before = out@;
        out.push((label, tally.entries[i].1));
        assert(entries_view(out@) =~= entries_view(before).push(
            (tally.labels@[i as int]@, tally.entries@[i as int].1 as nat),
        ));
        assert(entries_view(out@) =~= shown_rows(tally, top).take(i + 1));
        i = i + 1;
    }
    assert(shown_rows(tally, top).take(n as int) =~= shown_rows(tally, top));
    out
}

/// The end of the range as shown: the given end date, else the latest commit's
/// day followed by `(latest commit)`, or `latest commit` alone.
pub open spec fn shown_end_label(range: RangeModel, latest_day: Option<i32>) -> Seq<char> {
    if !range.end_is_latest {
        range.end_label
    } else {
        match latest_day {
            Some(d) => match crate::dates::date_text(d as int) {
                Some(t) => t + " (latest commit)"@,
                None => "latest commit"@,
            },
            None => "latest commit"@,
        }
    }
}

/// The end of the range as shown, once the latest commit's day is known.
pub fn end_label(range: &TimeRange, latest_day: Option<i32>) -> (r: String)
    ensures
        r@ == shown_end_label(range@, latest_day),
{
    if !range.end_is_latest {
        return range.end_label.clone();
    }
    match latest_day {
        Some(d) => match crate::dates::epoch_day_text(d) {
            Some(t) => {
                let mut l = t;
                l.append(" (latest commit)");
                l
            },
            None => String::from_str("latest commit"),
        },
        None => String::from_str("latest commit"),
    }
}

/// When no seen commit is accepted, nothing is counted: a run over such a history
/// that starts empty ends with `NoCommits`.
pub proof fn lemma_no_matching_commits_counts_nothing(
    m: TallyModel,
    records: Seq<(int, Seq<char>, Seq<char>)>,
)
    requires
        forall|i: int|
            0 <= i < records.len() ==> !m.accepts(
                #[trigger] records[i].0,
                records[i].1,
                records[i].2,
            ),
    ensures
        m.after_all(records) == m,
    decreases records.len(),
{
    if records.len() > 0 {
        assert forall|i: int| 0 <= i < records.drop_first().len() implies !m.accepts(
            #[trigger] records.drop_first()[i].0,
            records.drop_first()[i].1,
            records.drop_first()[i].2,
        ) by {
            assert(records.drop_first()[i] == records[i + 1]);
        }
        lemma_no_matching_commits_counts_nothing(m, records.drop_first());
    }
}

} // verus!
