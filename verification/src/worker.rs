//! The decisions of a worker that takes McPAT configuration files from a
//! queue and records the power of each: which files it accepts, what time
//! a file stands for, and which columns the records have.

use vstd::prelude::*;

use crate::error::{Error, Result};
use crate::support;
use crate::text;
use crate::text::{ends_with, find_char, parse_u64, path_file_name, rfind_char, starts_with};

verus! {

/// The message that stops a worker.
pub const HALT_MESSAGE: &'static str = "bullet:halt";

/// The start of the name of a configuration file.
pub const NAME_PREFIX: &'static str = "power-";

/// The end of the name of a configuration file.
pub const NAME_SUFFIX: &'static str = ".xml";

/// What lies between the prefix and the suffix of a well-formed name.
pub open spec fn name_middle(name: Seq<char>) -> Seq<char> {
    name.subrange(NAME_PREFIX@.len() as int, name.len() - NAME_SUFFIX@.len())
}

/// Whether `name` has the prefix and the suffix of a configuration file.
pub open spec fn framed(name: Seq<char>) -> bool {
    text::has_prefix(name, NAME_PREFIX@) && text::has_suffix(name, NAME_SUFFIX@)
}

/// Whether reading the time of `name` goes through: it does not where the
/// part between prefix and suffix holds exactly one `-`.
pub open spec fn time_readable(name: Seq<char>) -> bool {
    framed(name) ==> match (text::find(name_middle(name), '-'), text::rfind(name_middle(name), '-')) {
        (Some(k), Some(j)) => k != j,
        _ => true,
    }
}

/// The time that a file name `power-{start}-{time}-{elapsed}.xml` stands
/// for: the decimal number between the first and the last `-` after the
/// prefix.
pub open spec fn spec_time_from_name(name: Seq<char>) -> Result<u64> {
    if !framed(name) {
        Err(Error::MalformedPath)
    } else {
        let middle = name_middle(name);
        match (text::find(middle, '-'), text::rfind(middle, '-')) {
            (Some(k), Some(j)) => match text::parse_unsigned(
                middle.subrange(k + 1, j),
                u64::MAX as nat,
            ) {
                Some(t) => Ok(t as u64),
                None => Err(Error::MalformedPath),
            },
            _ => Err(Error::MalformedPath),
        }
    }
}

/// Reads the time that a configuration file name stands for.
pub fn time_from_name(name: &str) -> (res: Result<u64>)
    requires
        time_readable(name@),
    ensures
        res == spec_time_from_name(name@),
{
    proof {
        reveal_strlit("power-");
        reveal_strlit(".xml");
    }
    if !starts_with(name, NAME_PREFIX) || !ends_with(name, NAME_SUFFIX) {
        return Err(Error::MalformedPath);
    }
    let len = name.unicode_len();
    assert(len >= 10) by {
        if len < 10 {
            assert(name@.skip(len - 4)[0] == '.');
            assert(name@.take(6)[len - 4] == name@[len - 4]);
        }
    }
    let middle = name.substring_char(6, len - 4);
    assert(middle@ =~= name_middle(name@));
    let i = match find_char(middle, '-') {
        Some(k) => k + 1,
        None => return Err(Error::MalformedPath),
    };
    let j = match rfind_char(middle, '-') {
        Some(j) => j,
        None => return Err(Error::MalformedPath),
    };
    assert(i <= j) by {
        if j < i - 1 {
            assert(middle@[j as int] == '-');
        }
    }
    let digits = middle.substring_char(i, j);
    match parse_u64(digits) {
        Some(t) => Ok(t),
        None => Err(Error::MalformedPath),
    }
}

/// A configuration file named `power-{start}-{time}-{elapsed}.xml`, with
/// `start` and `elapsed` free of `-`, stands for `time`.
pub proof fn law_time_from_name(start: Seq<char>, time: u64, elapsed: Seq<char>)
    requires
        !start.contains('-'),
        !elapsed.contains('-'),
    ensures
        time_readable(
            NAME_PREFIX@ + start + seq!['-'] + text::decimal(time as nat) + seq!['-'] + elapsed
                + NAME_SUFFIX@,
        ),
        spec_time_from_name(
            NAME_PREFIX@ + start + seq!['-'] + text::decimal(time as nat) + seq!['-'] + elapsed
                + NAME_SUFFIX@,
        ) == Ok::<u64, Error>(time),
{
    reveal_strlit("power-");
    reveal_strlit(".xml");
    let d = text::decimal(time as nat);
    let middle = start + seq!['-'] + d + seq!['-'] + elapsed;
    let name = NAME_PREFIX@ + middle + NAME_SUFFIX@;
    assert(name =~= NAME_PREFIX@ + start + seq!['-'] + d + seq!['-'] + elapsed + NAME_SUFFIX@);
    assert(name.take(6) =~= NAME_PREFIX@);
    assert(name.skip(name.len() - 4) =~= NAME_SUFFIX@);
    assert(name_middle(name) =~= middle);
    text::lemma_decimal_is_digits(time as nat);
    let k = start.len() as int;
    let j = k + 1 + d.len();
    assert forall|i: int| 0 <= i < k implies middle[i] != '-' by {
        assert(middle[i] == start[i]);
    }
    assert forall|i: int| k < i < j implies middle[i] != '-' by {
        assert(middle[i] == d[i - k - 1]);
        assert(text::is_digit(d[i - k - 1]));
    }
    assert forall|i: int| j < i < middle.len() implies middle[i] != '-' by {
        assert(middle[i] == elapsed[i - j - 1]);
    }
    assert(middle[k] == '-');
    assert(middle[j] == '-');
    assert(text::is_first(middle, '-', k));
    assert(text::is_last(middle, '-', j));
    text::lemma_find_is(middle, '-', k);
    text::lemma_rfind_is(middle, '-', j);
    assert(middle.subrange(k + 1, j) =~= d);
    text::lemma_parse_decimal(time as nat, u64::MAX as nat);
}

/// The time that a configuration file stands for, read from the last
/// component of its path; `None` where reading it does not go through (see
/// `time_readable`).
pub fn derive_time(path: &str) -> (res: Option<Result<u64>>)
    ensures
        match text::file_name(path@) {
            None => res == Some(Err::<u64, Error>(Error::MalformedPath)),
            Some(name) => if time_readable(name) {
                res == Some(spec_time_from_name(name))
            } else {
                res is None
            },
        },
{
    let name = match path_file_name(path) {
        Some(name) => name,
        None => return Some(Err(Error::MalformedPath)),
    };
    let name = name.as_str();
    if !readable(name) {
        return None;
    }
    Some(time_from_name(name))
}

/// Tells whether `time_readable` holds of `name`.
fn readable(name: &str) -> (res: bool)
    ensures
        res == time_readable(name@),
{
    proof {
        reveal_strlit("power-");
        reveal_strlit(".xml");
    }
    if !starts_with(name, NAME_PREFIX) || !ends_with(name, NAME_SUFFIX) {
        return true;
    }
    let len = name.unicode_len();
    assert(len >= 10) by {
        if len < 10 {
            assert(name@.skip(len - 4)[0] == '.');
            assert(name@.take(6)[len - 4] == name@[len - 4]);
        }
    }
    let middle = name.substring_char(6, len - 4);
    assert(middle@ =~= name_middle(name@));
    match (find_char(middle, '-'), rfind_char(middle, '-')) {
        (Some(k), Some(j)) => k != j,
        _ => true,
    }
}

/// The pairs of a name template and a count, as a list of templates.
pub open spec fn pairs_view(pairs: Seq<(&str, usize)>) -> Seq<(Seq<Seq<char>>, nat)> {
    pairs.map_values(|p: (&str, usize)| (seq![p.0@], p.1 as nat))
}

/// Generates the names that the templates give their components: for each
/// template, the components `0` to `count - 1`.
pub fn generate_names(pairs: &[(&str, usize)]) -> (names: Vec<String>)
    requires
        forall|i: int| 0 <= i < pairs@.len() ==> (#[trigger] pairs@[i]).0@.contains('#'),
    ensures
        support::string_views(names@) == support::spec_generate(pairs_view(pairs@)),
{
    let mut names: Vec<String> = Vec::new();
    let mut t: usize = 0;
    while t < pairs.len()
        invariant
            t <= pairs@.len(),
            forall|i: int| 0 <= i < pairs@.len() ==> (#[trigger] pairs@[i]).0@.contains('#'),
            support::string_views(names@) =~= support::spec_generate(
                pairs_view(pairs@.take(t as int)),
            ),
        decreases pairs.len() - t,
    {
        let (template, count) = pairs[t];
        assert(template@.contains('#')) by {
            assert(pairs@[t as int].0 == template);
        }
        let ghost start = support::string_views(names@);
        let mut i: usize = 0;
        while i < count
            invariant
                template@.contains('#'),
                i <= count,
                support::string_views(names@) =~= start + support::block(
                    seq![template@],
                    i as nat,
                ),
            decreases count - i,
        {
            let n = support::name(template, i);
            let ghost prev = names@;
            names.push(n);
            assert(support::string_views(names@) =~= support::string_views(prev).push(n@));
            assert(seq![template@].map_values(|s: Seq<char>| support::expand(s, i as nat))
                =~= seq![support::expand(template@, i as nat)]);
            i = i + 1;
        }
        proof {
            let tv = pairs_view(pairs@.take(t + 1));
            assert(tv.drop_last() =~= pairs_view(pairs@.take(t as int)));
            assert(tv.last() == (seq![template@], count as nat));
        }
        t = t + 1;
    }
    assert(pairs@.take(pairs.len() as int) =~= pairs@);
    names
}

/// The columns that a worker records for a system with `cores` cores and
/// `l3s` L3 caches: the dynamic and the leakage power of each.
pub open spec fn spec_columns(cores: usize, l3s: usize) -> Seq<Seq<char>> {
    support::spec_generate(
        seq![
            (seq!["core#_dynamic"@], cores as nat),
            (seq!["core#_leakage"@], cores as nat),
            (seq!["l3#_dynamic"@], l3s as nat),
            (seq!["l3#_leakage"@], l3s as nat),
        ],
    )
}

/// The columns of the records of a system with `cores` cores and `l3s` L3
/// caches.
pub fn columns(cores: usize, l3s: usize) -> (names: Vec<String>)
    ensures
        support::string_views(names@) == spec_columns(cores, l3s),
{
    proof {
        reveal_strlit("core#_dynamic");
        reveal_strlit("core#_leakage");
        reveal_strlit("l3#_dynamic");
        reveal_strlit("l3#_leakage");
        assert("core#_dynamic"@[4] == '#');
        assert("core#_leakage"@[4] == '#');
        assert("l3#_dynamic"@[2] == '#');
        assert("l3#_leakage"@[2] == '#');
    }
    let pairs = [("core#_dynamic", cores), ("core#_leakage", cores), ("l3#_dynamic", l3s), (
        "l3#_leakage",
        l3s,
    )];
    let names = generate_names(&pairs);
    assert(pairs_view(pairs@) =~= seq![
        (seq!["core#_dynamic"@], cores as nat),
        (seq!["core#_leakage"@], cores as nat),
        (seq!["l3#_dynamic"@], l3s as nat),
        (seq!["l3#_leakage"@], l3s as nat),
    ]);
    names
}

/// What a worker does with a message.
pub enum Action {
    /// Stop.
    Halt,
    /// Record the power of the system in `config` at `time`.
    Record { time: u64, config: String },
    /// Stop at once without an answer: the file name splits so that its
    /// time cannot be read at all (see `time_readable`).
    Abort,
}

/// The state of a worker between messages.
pub struct Session {
    prepared: bool,
    names: Vec<String>,
}

impl Session {
    /// Whether the database has been prepared.
    pub closed spec fn is_prepared(&self) -> bool {
        self.prepared
    }

    /// The columns of the records.
    pub closed spec fn columns(&self) -> Seq<Seq<char>> {
        support::string_views(self.names@)
    }

    /// A session that has prepared nothing yet.
    pub fn new() -> (res: Session)
        ensures
            !res.is_prepared(),
            res.columns() == Seq::<Seq<char>>::empty(),
    {
        Session { prepared: false, names: Vec::new() }
    }

    /// Decides what to do with `message`: the halt message stops the
    /// worker; any other message is the path of a configuration file whose
    /// name gives the time.
    pub fn receive(&self, message: &str) -> (res: Result<Action>)
        ensures
            message@ == HALT_MESSAGE@ ==> res matches Ok(Action::Halt),
            message@ != HALT_MESSAGE@ ==> match text::file_name(message@) {
                None => res == Err::<Action, Error>(Error::MalformedPath),
                Some(name) => if !time_readable(name) {
                    res matches Ok(Action::Abort)
                } else {
                    match spec_time_from_name(name) {
                        Ok(t) => (res matches Ok(Action::Record { time, config }) && time == t
                            && config@ == message@),
                        Err(e) => res == Err::<Action, Error>(e),
                    }
                },
            },
    {
        if text::equals(message, HALT_MESSAGE) {
            return Ok(Action::Halt);
        }
        match derive_time(message) {
            None => Ok(Action::Abort),
            Some(Ok(time)) => Ok(Action::Record { time, config: message.to_string() }),
            Some(Err(e)) => Err(e),
        }
    }

    /// Takes note of a loaded system with `cores` cores and `l3s` L3 caches.
    /// The first time, it fixes the columns and returns them: the database
    /// is to be prepared with them. Later it returns `None`.
    pub fn prepare(&mut self, cores: usize, l3s: usize) -> (res: Option<Vec<String>>)
        ensures
            final(self).is_prepared(),
            old(self).is_prepared() ==> res is None && final(self).columns() == old(self).columns(),
            !old(self).is_prepared() ==> (res matches Some(names) && support::string_views(names@)
                == spec_columns(cores, l3s)) && final(self).columns() == spec_columns(cores, l3s),
    {
        if self.prepared {
            return None;
        }
        let names = columns(cores, l3s);
        self.names = names.clone();
        self.prepared = true;
        Some(names)
    }

    /// The columns of the records, as fixed by `prepare`.
    pub fn names(&self) -> (res: &Vec<String>)
        ensures
            support::string_views(res@) == self.columns(),
    {
        &self.names
    }

    /// The number of columns of the records.
    pub fn len(&self) -> (res: usize)
        ensures
            res == self.columns().len(),
    {
        self.names.len()
    }

    /// Checks that a record of `count` values fits the columns.
    pub fn check(&self, count: usize) -> (res: Result<()>)
        ensures
            res is Ok <==> count == self.columns().len(),
            res is Err ==> res == Err::<(), Error>(Error::DimensionMismatch),
    {
        if count != self.names.len() {
            return Err(Error::DimensionMismatch);
        }
        Ok(())
    }
}

} // verus!
