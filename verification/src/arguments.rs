//! Options given on the command line as `--name value` and `--flag`, kept
//! by name.

use vstd::prelude::*;

use crate::address::{spec_parse_address, Address};
use crate::error::{Error, Result};

verus! {

/// The value of an option.
pub enum OptionValue {
    Boolean(bool),
    String(String),
}

/// The content of an `OptionValue`.
pub enum Value {
    Flag(bool),
    Text(Seq<char>),
}

impl View for OptionValue {
    type V = Value;

    open spec fn view(&self) -> Value {
        match self {
            OptionValue::Boolean(b) => Value::Flag(*b),
            OptionValue::String(s) => Value::Text(s@),
        }
    }
}

/// Options by name.
pub struct Options {
    /// Every setting in the order it was made; a later one replaces an
    /// earlier one of the same name.
    entries: Vec<(String, OptionValue)>,
}

/// The options that a list of settings amounts to.
pub open spec fn entries_map(entries: Seq<(String, OptionValue)>) -> Map<Seq<char>, Value>
    decreases entries.len(),
{
    if entries.len() == 0 {
        Map::empty()
    } else {
        entries_map(entries.drop_last()).insert(entries.last().0@, entries.last().1@)
    }
}

impl View for Options {
    type V = Map<Seq<char>, Value>;

    closed spec fn view(&self) -> Map<Seq<char>, Value> {
        entries_map(self.entries@)
    }
}

/// The state of parsing: the options so far and the name that awaits a
/// value.
pub struct ParseState {
    pub map: Map<Seq<char>, Value>,
    pub previous: Option<Seq<char>>,
}

/// Whether `chunk` names an option.
pub open spec fn is_option(chunk: Seq<char>) -> bool {
    chunk.len() >= 2 && chunk[0] == '-' && chunk[1] == '-'
}

/// The options so far, with a name that awaits a value taken as a flag.
pub open spec fn settle(st: ParseState) -> Map<Seq<char>, Value> {
    match st.previous {
        Some(name) => st.map.insert(name, Value::Flag(true)),
        None => st.map,
    }
}

/// One chunk of the command line; `None` where the arguments are invalid.
pub open spec fn parse_step(st: ParseState, chunk: Seq<char>) -> Option<ParseState> {
    if is_option(chunk) {
        if chunk.len() > 2 {
            Some(ParseState { map: settle(st), previous: Some(chunk.skip(2)) })
        } else {
            None
        }
    } else {
        match st.previous {
            Some(name) => Some(ParseState { map: st.map.insert(name, Value::Text(chunk)), previous: None }),
            None => None,
        }
    }
}

/// The state after the chunks.
pub open spec fn parse_run(chunks: Seq<Seq<char>>) -> Option<ParseState>
    decreases chunks.len(),
{
    if chunks.len() == 0 {
        Some(ParseState { map: Map::empty(), previous: None })
    } else {
        match parse_run(chunks.drop_last()) {
            Some(st) => parse_step(st, chunks.last()),
            None => None,
        }
    }
}

/// The options that the chunks of a command line give: each `--name value`
/// sets `name` to the text `value`, each `--name` not followed by a value
/// sets `name` to `true`, and a later setting replaces an earlier one.
/// `None` where a chunk is `--` alone or a value has no name before it.
pub open spec fn spec_parse(chunks: Seq<Seq<char>>) -> Option<Map<Seq<char>, Value>> {
    match parse_run(chunks) {
        Some(st) => Some(settle(st)),
        None => None,
    }
}

/// The views of a list of strings.
pub open spec fn views(v: Seq<String>) -> Seq<Seq<char>> {
    v.map_values(|s: String| s@)
}

/// A value that an option can be read as.
pub trait FromValue: View + Sized {
    /// What the option's value reads as; `None` where it does not read as
    /// this type.
    spec fn convert(v: Value) -> Option<Self::V>;

    /// Reads an option's value as this type.
    fn from_value(v: &OptionValue) -> (res: Option<Self>)
        ensures
            match res {
                Some(t) => Self::convert(v@) == Some(t@),
                None => Self::convert(v@) is None,
            },
    ;
}

impl FromValue for bool {
    open spec fn convert(v: Value) -> Option<bool> {
        match v {
            Value::Flag(b) => Some(b),
            Value::Text(_) => None,
        }
    }

    fn from_value(v: &OptionValue) -> (res: Option<bool>) {
        match v {
            OptionValue::Boolean(b) => Some(*b),
            OptionValue::String(_) => None,
        }
    }
}

impl FromValue for String {
    open spec fn convert(v: Value) -> Option<Seq<char>> {
        match v {
            Value::Flag(_) => None,
            Value::Text(s) => Some(s),
        }
    }

    fn from_value(v: &OptionValue) -> (res: Option<String>) {
        match v {
            OptionValue::Boolean(_) => None,
            OptionValue::String(s) => Some(s.clone()),
        }
    }
}

impl FromValue for Address {
    open spec fn convert(v: Value) -> Option<(Seq<char>, usize)> {
        match v {
            Value::Flag(_) => None,
            Value::Text(s) => spec_parse_address(s),
        }
    }

    fn from_value(v: &OptionValue) -> (res: Option<Address>) {
        match v {
            OptionValue::Boolean(_) => None,
            OptionValue::String(s) => Address::parse(s.as_str()),
        }
    }
}

/// Once the arguments are invalid, more chunks do not make them valid.
proof fn lemma_run_fails_onward(chunks: Seq<Seq<char>>, k: int)
    requires
        0 <= k <= chunks.len(),
        parse_run(chunks.take(k)) is None,
    ensures
        parse_run(chunks) is None,
    decreases chunks.len(),
{
    if k < chunks.len() {
        assert(chunks.drop_last().take(k) =~= chunks.take(k));
        lemma_run_fails_onward(chunks.drop_last(), k);
    } else {
        assert(chunks.take(k) =~= chunks);
    }
}

proof fn lemma_entries_push(entries: Seq<(String, OptionValue)>, e: (String, OptionValue))
    ensures
        entries_map(entries.push(e)) == entries_map(entries).insert(e.0@, e.1@),
{
    assert(entries.push(e).drop_last() =~= entries);
}

proof fn lemma_entries_lookup(entries: Seq<(String, OptionValue)>, i: int, key: Seq<char>)
    requires
        0 <= i <= entries.len(),
        forall|j: int| i <= j < entries.len() ==> (#[trigger] entries[j]).0@ != key,
    ensures
        entries_map(entries).contains_key(key) == entries_map(entries.take(i)).contains_key(key),
        entries_map(entries).contains_key(key) ==> entries_map(entries)[key] == entries_map(
            entries.take(i),
        )[key],
    decreases entries.len(),
{
    if i < entries.len() {
        assert forall|j: int| i <= j < entries.drop_last().len() implies (
        #[trigger] entries.drop_last()[j]).0@ != key by {
            assert(entries.drop_last()[j] == entries[j]);
        }
        assert(entries.last().0@ != key);
        lemma_entries_lookup(entries.drop_last(), i, key);
        assert(entries.drop_last().take(i) =~= entries.take(i));
    } else {
        assert(entries.take(i) =~= entries);
    }
}

impl Options {
    /// Options with nothing set.
    pub fn new() -> (res: Options)
        ensures
            res@ == Map::<Seq<char>, Value>::empty(),
    {
        Options { entries: Vec::new() }
    }

    /// Sets `name` to `value`, replacing what it was.
    pub fn set(&mut self, name: String, value: OptionValue)
        ensures
            final(self)@ == old(self)@.insert(name@, value@),
    {
        proof {
            lemma_entries_push(self.entries@, (name, value));
        }
        self.entries.push((name, value));
    }

    /// The value of `name`, if it is set.
    pub fn value(&self, name: &str) -> (res: Option<&OptionValue>)
        ensures
            match res {
                Some(v) => self@.contains_key(name@) && self@[name@] == v@,
                None => !self@.contains_key(name@),
            },
    {
        let mut i: usize = self.entries.len();
        while i > 0
            invariant
                i <= self.entries@.len(),
                forall|j: int| i <= j < self.entries@.len() ==> (#[trigger] self.entries@[j]).0@
                    != name@,
            decreases i,
        {
            i = i - 1;
            if crate::text::equals(self.entries[i].0.as_str(), name) {
                proof {
                    let e = self.entries@;
                    assert forall|j: int| i + 1 <= j < e.len() implies (#[trigger] e[j]).0@
                        != name@ by {}
                    lemma_entries_lookup(e, i + 1, name@);
                    lemma_entries_push(e.take(i as int), e[i as int]);
                    assert(e.take(i + 1) =~= e.take(i as int).push(e[i as int]));
                }
                return Some(&self.entries[i].1);
            }
        }
        proof {
            lemma_entries_lookup(self.entries@, 0, name@);
            assert(self.entries@.take(0) =~= Seq::<(String, OptionValue)>::empty());
        }
        None
    }

    /// Parses the chunks of a command line; see `spec_parse`.
    pub fn parse(stream: Vec<String>) -> (res: Result<Options>)
        ensures
            match res {
                Ok(o) => spec_parse(views(stream@)) == Some(o@),
                Err(e) => spec_parse(views(stream@)) is None && e == Error::InvalidArguments,
            },
    {
        let mut options = Options::new();
        let mut previous: Option<String> = None;
        let mut i: usize = 0;
        while i < stream.len()
            invariant
                i <= stream@.len(),
                parse_run(views(stream@.take(i as int))) == Some(
                    ParseState {
                        map: options@,
                        previous: match previous {
                            Some(p) => Some(p@),
                            None => None,
                        },
                    },
                ),
            decreases stream.len() - i,
        {
            let chunk = stream[i].as_str();
            let ghost before = views(stream@.take(i as int));
            proof {
                assert(views(stream@.take(i + 1)) =~= before.push(chunk@));
                assert(views(stream@.take(i + 1)).drop_last() =~= before);
            }
            let len = chunk.unicode_len();
            if len >= 2 && chunk.get_char(0) == '-' && chunk.get_char(1) == '-' {
                match previous {
                    Some(name) => options.set(name, OptionValue::Boolean(true)),
                    None => {},
                }
                if len <= 2 {
                    proof {
                        assert(views(stream@).take(i + 1) =~= views(stream@.take(i + 1)));
                        lemma_run_fails_onward(views(stream@), i + 1);
                    }
                    return Err(Error::InvalidArguments);
                }
                let rest = chunk.substring_char(2, len);
                assert(rest@ =~= chunk@.skip(2));
                previous = Some(rest.to_string());
            } else {
                match previous {
                    Some(name) => {
                        options.set(name, OptionValue::String(chunk.to_string()));
                        previous = None;
                    },
                    None => {
                        proof {
                            assert(views(stream@).take(i + 1) =~= views(stream@.take(i + 1)));
                            lemma_run_fails_onward(views(stream@), i + 1);
                        }
                        return Err(Error::InvalidArguments);
                    },
                }
            }
            i = i + 1;
        }
        assert(stream@.take(stream.len() as int) =~= stream@);
        match previous {
            Some(name) => options.set(name, OptionValue::Boolean(true)),
            None => {},
        }
        Ok(options)
    }

    /// The value of `name` read as `T`, if it is set and reads as `T`.
    pub fn get<T: FromValue>(&self, name: &str) -> (res: Option<T>)
        ensures
            match res {
                Some(t) => self@.contains_key(name@) && T::convert(self@[name@]) == Some(t@),
                None => !self@.contains_key(name@) || T::convert(self@[name@]) is None,
            },
    {
        match self.value(name) {
            Some(v) => T::from_value(v),
            None => None,
        }
    }
}

/// A `--name value` pair at the end of a command line sets `name` to the
/// text `value`, over whatever the command line before it set.
pub proof fn law_value_pair(chunks: Seq<Seq<char>>, name: Seq<char>, value: Seq<char>)
    requires
        spec_parse(chunks) is Some,
        name.len() > 0,
        !is_option(value),
    ensures
        spec_parse(chunks + seq![seq!['-', '-'] + name, value]) == Some(
            spec_parse(chunks)->0.insert(name, Value::Text(value)),
        ),
{
    let all = chunks + seq![seq!['-', '-'] + name, value];
    let option = seq!['-', '-'] + name;
    assert(all.drop_last().drop_last() =~= chunks);
    assert(all.drop_last().last() == option);
    assert(all.last() == value);
    assert(option.skip(2) =~= name);
    assert(is_option(option));
    let st = parse_run(chunks)->0;
    assert(parse_run(all.drop_last()) == parse_step(st, option));
    assert(parse_run(all) == parse_step(parse_run(all.drop_last())->0, value));
}

/// A `--name` at the end of a command line sets `name` to `true`, over
/// whatever the command line before it set.
pub proof fn law_flag(chunks: Seq<Seq<char>>, name: Seq<char>)
    requires
        spec_parse(chunks) is Some,
        name.len() > 0,
    ensures
        spec_parse(chunks.push(seq!['-', '-'] + name)) == Some(
            spec_parse(chunks)->0.insert(name, Value::Flag(true)),
        ),
{
    let option = seq!['-', '-'] + name;
    assert(chunks.push(option).drop_last() =~= chunks);
    assert(option.skip(2) =~= name);
    assert(is_option(option));
}

impl Options {
    /// Whether `--help` is given as a flag.
    pub fn asks_help(&self) -> (res: bool)
        ensures
            res == (self@.contains_key("help"@) && self@["help"@] == Value::Flag(true)),
    {
        match self.get::<bool>("help") {
            Some(b) => b,
            None => false,
        }
    }
}

/// Parses the chunks of a command line into options; see `spec_parse`.
pub fn parse(stream: Vec<String>) -> (res: Result<Options>)
    ensures
        match res {
            Ok(o) => spec_parse(views(stream@)) == Some(o@),
            Err(e) => spec_parse(views(stream@)) is None && e == Error::InvalidArguments,
        },
{
    Options::parse(stream)
}

} // verus!
