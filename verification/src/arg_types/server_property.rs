//! A line of the server's properties file, and the table of such lines by
//! their keys.

use vstd::prelude::*;
use vstd::string::StringExecFns;
use crate::text::{
    chars_of, compare, find_last, last_index, lemma_precedes_asymmetric,
    lemma_precedes_transitive, lowercase_of, precedes, push_chars, str_eq, to_lowercase, Order,
};

verus! {

/// A property of the server: a key and a value.
#[derive(Debug, Clone)]
pub struct ServerProperty(String, String);

/// Why a line is refused as a property.
#[derive(Debug, Clone)]
pub enum ServerPropertyError {
    /// The line does not hold exactly one `=`.
    InvalidProperty,
    /// The key is one that is set for every server; it holds the key in
    /// lower case.
    DisallowedProperty(String),
}

/// Why a line is refused as a property, as a mathematical value.
pub enum PropertyFault {
    Invalid,
    Disallowed(Seq<char>),
}

impl View for ServerPropertyError {
    type V = PropertyFault;

    open spec fn view(&self) -> PropertyFault {
        match self {
            ServerPropertyError::InvalidProperty => PropertyFault::Invalid,
            ServerPropertyError::DisallowedProperty(key) => PropertyFault::Disallowed(key@),
        }
    }
}

impl PropertyFault {
    /// What the fault is, in words.
    pub open spec fn message(self) -> Seq<char> {
        match self {
            PropertyFault::Invalid => "invalid server property"@,
            PropertyFault::Disallowed(key) => "disallowed property: "@ + key,
        }
    }
}

impl ServerPropertyError {
    /// What the fault is, in words.
    pub fn to_string(&self) -> (text: String)
        ensures
            text@ == self@.message(),
    {
        match self {
            ServerPropertyError::InvalidProperty => String::from_str("invalid server property"),
            ServerPropertyError::DisallowedProperty(key) => {
                let mut text = String::from_str("disallowed property: ");
                text.append(key.as_str());
                text
            },
        }
    }
}

/// Whether `key`, which is in lower case, is one of the keys that are set
/// for every server and cannot be given as a property.
pub open spec fn is_reserved(key: Seq<char>) -> bool {
    ||| key == "level-seed"@
    ||| key == "motd"@
    ||| key == "query.port"@
    ||| key == "server-port"@
    ||| key == "white-list"@
    ||| key == "level-name"@
}

/// The key and the value that a line gives: the line holds exactly one `=`,
/// the key stands before it and the value after it, and the key in lower
/// case is not reserved.
pub open spec fn parse_property(line: Seq<char>) -> Result<(Seq<char>, Seq<char>), PropertyFault> {
    let at = last_index(line, '=');
    if at < 0 || last_index(line.take(at), '=') >= 0 {
        Err(PropertyFault::Invalid)
    } else if is_reserved(lowercase_of(line.take(at))) {
        Err(PropertyFault::Disallowed(lowercase_of(line.take(at))))
    } else {
        Ok((line.take(at), line.skip(at + 1)))
    }
}

/// Whether `key`, which is in lower case, is reserved.
fn reserved(key: &str) -> (yes: bool)
    ensures
        yes == is_reserved(key@),
{
    str_eq(key, "level-seed") || str_eq(key, "motd") || str_eq(key, "query.port") || str_eq(
        key,
        "server-port",
    ) || str_eq(key, "white-list") || str_eq(key, "level-name")
}

impl ServerProperty {
    /// The key of the property.
    pub closed spec fn key(&self) -> Seq<char> {
        self.0@
    }

    /// The value of the property.
    pub closed spec fn value(&self) -> Seq<char> {
        self.1@
    }

    /// The key and the value of the property.
    pub open spec fn pair(&self) -> (Seq<char>, Seq<char>) {
        (self.key(), self.value())
    }

    /// Reads a property from a line of the form `key=value`.
    pub fn from_str(s: &str) -> (parsed: Result<ServerProperty, ServerPropertyError>)
        ensures
            match parse_property(s@) {
                Ok(pair) => parsed is Ok && parsed->Ok_0.pair() == pair,
                Err(fault) => parsed is Err && parsed->Err_0@ == fault,
            },
    {
        let chars = chars_of(s);
        assert(chars@.take(chars.len() as int) =~= chars@);
        let at = match find_last(&chars, chars.len(), '=') {
            None => {
                return Err(ServerPropertyError::InvalidProperty);
            },
            Some(at) => at,
        };
        assert(chars@.take(at as int) =~= s@.take(at as int));
        if find_last(&chars, at, '=').is_some() {
            return Err(ServerPropertyError::InvalidProperty);
        }
        let mut first = String::new();
        push_chars(&mut first, &chars, 0, at);
        let mut second = String::new();
        push_chars(&mut second, &chars, at + 1, chars.len());
        assert(first@ =~= s@.take(at as int));
        assert(second@ =~= s@.skip(at + 1));
        let lower = to_lowercase(first.as_str());
        if reserved(lower.as_str()) {
            return Err(ServerPropertyError::DisallowedProperty(lower));
        }
        Ok(ServerProperty(first, second))
    }

    /// The key of the property.
    pub fn key_str(&self) -> (key: &String)
        ensures
            key@ == self.key(),
    {
        &self.0
    }

    /// The value of the property.
    pub fn value_str(&self) -> (value: &String)
        ensures
            value@ == self.value(),
    {
        &self.1
    }

    /// The line of the property: the key, `=`, and the value.
    pub fn to_string(&self) -> (line: String)
        ensures
            line@ == line_of(self.pair()),
    {
        let mut line = self.0.clone();
        proof {
            reveal_strlit("=");
        }
        line.append("=");
        line.append(self.1.as_str());
        assert(line@ =~= line_of(self.pair()));
        line
    }
}

/// The line of a key and a value: the key, `=`, and the value.
pub open spec fn line_of(pair: (Seq<char>, Seq<char>)) -> Seq<char> {
    pair.0 + seq!['='] + pair.1
}

/// The keys and values of `entries` as sequences of characters.
pub open spec fn pair_views(entries: Seq<(String, String)>) -> Seq<(Seq<char>, Seq<char>)> {
    entries.map_values(|entry: (String, String)| (entry.0@, entry.1@))
}

/// The keys and values of `properties`.
pub open spec fn property_pairs(properties: Seq<ServerProperty>) -> Seq<(Seq<char>, Seq<char>)> {
    properties.map_values(|property: ServerProperty| property.pair())
}

/// Whether the keys of `pairs` stand in the order of strings, each before
/// the next: then no key occurs twice.
pub open spec fn sorted(pairs: Seq<(Seq<char>, Seq<char>)>) -> bool {
    forall|i: int, j: int|
        0 <= i < j < pairs.len() ==> precedes(#[trigger] pairs[i].0, #[trigger] pairs[j].0)
}

/// The table that `pairs` make when each is entered in turn, so that for a
/// key that occurs twice the later value stands.
pub open spec fn table_of(pairs: Seq<(Seq<char>, Seq<char>)>) -> Map<Seq<char>, Seq<char>>
    decreases pairs.len(),
{
    if pairs.len() == 0 {
        Map::empty()
    } else {
        table_of(pairs.drop_last()).insert(pairs.last().0, pairs.last().1)
    }
}

/// The keys of a table are the keys of its pairs, and where no key occurs
/// twice each key has the value of its pair.
pub proof fn lemma_table_of(pairs: Seq<(Seq<char>, Seq<char>)>)
    ensures
        forall|key: Seq<char>| #[trigger]
            table_of(pairs).contains_key(key) <==> exists|i: int|
                0 <= i < pairs.len() && (#[trigger] pairs[i]).0 == key,
        sorted(pairs) ==> forall|i: int|
            0 <= i < pairs.len() ==> table_of(pairs)[(#[trigger] pairs[i]).0] == pairs[i].1,
    decreases pairs.len(),
{
    if pairs.len() > 0 {
        let rest = pairs.drop_last();
        lemma_table_of(rest);
        assert forall|key: Seq<char>| #[trigger]
            table_of(pairs).contains_key(key) <==> exists|i: int|
                0 <= i < pairs.len() && (#[trigger] pairs[i]).0 == key by {
            if table_of(pairs).contains_key(key) {
                if key == pairs.last().0 {
                    assert(pairs[pairs.len() - 1].0 == key);
                } else {
                    assert(table_of(rest).contains_key(key));
                    let i = choose|i: int| 0 <= i < rest.len() && (#[trigger] rest[i]).0 == key;
                    assert(pairs[i].0 == key);
                }
            }
            if exists|i: int| 0 <= i < pairs.len() && (#[trigger] pairs[i]).0 == key {
                let i = choose|i: int| 0 <= i < pairs.len() && (#[trigger] pairs[i]).0 == key;
                if i < rest.len() {
                    assert(rest[i].0 == key);
                    assert(table_of(rest).contains_key(key));
                }
            }
        }
        if sorted(pairs) {
            assert(sorted(rest)) by {
                assert forall|i: int, j: int| 0 <= i < j < rest.len() implies precedes(
                    #[trigger] rest[i].0,
                    #[trigger] rest[j].0,
                ) by {
                    assert(precedes(pairs[i].0, pairs[j].0));
                }
            }
            assert forall|i: int| 0 <= i < pairs.len() implies table_of(pairs)[(
            #[trigger] pairs[i]).0] == pairs[i].1 by {
                if i < rest.len() {
                    assert(rest[i] == pairs[i]);
                    assert(precedes(pairs[i].0, pairs[pairs.len() - 1].0));
                    lemma_precedes_asymmetric(pairs[i].0, pairs[i].0);
                }
            }
        }
    }
}

/// A table of properties by their keys. It holds each key once, and hands
/// its entries out in the order of the keys.
#[derive(Debug)]
pub struct PropertyMap {
    entries: Vec<(String, String)>,
}

impl View for PropertyMap {
    type V = Map<Seq<char>, Seq<char>>;

    closed spec fn view(&self) -> Map<Seq<char>, Seq<char>> {
        table_of(pair_views(self.entries@))
    }
}

impl PropertyMap {
    #[verifier::type_invariant]
    closed spec fn well_formed(&self) -> bool {
        sorted(pair_views(self.entries@))
    }

    /// The keys and values of the table, in the order of the keys.
    pub closed spec fn pairs(&self) -> Seq<(Seq<char>, Seq<char>)> {
        pair_views(self.entries@)
    }

    /// The empty table.
    pub fn new() -> (table: PropertyMap)
        ensures
            table@ == Map::<Seq<char>, Seq<char>>::empty(),
            table.pairs() == Seq::<(Seq<char>, Seq<char>)>::empty(),
    {
        let table = PropertyMap { entries: Vec::new() };
        assert(pair_views(table.entries@) =~= Seq::empty());
        table
    }

    /// The entries of the table, in the order of their keys.
    pub fn entries(&self) -> (entries: &Vec<(String, String)>)
        ensures
            pair_views(entries@) == self.pairs(),
            sorted(self.pairs()),
            self@ == table_of(self.pairs()),
    {
        proof {
            use_type_invariant(self);
        }
        &self.entries
    }

    /// The number of keys.
    pub fn len(&self) -> (len: usize)
        ensures
            len == self.pairs().len(),
    {
        self.entries.len()
    }

    /// Enters `value` under `key`, in place of what stood there.
    pub fn insert(&mut self, key: String, value: String)
        ensures
            final(self)@ == old(self)@.insert(key@, value@),
    {
        proof {
            use_type_invariant(&*self);
        }
        let ghost before = pair_views(self.entries@);
        let key_chars = chars_of(key.as_str());
        let mut at: usize = 0;
        let mut found = false;
        while at < self.entries.len()
            invariant_except_break
                !found,
            invariant
                at <= self.entries.len(),
                before == pair_views(self.entries@),
                key_chars@ == key@,
                forall|i: int| 0 <= i < at ==> precedes(#[trigger] before[i].0, key@),
            ensures
                found ==> at < self.entries.len() && before[at as int].0 == key@,
                !found && at < self.entries.len() ==> precedes(key@, before[at as int].0),
            decreases self.entries.len() - at,
        {
            let other = chars_of(self.entries[at].0.as_str());
            assert(before[at as int].0 == other@);
            match compare(&other, &key_chars) {
                Order::Before => {
                    at += 1;
                },
                Order::Same => {
                    found = true;
                    break ;
                },
                Order::After => {
                    break ;
                },
            }
        }
        let skip: usize = if found {
            at + 1
        } else {
            at
        };
        let mut entries: Vec<(String, String)> = Vec::new();
        copy_entries(&mut entries, &self.entries, 0, at);
        let ghost head = pair_views(entries@);
        entries.push((key, value));
        assert(pair_views(entries@) =~= head.push((key@, value@)));
        copy_entries(&mut entries, &self.entries, skip, self.entries.len());
        proof {
            assert(pair_views(Seq::<(String, String)>::empty()) =~= Seq::empty());
            assert(head =~= before.subrange(0, at as int));
            lemma_entered(before, pair_views(entries@), at as int, found, (key@, value@));
        }
        *self = PropertyMap { entries };
    }
}

/// Entering a pair at its place in a sorted sequence, in place of the pair
/// with the same key if there is one, keeps the sequence sorted and enters
/// the pair in its table.
proof fn lemma_entered(
    before: Seq<(Seq<char>, Seq<char>)>,
    after: Seq<(Seq<char>, Seq<char>)>,
    at: int,
    found: bool,
    pair: (Seq<char>, Seq<char>),
)
    requires
        sorted(before),
        0 <= at <= before.len(),
        forall|i: int| 0 <= i < at ==> precedes(#[trigger] before[i].0, pair.0),
        found ==> at < before.len() && before[at].0 == pair.0,
        !found && at < before.len() ==> precedes(pair.0, before[at].0),
        after == before.subrange(0, at).push(pair) + before.subrange(
            if found {
                at + 1
            } else {
                at
            },
            before.len() as int,
        ),
    ensures
        sorted(after),
        table_of(after) == table_of(before).insert(pair.0, pair.1),
{
    let stride: int = if found {
        1
    } else {
        0
    };
    assert(after.len() == before.len() + 1 - stride);
    assert(after[at] == pair);
    assert forall|i: int| 0 <= i < at implies #[trigger] after[i] == before[i] by {}
    assert forall|j: int| at < j < after.len() implies #[trigger] after[j] == before[j - 1
        + stride] by {}
    assert forall|j: int| at < j < after.len() implies precedes(
        pair.0,
        (#[trigger] after[j]).0,
    ) by {
        let k = j - 1 + stride;
        if found {
            assert(precedes(before[at].0, before[k].0));
        } else if k > at {
            assert(precedes(before[at].0, before[k].0));
            lemma_precedes_transitive(pair.0, before[at].0, before[k].0);
        }
    }
    assert forall|i: int, j: int| 0 <= i < j < after.len() implies precedes(
        #[trigger] after[i].0,
        #[trigger] after[j].0,
    ) by {
        if j < at {
            assert(precedes(before[i].0, before[j].0));
        } else if j == at {
        } else if i < at {
            assert(precedes(before[i].0, before[j - 1 + stride].0));
        } else if i == at {
        } else {
            assert(precedes(before[i - 1 + stride].0, before[j - 1 + stride].0));
        }
    }
    lemma_table_of(before);
    lemma_table_of(after);
    let target = table_of(before).insert(pair.0, pair.1);
    assert forall|k: Seq<char>| #[trigger]
        table_of(after).contains_key(k) <==> target.contains_key(k) by {
        if table_of(after).contains_key(k) {
            let i = choose|i: int| 0 <= i < after.len() && (#[trigger] after[i]).0 == k;
            if i < at {
                assert(before[i].0 == k);
                assert(table_of(before).contains_key(k));
            } else if i > at {
                assert(before[i - 1 + stride].0 == k);
                assert(table_of(before).contains_key(k));
            }
        }
        if target.contains_key(k) && k != pair.0 {
            assert(table_of(before).contains_key(k));
            let i = choose|i: int| 0 <= i < before.len() && (#[trigger] before[i]).0 == k;
            if i < at {
                assert(after[i].0 == k);
            } else {
                assert(after[i + 1 - stride].0 == k);
            }
        }
        if k == pair.0 {
            assert(after[at].0 == k);
        }
    }
    assert forall|k: Seq<char>| #[trigger] target.contains_key(k) implies table_of(after)[k]
        == target[k] by {
        assert(table_of(after).contains_key(k));
        let i = choose|i: int| 0 <= i < after.len() && (#[trigger] after[i]).0 == k;
        assert(table_of(after)[after[i].0] == after[i].1);
        if i < at {
            assert(before[i] == after[i]);
            assert(table_of(before)[before[i].0] == before[i].1);
            lemma_precedes_asymmetric(k, k);
        } else if i > at {
            assert(before[i - 1 + stride] == after[i]);
            assert(table_of(before)[before[i - 1 + stride].0] == before[i - 1 + stride].1);
            lemma_precedes_asymmetric(k, k);
        }
    }
    assert(table_of(after) =~= target);
}

/// Appends copies of `from[start..end]` to `out`.
fn copy_entries(
    out: &mut Vec<(String, String)>,
    from: &Vec<(String, String)>,
    start: usize,
    end: usize,
)
    requires
        start <= end <= from.len(),
    ensures
        pair_views(final(out)@) == pair_views(old(out)@) + pair_views(from@).subrange(
            start as int,
            end as int,
        ),
{
    let mut i: usize = start;
    while i < end
        invariant
            start <= i <= end <= from.len(),
            pair_views(out@) =~= pair_views(old(out)@) + pair_views(from@).subrange(
                start as int,
                i as int,
            ),
        decreases end - i,
    {
        let key = from[i].0.clone();
        let value = from[i].1.clone();
        let ghost so_far = pair_views(out@);
        out.push((key, value));
        assert(pair_views(out@) =~= so_far.push(pair_views(from@)[i as int]));
        i += 1;
    }
}

/// Makes a table of properties. Where two of them have the same key, the
/// later one stands.
pub fn properties_to_map(vec: Vec<ServerProperty>) -> (table: PropertyMap)
    ensures
        table@ == table_of(property_pairs(vec@)),
{
    let ghost pairs = property_pairs(vec@);
    let mut table = PropertyMap::new();
    let mut i: usize = 0;
    while i < vec.len()
        invariant
            i <= vec.len(),
            pairs == property_pairs(vec@),
            table@ == table_of(pairs.take(i as int)),
        decreases vec.len() - i,
    {
        proof {
            assert(pairs.take(i + 1).drop_last() =~= pairs.take(i as int));
            assert(pairs.take(i + 1).last() == vec@[i as int].pair());
        }
        table.insert(vec[i].0.clone(), vec[i].1.clone());
        i += 1;
    }
    assert(pairs.take(vec.len() as int) =~= pairs);
    table
}

/// Reads every entry of a table as the line `key=value`. The entries are
/// taken in the order of their keys, and the first line that is refused
/// ends the reading with its fault.
pub fn map_to_properties(map: &PropertyMap) -> (properties: Result<
    Vec<ServerProperty>,
    ServerPropertyError,
>)
    ensures
        match properties {
            Ok(read) => {
                &&& read.len() == map.pairs().len()
                &&& forall|i: int|
                    0 <= i < read.len() ==> parse_property(line_of(map.pairs()[i])) == Ok::<
                        (Seq<char>, Seq<char>),
                        PropertyFault,
                    >(#[trigger] read[i].pair())
            },
            Err(error) => exists|at: int|
                {
                    &&& 0 <= at < map.pairs().len()
                    &&& #[trigger] parse_property(line_of(map.pairs()[at])) == Err::<
                        (Seq<char>, Seq<char>),
                        PropertyFault,
                    >(error@)
                    &&& forall|i: int|
                        0 <= i < at ==> #[trigger] parse_property(line_of(map.pairs()[i])) is Ok
                },
        },
{
    let entries = map.entries();
    let ghost pairs = map.pairs();
    let mut read: Vec<ServerProperty> = Vec::new();
    let mut i: usize = 0;
    while i < entries.len()
        invariant
            i <= entries.len(),
            pairs == pair_views(entries@),
            pairs == map.pairs(),
            read.len() == i,
            forall|j: int|
                0 <= j < i ==> #[trigger] parse_property(line_of(pairs[j])) == Ok::<
                    (Seq<char>, Seq<char>),
                    PropertyFault,
                >(read[j].pair()),
        decreases entries.len() - i,
    {
        let mut line = entries[i].0.clone();
        proof {
            reveal_strlit("=");
        }
        line.append("=");
        line.append(entries[i].1.as_str());
        assert(line@ =~= line_of(pairs[i as int]));
        match ServerProperty::from_str(line.as_str()) {
            Err(error) => {
                assert(parse_property(line_of(pairs[i as int])) == Err::<
                    (Seq<char>, Seq<char>),
                    PropertyFault,
                >(error@));
                return Err(error);
            },
            Ok(property) => {
                read.push(property);
            },
        }
        i += 1;
    }
    Ok(read)
}

} // verus!
