//! The operating system's description of itself: a file of `KEY=VALUE`
//! lines, where a value may stand in double quotes.

use vstd::prelude::*;

use crate::table::{lemma_table_last, table, Fields};
use crate::text::{
    chars_of, find, gather, is_line, is_space, lemma_lines_of_unlines, lemma_position_is, lines,
    position, split_lines, string_from, trim, trim_bounds, unlines, views,
};

verus! {

/// A value without the pair of double quotes around it, if it has one.
pub open spec fn unquoted(value: Seq<char>) -> Seq<char> {
    if value.len() >= 2 && value[0] == '"' && value.last() == '"' {
        value.subrange(1, value.len() - 1)
    } else {
        value
    }
}

/// What one line defines. Empty lines, lines that start with `#` and lines
/// without `=` define nothing. Otherwise the key is what stands before the
/// first `=`, without the white space around it, and the value is all that
/// follows, unquoted.
pub open spec fn os_release_entry(line: Seq<char>) -> Option<(Seq<char>, Seq<char>)> {
    if line.len() == 0 || line[0] == '#' {
        None
    } else {
        let k = position(line, '=') as int;
        if k >= line.len() {
            None
        } else {
            Some((trim(line.take(k)), unquoted(line.skip(k + 1))))
        }
    }
}

/// The mapping that a file's content defines; where a key is defined twice,
/// the later line wins.
pub open spec fn os_release_map(content: Seq<char>) -> Map<Seq<char>, Seq<char>> {
    table(gather(lines(content), |line: Seq<char>| os_release_entry(line)))
}

/// A key as a well-formed file writes it: without `=` and line feed, without
/// white space at its ends, and not starting with `#`.
pub open spec fn plain_key(key: Seq<char>) -> bool {
    &&& forall|i: int| 0 <= i < key.len() ==> key[i] != '=' && key[i] != '\n'
    &&& key.len() > 0 ==> key[0] != '#' && !is_space(key[0]) && !is_space(key.last())
}

/// A value that can stand on one line.
pub open spec fn plain_value(value: Seq<char>) -> bool {
    forall|i: int| 0 <= i < value.len() ==> value[i] != '\n'
}

/// The line that defines `key` as `value`, with the value in quotes.
pub open spec fn quoted_line(key: Seq<char>, value: Seq<char>) -> Seq<char> {
    key + seq!['=', '"'] + value + seq!['"']
}

/// The line that defines `key` as `value`, without quotes.
pub open spec fn bare_line(key: Seq<char>, value: Seq<char>) -> Seq<char> {
    key + seq!['='] + value
}

/// The file that defines the given keys, one on each line, every value in
/// quotes.
pub open spec fn written(entries: Seq<(Seq<char>, Seq<char>)>) -> Seq<char> {
    unlines(entries.map_values(|e: (Seq<char>, Seq<char>)| quoted_line(e.0, e.1)))
}

/// A line `KEY="VALUE"` defines the key as the value without its quotes,
/// whatever the value holds.
pub proof fn lemma_quoted_line(key: Seq<char>, value: Seq<char>)
    requires
        plain_key(key),
    ensures
        os_release_entry(quoted_line(key, value)) == Some((key, value)),
{
    // The first `=` of the line is the one behind the key.
    lemma_position_is(quoted_line(key, value), '=', key.len() as int);
}

/// A line `KEY=VALUE` defines the key as the value, unless the value looks
/// quoted.
pub proof fn lemma_bare_line(key: Seq<char>, value: Seq<char>)
    requires
        plain_key(key),
        !(value.len() >= 2 && value[0] == '"' && value.last() == '"'),
    ensures
        os_release_entry(bare_line(key, value)) == Some((key, value)),
{
    // The first `=` of the line is the one behind the key.
    lemma_position_is(bare_line(key, value), '=', key.len() as int);
}

/// Reading a well-formed file gives back what was written: the mapping
/// that the written entries stand for.
pub proof fn lemma_round_trip(entries: Seq<(Seq<char>, Seq<char>)>)
    requires
        forall|i: int|
            0 <= i < entries.len() ==> plain_key((#[trigger] entries[i]).0) && plain_value(
                entries[i].1,
            ),
    ensures
        os_release_map(written(entries)) == table(entries),
{
    // Each written line stands on a line of its own, so the file is read
    // back line by line; and each line defines what it was written for.
    let all = entries.map_values(|e: (Seq<char>, Seq<char>)| quoted_line(e.0, e.1));
    assert forall|i: int| 0 <= i < all.len() implies is_line(#[trigger] all[i]) by {
        let line = quoted_line(entries[i].0, entries[i].1);
        assert forall|j: int| 0 <= j < line.len() implies line[j] != '\n' by {}
    }
    lemma_lines_of_unlines(all);
    lemma_gather_written(entries);
}

/// The lines of a written file define exactly the entries that were
/// written, in their order.
pub proof fn lemma_gather_written(entries: Seq<(Seq<char>, Seq<char>)>)
    requires
        forall|i: int| 0 <= i < entries.len() ==> plain_key((#[trigger] entries[i]).0),
    ensures
        gather(
            entries.map_values(|e: (Seq<char>, Seq<char>)| quoted_line(e.0, e.1)),
            |line: Seq<char>| os_release_entry(line),
        ) == entries,
    decreases entries.len(),
{
    if entries.len() > 0 {
        let all = entries.map_values(|e: (Seq<char>, Seq<char>)| quoted_line(e.0, e.1));
        let before = entries.drop_last();
        lemma_gather_written(before);
        assert(all.drop_last() == before.map_values(
            |e: (Seq<char>, Seq<char>)| quoted_line(e.0, e.1),
        ));
        lemma_quoted_line(entries.last().0, entries.last().1);
    }
}

/// Looking up a key of a written file gives the value of the last entry
/// that was written for it.
pub proof fn lemma_lookup_written(entries: Seq<(Seq<char>, Seq<char>)>, i: int)
    requires
        forall|j: int|
            0 <= j < entries.len() ==> plain_key((#[trigger] entries[j]).0) && plain_value(
                entries[j].1,
            ),
        0 <= i < entries.len(),
        forall|j: int| i < j < entries.len() ==> entries[j].0 != entries[i].0,
    ensures
        os_release_map(written(entries)).contains_key(entries[i].0),
        os_release_map(written(entries))[entries[i].0] == entries[i].1,
{
    lemma_round_trip(entries);
    lemma_table_last(entries, entries[i].0, i);
}

/// The keys and values of an os-release file.
pub struct OsRelease {
    fields: Fields,
}

impl View for OsRelease {
    type V = Map<Seq<char>, Seq<char>>;

    closed spec fn view(&self) -> Map<Seq<char>, Seq<char>> {
        self.fields@
    }
}

/// Reads one line of an os-release file.
pub fn parse_os_release_line(line: &Vec<char>) -> (r: Option<(String, String)>)
    ensures
        r is Some <==> os_release_entry(line@) is Some,
        r matches Some(e) ==> os_release_entry(line@) == Some((e.0@, e.1@)),
{
    let n = line.len();
    if n == 0 || line[0] == '#' {
        return None;
    }
    let k = find(line, 0, n, '=');
    assert(line@.subrange(0, n as int) == line@);
    if k == n {
        return None;
    }
    let (a, b) = trim_bounds(line, 0, k);
    let key = string_from(line, a, b);
    let mut from = k + 1;
    let mut to = n;
    if to - from >= 2 && line[from] == '"' && line[to - 1] == '"' {
        from = from + 1;
        to = to - 1;
    }
    let value = string_from(line, from, to);
    Some((key, value))
}

impl OsRelease {
    /// The description that has no keys at all: what is left when the file
    /// cannot be read.
    pub fn empty() -> (r: Self)
        ensures
            r@ == Map::<Seq<char>, Seq<char>>::empty(),
    {
        OsRelease { fields: Fields::new() }
    }

    /// Reads the content of an os-release file.
    pub fn parse(content: &str) -> (r: Self)
        ensures
            r@ == os_release_map(content@),
    {
        let chars = chars_of(content);
        let all = split_lines(&chars);
        let ghost entry = |line: Seq<char>| os_release_entry(line);
        let mut fields = Fields::new();
        let mut i: usize = 0;
        while i < all.len()
            invariant
                i <= all.len(),
                entry == |line: Seq<char>| os_release_entry(line),
                fields@ == table(gather(views(all@).take(i as int), entry)),
            decreases all.len() - i,
        {
            let ghost seen = views(all@).take(i as int);
            assert(views(all@).take(i + 1).drop_last() == seen);
            match parse_os_release_line(&all[i]) {
                Some((key, value)) => {
                    assert(gather(views(all@).take(i + 1), entry).drop_last() == gather(seen, entry));
                    fields.insert(key, value);
                },
                None => {},
            }
            i += 1;
        }
        assert(views(all@).take(all.len() as int) == views(all@));
        OsRelease { fields }
    }

    /// The value of `key`, if the file defines it.
    pub fn get(&self, key: &str) -> (r: Option<&str>)
        ensures
            r is Some <==> self@.contains_key(key@),
            r matches Some(v) ==> v@ == self@[key@],
    {
        self.fields.get(key)
    }

    /// The value of `NAME`.
    pub fn name(&self) -> (r: Option<&str>)
        ensures
            r is Some <==> self@.contains_key("NAME"@),
            r matches Some(v) ==> v@ == self@["NAME"@],
    {
        self.get("NAME")
    }

    /// The value of `ID`.
    pub fn id(&self) -> (r: Option<&str>)
        ensures
            r is Some <==> self@.contains_key("ID"@),
            r matches Some(v) ==> v@ == self@["ID"@],
    {
        self.get("ID")
    }

    /// The value of `PRETTY_NAME`.
    pub fn pretty_name(&self) -> (r: Option<&str>)
        ensures
            r is Some <==> self@.contains_key("PRETTY_NAME"@),
            r matches Some(v) ==> v@ == self@["PRETTY_NAME"@],
    {
        self.get("PRETTY_NAME")
    }
}

} // verus!
