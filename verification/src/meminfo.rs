//! The kernel's memory counters: lines of `Name:   value kB`.

use vstd::prelude::*;

use crate::number::{parse_u64, parse_unsigned};
use crate::table::{lemma_table_absent, lemma_table_last, table};
use crate::text::{
    chars_of, find, gather, lines, position, split_lines, string_from, trim, trim_bounds, views,
};

verus! {

/// A value without the unit `kB` at its end, however often it is repeated.
pub open spec fn without_unit(s: Seq<char>) -> Seq<char>
    decreases s.len(),
{
    if s.len() >= 2 && s[s.len() - 2] == 'k' && s[s.len() - 1] == 'B' {
        without_unit(s.take(s.len() - 2))
    } else {
        s
    }
}

/// What one line defines. The name stands before the first `:`; what follows
/// is a number, with white space around it and the unit after it. Lines
/// without `:` or without a number that fits in 64 bits define nothing.
pub open spec fn meminfo_entry(line: Seq<char>) -> Option<(Seq<char>, u64)> {
    let k = position(line, ':') as int;
    if k >= line.len() {
        None
    } else {
        match parse_unsigned(trim(without_unit(line.skip(k + 1))), u64::MAX as nat) {
            Some(v) => Some((trim(line.take(k)), v as u64)),
            None => None,
        }
    }
}

/// The counters that a file's content defines.
pub open spec fn meminfo_map(content: Seq<char>) -> Map<Seq<char>, u64> {
    table(gather(lines(content), |line: Seq<char>| meminfo_entry(line)))
}

/// The entries of a counter table by their character sequences.
pub open spec fn counters(entries: Seq<(String, u64)>) -> Seq<(Seq<char>, u64)> {
    entries.map_values(|e: (String, u64)| (e.0@, e.1))
}

/// The memory counters of a machine, all in the unit the kernel reports.
pub struct Meminfo {
    entries: Vec<(String, u64)>,
}

impl View for Meminfo {
    type V = Map<Seq<char>, u64>;

    closed spec fn view(&self) -> Map<Seq<char>, u64> {
        table(counters(self.entries@))
    }
}

/// Reads one line of the counters.
pub fn parse_meminfo_line(line: &Vec<char>) -> (r: Option<(String, u64)>)
    ensures
        r is Some <==> meminfo_entry(line@) is Some,
        r matches Some(e) ==> meminfo_entry(line@) == Some((e.0@, e.1)),
{
    let n = line.len();
    let k = find(line, 0, n, ':');
    assert(line@.subrange(0, n as int) == line@);
    if k == n {
        return None;
    }
    let from = k + 1;
    let mut to = n;
    while to - from >= 2 && line[to - 2] == 'k' && line[to - 1] == 'B'
        invariant
            from <= to <= n == line.len(),
            without_unit(line@.subrange(from as int, n as int)) == without_unit(
                line@.subrange(from as int, to as int),
            ),
        decreases to - from,
    {
        assert(line@.subrange(from as int, to as int).take(to - from - 2) == line@.subrange(
            from as int,
            to - 2,
        ));
        to = to - 2;
    }
    let (a, b) = trim_bounds(line, from, to);
    match parse_u64(line, a, b) {
        Some(value) => {
            let (c, d) = trim_bounds(line, 0, k);
            let name = string_from(line, c, d);
            Some((name, value))
        },
        None => None,
    }
}

impl Meminfo {
    /// No counters at all: what is left when the file cannot be read.
    pub fn empty() -> (r: Self)
        ensures
            r@ == Map::<Seq<char>, u64>::empty(),
    {
        Meminfo { entries: Vec::new() }
    }

    /// Reads the content of the counter file.
    pub fn parse(content: &str) -> (r: Self)
        ensures
            r@ == meminfo_map(content@),
    {
        let chars = chars_of(content);
        let all = split_lines(&chars);
        let ghost entry = |line: Seq<char>| meminfo_entry(line);
        let mut entries: Vec<(String, u64)> = Vec::new();
        let mut i: usize = 0;
        while i < all.len()
            invariant
                i <= all.len(),
                entry == |line: Seq<char>| meminfo_entry(line),
                counters(entries@) == gather(views(all@).take(i as int), entry),
            decreases all.len() - i,
        {
            assert(views(all@).take(i + 1).drop_last() == views(all@).take(i as int));
            match parse_meminfo_line(&all[i]) {
                Some(e) => {
                    entries.push(e);
                },
                None => {},
            }
            i += 1;
        }
        assert(views(all@).take(all.len() as int) == views(all@));
        Meminfo { entries }
    }

    /// The counter called `key`, if there is one.
    pub fn get(&self, key: &str) -> (r: Option<u64>)
        ensures
            r is Some <==> self@.contains_key(key@),
            r matches Some(v) ==> v == self@[key@],
    {
        let mut i: usize = self.entries.len();
        while i > 0
            invariant
                i <= self.entries.len(),
                forall|j: int| i <= j < self.entries.len() ==> counters(self.entries@)[j].0 != key@,
            decreases i,
        {
            i -= 1;
            if self.entries[i].0.as_str().eq(key) {
                proof {
                    lemma_table_last(counters(self.entries@), key@, i as int);
                }
                return Some(self.entries[i].1);
            }
        }
        proof {
            lemma_table_absent(counters(self.entries@), key@);
        }
        None
    }

    /// The counter `MemTotal`: all the memory there is.
    pub fn mem_total(&self) -> (r: Option<u64>)
        ensures
            r is Some <==> self@.contains_key("MemTotal"@),
            r matches Some(v) ==> v == self@["MemTotal"@],
    {
        self.get("MemTotal")
    }

    /// The counter `MemFree`: the memory nobody uses.
    pub fn mem_free(&self) -> (r: Option<u64>)
        ensures
            r is Some <==> self@.contains_key("MemFree"@),
            r matches Some(v) ==> v == self@["MemFree"@],
    {
        self.get("MemFree")
    }
}

} // verus!
