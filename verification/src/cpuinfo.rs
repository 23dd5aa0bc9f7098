//! The kernel's list of processors: blocks of `name : value` lines, one
//! block for each processor, with an empty line between two blocks.

use vstd::prelude::*;

use crate::table::{table, Fields};
use crate::text::{
    chars_of, find, gather, lines, position, slice, split_lines, string_from, trim, trim_bounds,
    views,
};

verus! {

/// Index of the first place where two line feeds follow each other, or
/// `s.len()` when there is none.
pub open spec fn gap(s: Seq<char>) -> nat
    decreases s.len(),
{
    if s.len() < 2 {
        s.len()
    } else if s[0] == '\n' && s[1] == '\n' {
        0
    } else {
        1 + gap(s.skip(1))
    }
}

/// The pieces of a text between its gaps. Gaps are looked for from the
/// left, and the search goes on behind each one. A gap takes two
/// characters, so a text without room for one is a single piece.
pub open spec fn blocks(s: Seq<char>) -> Seq<Seq<char>>
    decreases s.len(),
{
    let k = gap(s) as int;
    if k + 2 > s.len() {
        seq![s]
    } else {
        seq![s.take(k)] + blocks(s.skip(k + 2))
    }
}

/// What one line says of a processor: a name before the first `:` and a
/// value after it, both without the white space around them.
pub open spec fn cpu_entry(line: Seq<char>) -> Option<(Seq<char>, Seq<char>)> {
    let k = position(line, ':') as int;
    if k >= line.len() {
        None
    } else {
        Some((trim(line.take(k)), trim(line.skip(k + 1))))
    }
}

/// What a block says of its processor.
pub open spec fn cpu_fields(block: Seq<char>) -> Map<Seq<char>, Seq<char>> {
    table(gather(lines(block), |line: Seq<char>| cpu_entry(line)))
}

/// The processor that a block describes; an empty block describes none.
pub open spec fn cpu_record(block: Seq<char>) -> Option<Map<Seq<char>, Seq<char>>> {
    if block.len() == 0 {
        None
    } else {
        Some(cpu_fields(block))
    }
}

/// The processors that a file's content describes, in the file's order.
pub open spec fn cpu_records(content: Seq<char>) -> Seq<Map<Seq<char>, Seq<char>>> {
    gather(blocks(content), |block: Seq<char>| cpu_record(block))
}

/// Two line feeds follow each other at index `i`.
pub open spec fn gap_at(s: Seq<char>, i: int) -> bool {
    0 <= i && i + 1 < s.len() && s[i] == '\n' && s[i + 1] == '\n'
}

/// An index at which a gap starts, and before which none does, is the
/// `gap`; so is the length, when there is no gap at all.
pub proof fn lemma_gap_is(s: Seq<char>, k: int)
    requires
        0 <= k <= s.len(),
        forall|i: int| 0 <= i < k ==> !#[trigger] gap_at(s, i),
        k < s.len() ==> gap_at(s, k),
    ensures
        gap(s) == k,
    decreases s.len(),
{
    if s.len() >= 2 {
        if s[0] == '\n' && s[1] == '\n' {
            assert(gap_at(s, 0));
        } else {
            let rest = s.skip(1);
            assert forall|i: int| 0 <= i < k - 1 implies !#[trigger] gap_at(rest, i) by {
                assert(!gap_at(s, i + 1));
            }
            lemma_gap_is(rest, k - 1);
        }
    }
}

/// What the kernel says of one processor.
pub struct Cpu {
    fields: Fields,
}

impl View for Cpu {
    type V = Map<Seq<char>, Seq<char>>;

    closed spec fn view(&self) -> Map<Seq<char>, Seq<char>> {
        self.fields@
    }
}

/// The processors of a machine.
pub struct Cpuinfo {
    cpus: Vec<Cpu>,
}

impl View for Cpuinfo {
    type V = Seq<Map<Seq<char>, Seq<char>>>;

    closed spec fn view(&self) -> Seq<Map<Seq<char>, Seq<char>>> {
        self.cpus@.map_values(|c: Cpu| c@)
    }
}

/// First index in `from..to` where a gap starts, or `to` when there is
/// none.
pub fn find_gap(chars: &Vec<char>, from: usize, to: usize) -> (k: usize)
    requires
        from <= to <= chars.len(),
    ensures
        from <= k <= to,
        k < to ==> k + 2 <= to,
        k - from == gap(chars@.subrange(from as int, to as int)),
{
    let mut k: usize = from;
    while k < to && !(to - k >= 2 && chars[k] == '\n' && chars[k + 1] == '\n')
        invariant
            from <= k <= to <= chars.len(),
            forall|i: int| from <= i < k ==> !#[trigger] gap_at(chars@.take(to as int), i),
        decreases to - k,
    {
        k += 1;
    }
    proof {
        let s = chars@.subrange(from as int, to as int);
        assert forall|i: int| 0 <= i < k - from implies !#[trigger] gap_at(s, i) by {
            assert(!gap_at(chars@.take(to as int), from + i));
        }
        lemma_gap_is(s, k - from);
    }
    k
}

/// Reads one line of a processor's block.
pub fn parse_cpu_line(line: &Vec<char>) -> (r: Option<(String, String)>)
    ensures
        r is Some <==> cpu_entry(line@) is Some,
        r matches Some(e) ==> cpu_entry(line@) == Some((e.0@, e.1@)),
{
    let n = line.len();
    let k = find(line, 0, n, ':');
    assert(line@.subrange(0, n as int) == line@);
    if k == n {
        return None;
    }
    let (a, b) = trim_bounds(line, 0, k);
    let name = string_from(line, a, b);
    let (c, d) = trim_bounds(line, k + 1, n);
    let value = string_from(line, c, d);
    Some((name, value))
}

impl Cpu {
    /// Reads one processor's block.
    pub fn parse(block: &Vec<char>) -> (r: Self)
        ensures
            r@ == cpu_fields(block@),
    {
        let all = split_lines(block);
        let ghost entry = |line: Seq<char>| cpu_entry(line);
        let mut fields = Fields::new();
        let mut i: usize = 0;
        while i < all.len()
            invariant
                i <= all.len(),
                entry == |line: Seq<char>| cpu_entry(line),
                fields@ == table(gather(views(all@).take(i as int), entry)),
            decreases all.len() - i,
        {
            let ghost seen = views(all@).take(i as int);
            assert(views(all@).take(i + 1).drop_last() == seen);
            match parse_cpu_line(&all[i]) {
                Some((name, value)) => {
                    assert(gather(views(all@).take(i + 1), entry).drop_last() == gather(seen, entry));
                    fields.insert(name, value);
                },
                None => {},
            }
            i += 1;
        }
        assert(views(all@).take(all.len() as int) == views(all@));
        Cpu { fields }
    }

    /// The value called `key`, if the block has one.
    pub fn get(&self, key: &str) -> (r: Option<&str>)
        ensures
            r is Some <==> self@.contains_key(key@),
            r matches Some(v) ==> v@ == self@[key@],
    {
        self.fields.get(key)
    }

    /// The value called `model name`.
    pub fn model_name(&self) -> (r: Option<&str>)
        ensures
            r is Some <==> self@.contains_key("model name"@),
            r matches Some(v) ==> v@ == self@["model name"@],
    {
        self.get("model name")
    }
}

impl Cpuinfo {
    /// No processors at all: what is left when the file cannot be read.
    pub fn empty() -> (r: Self)
        ensures
            r@ == Seq::<Map<Seq<char>, Seq<char>>>::empty(),
    {
        Cpuinfo { cpus: Vec::new() }
    }

    /// Reads the content of the processor file.
    pub fn parse(content: &str) -> (r: Self)
        ensures
            r@ == cpu_records(content@),
    {
        let chars = chars_of(content);
        let n = chars.len();
        let ghost record = |block: Seq<char>| cpu_record(block);
        let mut cpus: Vec<Cpu> = Vec::new();
        let mut start: usize = 0;
        let mut done = false;
        let ghost mut seen: Seq<Seq<char>> = Seq::empty();
        assert(chars@.skip(0) == chars@);
        while !done
            invariant
                start <= n == chars.len(),
                record == |block: Seq<char>| cpu_record(block),
                cpus@.map_values(|c: Cpu| c@) == gather(seen, record),
                !done ==> seen + blocks(chars@.skip(start as int)) == blocks(chars@),
                done ==> seen == blocks(chars@),
            decreases n - start + (if done { 0int } else { 1int }),
        {
            // The next block ends at the next gap, or at the end of the
            // text where no gap is left.
            let ghost rest = chars@.skip(start as int);
            let k = find_gap(&chars, start, n);
            let ghost block = chars@.subrange(start as int, k as int);
            proof {
                assert(rest.take(k - start) == block);
                assert(seen.push(block).drop_last() == seen);
                if k < n {
                    assert(rest.skip(k - start + 2) == chars@.skip(k + 2));
                }
                seen = seen.push(block);
            }
            if k > start {
                let text = slice(&chars, start, k);
                cpus.push(Cpu::parse(&text));
            }
            if k == n {
                done = true;
            } else {
                start = k + 2;
            }
        }
        Cpuinfo { cpus }
    }

    /// The processors, in the file's order.
    pub fn cpus(&self) -> (r: &Vec<Cpu>)
        ensures
            r@.map_values(|c: Cpu| c@) == self@,
    {
        &self.cpus
    }

    /// The model name of the first processor, if the file lists a processor
    /// and says what model it is.
    pub fn first_model_name(&self) -> (r: Option<&str>)
        ensures
            r is Some <==> self@.len() > 0 && self@[0].contains_key("model name"@),
            r matches Some(v) ==> v@ == self@[0]["model name"@],
    {
        if self.cpus.len() == 0 {
            None
        } else {
            self.cpus[0].model_name()
        }
    }
}

} // verus!
