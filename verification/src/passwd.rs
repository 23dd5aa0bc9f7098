//! The account database: one record on each line, seven fields with `:`
//! between them.

use vstd::prelude::*;

use crate::number::{parse_u32, parse_unsigned};
use crate::text::{chars_of, find, lines, position, split_lines, string_from, views};

verus! {

/// The fields of a text, cut at `sep`, but never more than `limit` of them:
/// the last field takes all that is left, separators included.
pub open spec fn fields(s: Seq<char>, sep: char, limit: nat) -> Seq<Seq<char>>
    decreases limit,
{
    if limit == 0 {
        Seq::empty()
    } else {
        let k = position(s, sep) as int;
        if limit == 1 || k >= s.len() {
            seq![s]
        } else {
            seq![s.take(k)] + fields(s.skip(k + 1), sep, (limit - 1) as nat)
        }
    }
}

/// An account as the contracts speak of it.
pub struct Account {
    pub name: Seq<char>,
    pub passwd: Seq<char>,
    pub uid: u32,
    pub gid: u32,
    pub gecos: Seq<char>,
    pub dir: Seq<char>,
    pub shell: Seq<char>,
}

/// Why a line is no record.
#[derive(Clone, Copy, Debug, PartialEq, Eq, Structural)]
pub enum PasswdError {
    /// The line has fewer than seven fields.
    MissingField,
    /// The third field is no number that fits in 32 bits.
    InvalidUid,
    /// The fourth field is no number that fits in 32 bits.
    InvalidGid,
}

/// The record that a line holds: name, password, user id, group id,
/// comment, home directory and shell, in this order. The shell is all that
/// follows the sixth `:`.
pub open spec fn record_of(line: Seq<char>) -> Result<Account, PasswdError> {
    let f = fields(line, ':', 7);
    if f.len() < 7 {
        Err(PasswdError::MissingField)
    } else {
        match parse_unsigned(f[2], u32::MAX as nat) {
            None => Err(PasswdError::InvalidUid),
            Some(uid) => match parse_unsigned(f[3], u32::MAX as nat) {
                None => Err(PasswdError::InvalidGid),
                Some(gid) => Ok(
                    Account {
                        name: f[0],
                        passwd: f[1],
                        uid: uid as u32,
                        gid: gid as u32,
                        gecos: f[4],
                        dir: f[5],
                        shell: f[6],
                    },
                ),
            },
        }
    }
}

/// The first account with the user id `uid` among the lines; lines that
/// are no record are passed over.
pub open spec fn first_account(lines: Seq<Seq<char>>, uid: u32) -> Option<Account>
    decreases lines.len(),
{
    if lines.len() == 0 {
        None
    } else {
        match record_of(lines[0]) {
            Ok(account) => if account.uid == uid {
                Some(account)
            } else {
                first_account(lines.skip(1), uid)
            },
            Err(_) => first_account(lines.skip(1), uid),
        }
    }
}

/// A line holds a record of the user `uid`.
pub open spec fn is_account_of(line: Seq<char>, uid: u32) -> bool {
    record_of(line) matches Ok(account) && account.uid == uid
}

/// The first line that holds a record of the user is the one that the
/// lookup finds, whatever stands on the lines after it.
pub proof fn lemma_first_account_found(lines: Seq<Seq<char>>, uid: u32, i: int)
    requires
        0 <= i < lines.len(),
        is_account_of(lines[i], uid),
        forall|j: int| 0 <= j < i ==> !is_account_of(#[trigger] lines[j], uid),
    ensures
        first_account(lines, uid) == Some(record_of(lines[i])->Ok_0),
    decreases lines.len(),
{
    if i > 0 {
        lemma_first_account_found(lines.skip(1), uid, i - 1);
    }
}

/// Where no line holds a record of the user, the lookup finds nothing.
pub proof fn lemma_first_account_absent(lines: Seq<Seq<char>>, uid: u32)
    requires
        forall|j: int| 0 <= j < lines.len() ==> !is_account_of(#[trigger] lines[j], uid),
    ensures
        first_account(lines, uid) is None,
    decreases lines.len(),
{
    if lines.len() > 0 {
        lemma_first_account_absent(lines.skip(1), uid);
    }
}

/// One account of the database.
#[derive(Debug)]
pub struct Passwd {
    pub name: String,
    pub passwd: String,
    pub uid: u32,
    pub gid: u32,
    pub gecos: String,
    pub dir: String,
    pub shell: String,
}

impl View for Passwd {
    type V = Account;

    open spec fn view(&self) -> Account {
        Account {
            name: self.name@,
            passwd: self.passwd@,
            uid: self.uid,
            gid: self.gid,
            gecos: self.gecos@,
            dir: self.dir@,
            shell: self.shell@,
        }
    }
}

/// A range of indices that lies within a text of `n` characters.
pub open spec fn within(range: (usize, usize), n: nat) -> bool {
    range.0 <= range.1 <= n
}

/// The pieces of a text that a list of ranges picks out.
pub open spec fn pieces(s: Seq<char>, ranges: Seq<(usize, usize)>) -> Seq<Seq<char>> {
    ranges.map_values(|r: (usize, usize)| s.subrange(r.0 as int, r.1 as int))
}

/// Where the fields of a text begin and end, for at most `limit` fields.
pub fn split_fields(chars: &Vec<char>, sep: char, limit: usize) -> (out: Vec<(usize, usize)>)
    ensures
        forall|i: int| 0 <= i < out@.len() ==> within(#[trigger] out@[i], chars@.len()),
        pieces(chars@, out@) == fields(chars@, sep, limit as nat),
{
    let n = chars.len();
    let mut out: Vec<(usize, usize)> = Vec::new();
    let mut start: usize = 0;
    let mut left: usize = limit;
    let mut done = limit == 0;
    assert(chars@.skip(0) == chars@);
    while !done
        invariant
            start <= n == chars.len(),
            forall|i: int| 0 <= i < out@.len() ==> within(#[trigger] out@[i], chars@.len()),
            !done ==> left > 0 && pieces(chars@, out@) + fields(
                chars@.skip(start as int),
                sep,
                left as nat,
            ) == fields(chars@, sep, limit as nat),
            done ==> pieces(chars@, out@) == fields(chars@, sep, limit as nat),
        decreases left + (if done { 0int } else { 1int }),
    {
        let ghost rest = chars@.skip(start as int);
        let k = find(chars, start, n, sep);
        if left == 1 || k == n {
            // The last field takes all that is left.
            out.push((start, n));
            done = true;
        } else {
            out.push((start, k));
            proof {
                assert(rest.take(k - start) == chars@.subrange(start as int, k as int));
                assert(rest.skip(k - start + 1) == chars@.skip(k + 1));
            }
            start = k + 1;
            left = left - 1;
        }
    }
    out
}

impl Passwd {
    /// Reads the record that a line holds, or says why the line is none.
    pub fn parse(line: &Vec<char>) -> (r: Result<Passwd, PasswdError>)
        ensures
            r is Ok <==> record_of(line@) is Ok,
            r matches Ok(p) ==> record_of(line@) == Ok::<Account, PasswdError>(p@),
            r matches Err(e) ==> record_of(line@) == Err::<Account, PasswdError>(e),
    {
        let f = split_fields(line, ':', 7);
        if f.len() < 7 {
            return Err(PasswdError::MissingField);
        }
        let uid = match parse_u32(line, f[2].0, f[2].1) {
            Some(uid) => uid,
            None => {
                return Err(PasswdError::InvalidUid);
            },
        };
        let gid = match parse_u32(line, f[3].0, f[3].1) {
            Some(gid) => gid,
            None => {
                return Err(PasswdError::InvalidGid);
            },
        };
        Ok(
            Passwd {
                name: string_from(line, f[0].0, f[0].1),
                passwd: string_from(line, f[1].0, f[1].1),
                uid,
                gid,
                gecos: string_from(line, f[4].0, f[4].1),
                dir: string_from(line, f[5].0, f[5].1),
                shell: string_from(line, f[6].0, f[6].1),
            },
        )
    }

    /// Reads the record that a buffer holds, if it holds one. The buffer is
    /// taken as it is: a line terminator at its end becomes part of the
    /// shell.
    pub fn from_buf(buf: &str) -> (r: Option<Passwd>)
        ensures
            r is Some <==> record_of(buf@) is Ok,
            r matches Some(p) ==> record_of(buf@) == Ok::<Account, PasswdError>(p@),
    {
        let chars = chars_of(buf);
        match Passwd::parse(&chars) {
            Ok(p) => Some(p),
            Err(_) => None,
        }
    }
}

/// Walks through the lines of an account database.
pub struct Parser {
    lines: Vec<Vec<char>>,
    next: usize,
}

impl View for Parser {
    type V = Seq<Seq<char>>;

    /// The lines that have not been read yet.
    closed spec fn view(&self) -> Seq<Seq<char>> {
        if self.next <= self.lines.len() {
            views(self.lines@).skip(self.next as int)
        } else {
            Seq::empty()
        }
    }
}

impl Parser {
    /// A parser at the first line of `content`.
    pub fn new(content: &str) -> (r: Self)
        ensures
            r@ == lines(content@),
    {
        let chars = chars_of(content);
        let lines = split_lines(&chars);
        Parser { lines, next: 0 }
    }

    /// Reads the next line. At the end of the database the result is
    /// `Ok(None)` and nothing changes. Otherwise the parser moves on by one
    /// line and hands out the record of the line it left, or the reason why
    /// that line is none.
    pub fn next_entry(&mut self) -> (r: Result<Option<Passwd>, PasswdError>)
        ensures
            old(self)@.len() == 0 ==> r == Ok::<Option<Passwd>, PasswdError>(None) && final(self)@
                == old(self)@,
            old(self)@.len() > 0 ==> final(self)@ == old(self)@.skip(1) && match record_of(
                old(self)@[0],
            ) {
                Ok(account) => r matches Ok(Some(p)) && p@ == account,
                Err(e) => r == Err::<Option<Passwd>, PasswdError>(e),
            },
    {
        if self.next >= self.lines.len() {
            return Ok(None);
        }
        let parsed = Passwd::parse(&self.lines[self.next]);
        self.next = self.next + 1;
        match parsed {
            Ok(p) => Ok(Some(p)),
            Err(e) => Err(e),
        }
    }
}

/// Looks up the account with the user id `uid` in the content of an account
/// database. The first record with that id is the answer; lines that are no
/// record are passed over.
pub fn getpwuid(content: &str, uid: u32) -> (r: Option<Passwd>)
    ensures
        r is Some <==> first_account(lines(content@), uid) is Some,
        r matches Some(p) ==> first_account(lines(content@), uid) == Some(p@),
{
    let mut parser = Parser::new(content);
    loop
        invariant
            first_account(parser@, uid) == first_account(lines(content@), uid),
        decreases parser@.len(),
    {
        match parser.next_entry() {
            Ok(Some(entry)) => {
                if entry.uid == uid {
                    return Some(entry);
                }
            },
            Ok(None) => {
                return None;
            },
            Err(_) => {},
        }
    }
}

} // verus!
