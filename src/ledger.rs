use vstd::prelude::*;

use crate::error::CmhError;
use crate::text::push_char;
use crate::time_utils::{format_time, parsed_as, time_ok, time_value, Time};

verus! {

/// The position of the last non-empty line, or -1 where every line is empty.
pub open spec fn last_nonempty_index(lines: Seq<Seq<char>>) -> int
    decreases lines.len(),
{
    if lines.len() == 0 {
        -1
    } else if lines.last().len() > 0 {
        lines.len() - 1
    } else {
        last_nonempty_index(lines.drop_last())
    }
}

/// `r` is what reading the balance of a ledger with these lines gives: the time on its last
/// non-empty line, or why there is none.
pub open spec fn balance_read_as(lines: Seq<Seq<char>>, r: Result<Time, CmhError>) -> bool {
    let i = last_nonempty_index(lines);
    if i < 0 {
        r matches Err(CmhError::EmptyLedger)
    } else {
        parsed_as(lines[i], r)
    }
}

/// A ledger whose balance can be read.
pub open spec fn balance_ok(lines: Seq<Seq<char>>) -> bool {
    let i = last_nonempty_index(lines);
    i >= 0 && time_ok(lines[i])
}

/// The balance of a ledger for which `balance_ok` holds, in minutes.
pub open spec fn balance_value(lines: Seq<Seq<char>>) -> int {
    time_value(lines[last_nonempty_index(lines)])
}

/// The record of one entry: its date stamp, a tab, and the time as it was entered.
pub open spec fn entry_line(date_stamp: Seq<char>, time_str: Seq<char>) -> Seq<char> {
    date_stamp + seq!['\t'] + time_str
}

/// The text of a ledger: each line followed by a newline.
pub open spec fn ledger_text(lines: Seq<Seq<char>>) -> Seq<char>
    decreases lines.len(),
{
    if lines.len() == 0 {
        Seq::<char>::empty()
    } else {
        ledger_text(lines.drop_last()) + lines.last() + seq!['\n']
    }
}

/// The last non-empty line is at `k` where line `k` is non-empty and every later one empty.
pub proof fn lemma_last_nonempty_at(lines: Seq<Seq<char>>, k: int)
    requires
        0 <= k < lines.len(),
        lines[k].len() > 0,
        forall|j: int| k < j < lines.len() ==> #[trigger] lines[j].len() == 0,
    ensures
        last_nonempty_index(lines) == k,
    decreases lines.len(),
{
    if k < lines.len() - 1 {
        assert(lines.last().len() == 0);
        assert forall|j: int| k < j < lines.drop_last().len() implies #[trigger] lines.drop_last()[j].len() == 0 by {
            assert(lines.drop_last()[j] == lines[j]);
        }
        lemma_last_nonempty_at(lines.drop_last(), k);
    }
}

pub proof fn lemma_last_nonempty_index(lines: Seq<Seq<char>>)
    ensures
        -1 <= last_nonempty_index(lines) < lines.len(),
        last_nonempty_index(lines) >= 0 ==> lines[last_nonempty_index(lines)].len() > 0,
        forall|j: int|
            last_nonempty_index(lines) < j < lines.len() ==> #[trigger] lines[j].len() == 0,
    decreases lines.len(),
{
    if lines.len() > 0 && lines.last().len() == 0 {
        lemma_last_nonempty_index(lines.drop_last());
        assert forall|j: int|
            last_nonempty_index(lines) < j < lines.len() implies #[trigger] lines[j].len() == 0 by {
            if j < lines.len() - 1 {
                assert(lines[j] == lines.drop_last()[j]);
            }
        }
    }
}

/// The append-only record of entries and balances, one line each; its last non-empty line
/// holds the current balance.
pub struct Ledger {
    lines: Vec<String>,
}

impl View for Ledger {
    type V = Seq<Seq<char>>;

    closed spec fn view(&self) -> Seq<Seq<char>> {
        Seq::new(self.lines@.len(), |i: int| self.lines@[i]@)
    }
}

impl Ledger {
    /// The ledger of a user who has recorded nothing yet: a zero balance.
    pub fn initial() -> (r: Ledger)
        ensures
            r@ == seq![format_time(0)],
    {
        let mut lines: Vec<String> = Vec::new();
        lines.push(Time { minutes: 0 }.to_string());
        let r = Ledger { lines };
        assert(r@ =~= seq![format_time(0)]);
        r
    }

    /// A ledger with the given lines, in order.
    pub fn from_lines(lines: Vec<String>) -> (r: Ledger)
        ensures
            r@ == Seq::new(lines@.len(), |i: int| lines@[i]@),
    {
        Ledger { lines }
    }

    /// The lines of the ledger, in order.
    pub fn lines(&self) -> (r: &Vec<String>)
        ensures
            r@.len() == self@.len(),
            forall|i: int| 0 <= i < r@.len() ==> #[trigger] r@[i]@ == self@[i],
    {
        &self.lines
    }

    pub fn len(&self) -> (r: usize)
        ensures
            r == self@.len(),
    {
        self.lines.len()
    }

    /// The current balance: the time on the last non-empty line.
    pub fn read_last_balance(&self) -> (r: Result<Time, CmhError>)
        ensures
            balance_read_as(self@, r),
    {
        proof {
            lemma_last_nonempty_index(self@);
        }
        let mut i: usize = self.lines.len();
        while i > 0
            invariant
                i <= self.lines.len(),
                forall|j: int| i <= j < self@.len() ==> #[trigger] self@[j].len() == 0,
                last_nonempty_index(self@) < i,
                -1 <= last_nonempty_index(self@) < self@.len(),
                last_nonempty_index(self@) >= 0 ==> self@[last_nonempty_index(self@)].len() > 0,
            decreases i,
        {
            if !self.lines[i - 1].as_str().is_empty() {
                assert(self@[i - 1] == self.lines@[i - 1]@);
                proof {
                    lemma_last_nonempty_at(self@, i - 1);
                }
                return Time::from_str(self.lines[i - 1].as_str());
            }
            assert(self@[i - 1] == self.lines@[i - 1]@);
            i = i - 1;
        }
        Err(CmhError::EmptyLedger)
    }

    /// Records an entry: the date stamp and the time as it was entered, on one line.
    pub fn append_entry(&mut self, date_stamp: &str, time_str: &str)
        ensures
            final(self)@ == old(self)@.push(entry_line(date_stamp@, time_str@)),
    {
        let mut line = date_stamp.to_string();
        push_char(&mut line, '\t');
        line.append(time_str);
        assert(line@ =~= entry_line(date_stamp@, time_str@));
        self.lines.push(line);
        assert(final(self)@ =~= old(self)@.push(entry_line(date_stamp@, time_str@)));
    }

    /// Records a new balance on a line of its own.
    pub fn append_balance(&mut self, balance: Time)
        ensures
            final(self)@ == old(self)@.push(format_time(balance.minutes as int)),
    {
        self.lines.push(balance.to_string());
        assert(final(self)@ =~= old(self)@.push(format_time(balance.minutes as int)));
    }

    /// Removes the last entry and its balance, the last two lines; with fewer than two
    /// lines nothing changes and the result is `false`.
    pub fn undo_last_entry(&mut self) -> (r: bool)
        ensures
            r == (old(self)@.len() >= 2),
            r ==> final(self)@ == old(self)@.take(old(self)@.len() - 2),
            !r ==> final(self)@ == old(self)@,
    {
        let n = self.lines.len();
        if n < 2 {
            return false;
        }
        self.lines.truncate(n - 2);
        assert(final(self)@ =~= old(self)@.take(old(self)@.len() - 2));
        true
    }

    /// The ledger as text: each line followed by a newline.
    pub fn to_text(&self) -> (r: String)
        ensures
            r@ == ledger_text(self@),
    {
        let mut s = String::new();
        for i in 0..self.lines.len()
            invariant
                s@ == ledger_text(self@.take(i as int)),
        {
            s.append(self.lines[i].as_str());
            push_char(&mut s, '\n');
            assert(self@.take(i + 1).drop_last() =~= self@.take(i as int));
            assert(self@[i as int] == self.lines@[i as int]@);
        }
        assert(self@.take(self@.len() as int) =~= self@);
        s
    }
}

} // verus!
