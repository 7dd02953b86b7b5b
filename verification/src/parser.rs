//! The quest board: the open tasks of a Markdown checklist become bosses.
//!
//! Every line that, trimmed, starts with `- [ ]` or `* [ ]` is a task. Its
//! text is the boss's name; a task that ends in `(<N>m)` lasts N minutes and
//! takes that suffix off its name, any other lasts 20 minutes.
use vstd::prelude::*;
use crate::models::{boss_for, Boss, BossView};
use crate::text::to_chars;

verus! {

/// The characters with the Unicode `White_Space` property, which trimming removes.
pub open spec fn is_whitespace(c: char) -> bool {
    let u: u32 = c as u32;
    ||| 0x9 <= u <= 0xd
    ||| u == 0x20
    ||| u == 0x85
    ||| u == 0xa0
    ||| u == 0x1680
    ||| 0x2000 <= u <= 0x200a
    ||| u == 0x2028
    ||| u == 0x2029
    ||| u == 0x202f
    ||| u == 0x205f
    ||| u == 0x3000
}

/// `s` without its leading whitespace.
pub open spec fn trim_start(s: Seq<char>) -> Seq<char>
    decreases s.len(),
{
    if s.len() > 0 && is_whitespace(s[0]) {
        trim_start(s.drop_first())
    } else {
        s
    }
}

/// `s` without its trailing whitespace.
pub open spec fn trim_end(s: Seq<char>) -> Seq<char>
    decreases s.len(),
{
    if s.len() > 0 && is_whitespace(s.last()) {
        trim_end(s.drop_last())
    } else {
        s
    }
}

/// `s` without whitespace at either end.
pub open spec fn trim(s: Seq<char>) -> Seq<char> {
    trim_end(trim_start(s))
}

/// The lines of `s`: the pieces between its newlines, in order. (A line that
/// ends in a carriage return keeps it; trimming takes it off.)
pub open spec fn split_lines(s: Seq<char>) -> Seq<Seq<char>>
    decreases s.len(),
{
    if s.len() == 0 {
        seq![Seq::empty()]
    } else {
        let prev = split_lines(s.drop_last());
        if s.last() == '\n' {
            prev.push(Seq::empty())
        } else {
            prev.update(prev.len() - 1, prev.last().push(s.last()))
        }
    }
}

pub open spec fn is_digit(c: char) -> bool {
    48 <= c as u32 <= 57
}

/// The number that a string of decimal digits writes.
pub open spec fn digits_value(ds: Seq<char>) -> nat
    decreases ds.len(),
{
    if ds.len() == 0 {
        0
    } else {
        digits_value(ds.drop_last()) * 10 + (ds.last() as u32 - 48) as nat
    }
}

/// The digits of a number that may start with a plus sign.
pub open spec fn unsigned_digits(s: Seq<char>) -> Seq<char> {
    if s.len() > 0 && s[0] == '+' {
        s.skip(1)
    } else {
        s
    }
}

/// The `u32` that `s` writes, as Rust reads one: an optional `+`, then one or
/// more ASCII digits, and a value that fits.
pub open spec fn parse_u32(s: Seq<char>) -> Option<u32> {
    let ds = unsigned_digits(s);
    if ds.len() > 0 && (forall|i: int| 0 <= i < ds.len() ==> is_digit(#[trigger] ds[i]))
        && digits_value(ds) <= u32::MAX {
        Some(digits_value(ds) as u32)
    } else {
        None
    }
}

/// The position of the last `c` in `s`, or -1.
pub open spec fn last_index_of(s: Seq<char>, c: char) -> int
    decreases s.len(),
{
    if s.len() == 0 {
        -1
    } else if s.last() == c {
        s.len() - 1
    } else {
        last_index_of(s.drop_last(), c)
    }
}

proof fn lemma_last_index_of(s: Seq<char>, c: char)
    ensures
        -1 <= last_index_of(s, c) < s.len(),
        last_index_of(s, c) >= 0 ==> s[last_index_of(s, c)] == c,
        forall|k: int| last_index_of(s, c) < k < s.len() ==> s[k] != c,
    decreases s.len(),
{
    if s.len() > 0 && s.last() != c {
        lemma_last_index_of(s.drop_last(), c);
        assert forall|k: int| last_index_of(s, c) < k < s.len() implies s[k] != c by {
            if k < s.len() - 1 {
                assert(s.drop_last()[k] == s[k]);
            }
        }
    }
}

/// A trimmed line starts with an open checkbox, `- [ ]` or `* [ ]`.
pub open spec fn is_open_task(t: Seq<char>) -> bool {
    &&& t.len() >= 5
    &&& t[0] == '-' || t[0] == '*'
    &&& t[1] == ' '
    &&& t[2] == '['
    &&& t[3] == ' '
    &&& t[4] == ']'
}

/// The text of a task ends in `m)`.
pub open spec fn ends_in_minutes(task: Seq<char>) -> bool {
    task.len() >= 2 && task[task.len() - 2] == 'm' && task[task.len() - 1] == ')'
}

/// The boss of a task's text: `name (Nm)` is `name` for N minutes; any other
/// text, or a suffix whose N is no `u32`, is the whole text for 20 minutes.
pub open spec fn task_boss(task: Seq<char>) -> BossView {
    let start: int = last_index_of(task, '(');
    if ends_in_minutes(task) && start >= 0 {
        match parse_u32(task.subrange(start + 1, task.len() - 2)) {
            Some(m) => boss_for(trim(task.take(start)), m),
            None => boss_for(task, 20),
        }
    } else {
        boss_for(task, 20)
    }
}

/// The boss of one line of the checklist, if the line is an open task.
pub open spec fn parse_line(line: Seq<char>) -> Option<BossView> {
    let t = trim(line);
    if is_open_task(t) {
        Some(task_boss(trim(t.skip(5))))
    } else {
        None
    }
}

/// The bosses of these lines, in order.
pub open spec fn quests(lines: Seq<Seq<char>>) -> Seq<BossView>
    decreases lines.len(),
{
    if lines.len() == 0 {
        Seq::empty()
    } else {
        let q = quests(lines.drop_last());
        match parse_line(lines.last()) {
            Some(b) => q.push(b),
            None => q,
        }
    }
}

/// The quest board of a checklist.
pub open spec fn quest_board(content: Seq<char>) -> Seq<BossView> {
    quests(split_lines(content))
}

pub open spec fn bosses_view(v: Seq<Boss>) -> Seq<BossView> {
    v.map_values(|b: Boss| b@)
}

fn is_whitespace_char(c: char) -> (r: bool)
    ensures
        r == is_whitespace(c),
{
    let u: u32 = c as u32;
    (0x9 <= u && u <= 0xd) || u == 0x20 || u == 0x85 || u == 0xa0 || u == 0x1680 || (0x2000 <= u
        && u <= 0x200a) || u == 0x2028 || u == 0x2029 || u == 0x202f || u == 0x205f || u
        == 0x3000
}

/// The bounds of `chars[lo..hi]` trimmed.
fn trim_range(chars: &Vec<char>, lo: usize, hi: usize) -> (r: (usize, usize))
    requires
        lo <= hi <= chars.len(),
    ensures
        lo <= r.0 <= r.1 <= hi,
        chars@.subrange(r.0 as int, r.1 as int) == trim(chars@.subrange(lo as int, hi as int)),
{
    let mut a: usize = lo;
    while a < hi && is_whitespace_char(chars[a])
        invariant
            lo <= a <= hi <= chars.len(),
            trim_start(chars@.subrange(lo as int, hi as int)) == trim_start(
                chars@.subrange(a as int, hi as int),
            ),
        decreases hi - a,
    {
        assert(chars@.subrange(a as int, hi as int).drop_first() =~= chars@.subrange(
            a + 1,
            hi as int,
        ));
        a = a + 1;
    }
    assert(trim_start(chars@.subrange(a as int, hi as int)) == chars@.subrange(a as int, hi as int));
    let mut b: usize = hi;
    while b > a && is_whitespace_char(chars[b - 1])
        invariant
            lo <= a <= b <= hi <= chars.len(),
            trim_end(chars@.subrange(a as int, hi as int)) == trim_end(
                chars@.subrange(a as int, b as int),
            ),
        decreases b - a,
    {
        assert(chars@.subrange(a as int, b as int).drop_last() =~= chars@.subrange(
            a as int,
            b - 1,
        ));
        b = b - 1;
    }
    (a, b)
}

/// The `u32` that `chars[lo..hi]` writes, if any.
fn parse_u32_range(chars: &Vec<char>, lo: usize, hi: usize) -> (r: Option<u32>)
    requires
        lo <= hi <= chars.len(),
    ensures
        r == parse_u32(chars@.subrange(lo as int, hi as int)),
{
    let ghost s = chars@.subrange(lo as int, hi as int);
    let mut start: usize = lo;
    if lo < hi && chars[lo] == '+' {
        start = lo + 1;
    }
    let ghost ds = chars@.subrange(start as int, hi as int);
    assert(ds =~= unsigned_digits(s));
    if start == hi {
        return None;
    }
    let cap: u64 = 0x1_0000_0000;
    let mut acc: u64 = 0;
    let mut i: usize = start;
    while i < hi
        invariant
            lo <= start <= i <= hi <= chars.len(),
            cap == 0x1_0000_0000u64,
            ds == chars@.subrange(start as int, hi as int),
            s == chars@.subrange(lo as int, hi as int),
            ds == unsigned_digits(s),
            forall|k: int| 0 <= k < i - start ==> is_digit(#[trigger] ds[k]),
            acc == if digits_value(ds.take(i - start)) < cap {
                digits_value(ds.take(i - start)) as int
            } else {
                cap as int
            },
        decreases hi - i,
    {
        let c = chars[i];
        let u: u32 = c as u32;
        if !(48 <= u && u <= 57) {
            assert(unsigned_digits(s)[i - start] == c);
            assert(!is_digit(unsigned_digits(s)[i - start]));
            return None;
        }
        let d: u64 = (u - 48) as u64;
        assert(d == (c as u32 - 48) as nat);
        assert(ds.take(i + 1 - start).drop_last() =~= ds.take(i - start));
        assert(ds.take(i + 1 - start).last() == c);
        if acc >= cap {
            acc = cap;
        } else {
            let next: u64 = acc * 10 + d;
            acc = if next < cap {
                next
            } else {
                cap
            };
        }
        i = i + 1;
    }
    assert(ds.take(hi - start) =~= ds);
    if acc < cap {
        Some(acc as u32)
    } else {
        None
    }
}

/// The position of the last `c` in `chars[lo..hi]`, if any.
fn last_index_in(chars: &Vec<char>, lo: usize, hi: usize, c: char) -> (r: Option<usize>)
    requires
        lo <= hi <= chars.len(),
    ensures
        match r {
            Some(p) => lo <= p < hi && p - lo == last_index_of(
                chars@.subrange(lo as int, hi as int),
                c,
            ),
            None => last_index_of(chars@.subrange(lo as int, hi as int), c) == -1,
        },
{
    let mut j: usize = hi;
    while j > lo
        invariant
            lo <= j <= hi <= chars.len(),
            last_index_of(chars@.subrange(lo as int, hi as int), c) == last_index_of(
                chars@.subrange(lo as int, j as int),
                c,
            ),
        decreases j - lo,
    {
        assert(chars@.subrange(lo as int, j as int).drop_last() =~= chars@.subrange(
            lo as int,
            j - 1,
        ));
        if chars[j - 1] == c {
            return Some(j - 1);
        }
        j = j - 1;
    }
    None
}

/// The string of `chars[lo..hi]`.
fn string_of(chars: &Vec<char>, lo: usize, hi: usize) -> (s: String)
    requires
        lo <= hi <= chars.len(),
    ensures
        s@ == chars@.subrange(lo as int, hi as int),
{
    let mut s = String::new();
    let mut i: usize = lo;
    while i < hi
        invariant
            lo <= i <= hi <= chars.len(),
            s@ == chars@.subrange(lo as int, i as int),
        decreases hi - i,
    {
        s.push(chars[i]);
        assert(s@ =~= chars@.subrange(lo as int, i + 1));
        i = i + 1;
    }
    s
}

/// The boss of the task text `chars[lo..hi]`.
fn task_boss_of(chars: &Vec<char>, lo: usize, hi: usize) -> (b: Boss)
    requires
        lo <= hi <= chars.len(),
    ensures
        b@ == task_boss(chars@.subrange(lo as int, hi as int)),
{
    let ghost task = chars@.subrange(lo as int, hi as int);
    if hi - lo >= 2 && chars[hi - 2] == 'm' && chars[hi - 1] == ')' {
        match last_index_in(chars, lo, hi, '(') {
            Some(p) => {
                proof {
                    lemma_last_index_of(task, '(');
                }
                assert(p < hi - 2) by {
                    if p >= hi - 2 {
                        assert(task[p - lo] == '(');
                    }
                }
                assert(task.subrange(p - lo + 1, task.len() - 2) =~= chars@.subrange(
                    p + 1,
                    hi - 2,
                ));
                match parse_u32_range(chars, p + 1, hi - 2) {
                    Some(m) => {
                        let (a, z) = trim_range(chars, lo, p);
                        assert(task.take(p - lo) =~= chars@.subrange(lo as int, p as int));
                        return Boss::new(string_of(chars, a, z), m);
                    },
                    None => {},
                }
            },
            None => {},
        }
    }
    Boss::new(string_of(chars, lo, hi), 20)
}

/// The boss of the line `chars[lo..hi]`, if it is an open task.
fn parse_line_range(chars: &Vec<char>, lo: usize, hi: usize) -> (r: Option<Boss>)
    requires
        lo <= hi <= chars.len(),
    ensures
        match r {
            Some(b) => parse_line(chars@.subrange(lo as int, hi as int)) == Some(b@),
            None => parse_line(chars@.subrange(lo as int, hi as int)) is None,
        },
{
    let (a, z) = trim_range(chars, lo, hi);
    if z - a >= 5 && (chars[a] == '-' || chars[a] == '*') && chars[a + 1] == ' ' && chars[a + 2]
        == '[' && chars[a + 3] == ' ' && chars[a + 4] == ']' {
        assert(chars@.subrange(a as int, z as int).skip(5) =~= chars@.subrange(a + 5, z as int));
        let (c, d) = trim_range(chars, a + 5, z);
        Some(task_boss_of(chars, c, d))
    } else {
        None
    }
}

/// The quest board of a Markdown checklist, and how many quests it holds.
pub fn parse_tasks(content: &str) -> (r: (Vec<Boss>, usize))
    ensures
        bosses_view(r.0@) == quest_board(content@),
        r.1 == r.0.len(),
{
    let chars = to_chars(content);
    let ghost all = chars@;
    let mut board: Vec<Boss> = Vec::new();
    let mut line_start: usize = 0;
    let mut i: usize = 0;
    while i < chars.len()
        invariant
            line_start <= i <= chars.len(),
            all == chars@,
            split_lines(all.take(i as int)).len() >= 1,
            quests(split_lines(all.take(i as int)).drop_last()) == bosses_view(board@),
            split_lines(all.take(i as int)).last() == all.subrange(line_start as int, i as int),
        decreases chars.len() - i,
    {
        let ghost prev = split_lines(all.take(i as int));
        assert(all.take(i + 1).drop_last() =~= all.take(i as int));
        assert(all.take(i + 1).last() == all[i as int]);
        if chars[i] == '\n' {
            assert(split_lines(all.take(i + 1)) == prev.push(Seq::<char>::empty()));
            assert(split_lines(all.take(i + 1)).drop_last() =~= prev);
            match parse_line_range(&chars, line_start, i) {
                Some(b) => {
                    let ghost before = board@;
                    board.push(b);
                    assert(bosses_view(board@) =~= bosses_view(before).push(b@));
                },
                None => {},
            }
            line_start = i + 1;
        } else {
            assert(split_lines(all.take(i + 1)).drop_last() =~= prev.drop_last());
            assert(all.subrange(line_start as int, i + 1) =~= all.subrange(
                line_start as int,
                i as int,
            ).push(all[i as int]));
        }
        i = i + 1;
    }
    assert(all.take(i as int) =~= all);
    match parse_line_range(&chars, line_start, i) {
        Some(b) => {
            let ghost before = board@;
            board.push(b);
            assert(bosses_view(board@) =~= bosses_view(before).push(b@));
        },
        None => {},
    }
    let count: usize = board.len();
    (board, count)
}

} // verus!
