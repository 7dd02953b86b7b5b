//! What the watcher reports each second: a distraction when a running program's
//! name holds a blacklisted word, a focus pulse when keys are down, and a tick.
use vstd::prelude::*;
use crate::models::strings_view;
use crate::text::to_chars;

verus! {

/// What the watcher tells the game.
#[derive(Clone, Copy, Debug, PartialEq, Eq, Structural)]
pub enum Event {
    Tick,
    DistractionDetected,
    FocusPulse,
}

/// What `str::to_lowercase` returns for `s`: its Unicode lowercase mapping.
pub uninterp spec fn lowercase(s: Seq<char>) -> Seq<char>;

/// `str::to_lowercase`; the result is named `lowercase` of the input, since
/// Unicode's mapping takes tables to state and depends on the text alone.
#[verifier::external_body]
fn to_lowercase(s: &str) -> (r: String)
    ensures
        r@ == lowercase(s@),
{
    s.to_lowercase()
}

/// `needle` occurs in `hay` (the empty string occurs everywhere).
pub open spec fn contains_seq(hay: Seq<char>, needle: Seq<char>) -> bool {
    exists|i: int|
        0 <= i && i + needle.len() <= hay.len() && #[trigger] hay.subrange(i, i + needle.len())
            == needle
}

/// A program named `lower_name` (already lowercase) is one of the traps.
pub open spec fn blacklisted(lower_name: Seq<char>, blacklist: Seq<Seq<char>>) -> bool {
    exists|j: int| 0 <= j < blacklist.len() && contains_seq(lower_name, #[trigger] blacklist[j])
}

/// Some running program is a trap.
pub open spec fn distracted(names: Seq<Seq<char>>, blacklist: Seq<Seq<char>>) -> bool {
    exists|i: int| 0 <= i < names.len() && blacklisted(lowercase(#[trigger] names[i]), blacklist)
}

/// The events of one second of watching.
pub open spec fn scan_events(
    names: Seq<Seq<char>>,
    keys_down: bool,
    blacklist: Seq<Seq<char>>,
) -> Seq<Event> {
    (if distracted(names, blacklist) {
        seq![Event::DistractionDetected]
    } else {
        Seq::empty()
    }) + (if keys_down {
        seq![Event::FocusPulse]
    } else {
        Seq::empty()
    }) + seq![Event::Tick]
}

fn occurs_at(hay: &Vec<char>, needle: &Vec<char>, i: usize) -> (r: bool)
    requires
        i + needle.len() <= hay.len(),
    ensures
        r == (hay@.subrange(i as int, i + needle.len()) == needle@),
{
    let mut k: usize = 0;
    while k < needle.len()
        invariant
            k <= needle.len(),
            i + needle.len() <= hay.len(),
            forall|m: int| 0 <= m < k ==> hay@[i + m] == needle@[m],
        decreases needle.len() - k,
    {
        if hay[i + k] != needle[k] {
            assert(hay@.subrange(i as int, i + needle.len())[k as int] != needle@[k as int]);
            return false;
        }
        k = k + 1;
    }
    assert(hay@.subrange(i as int, i + needle.len()) =~= needle@);
    true
}

/// Whether `needle` occurs in `hay`.
pub fn contains(hay: &str, needle: &str) -> (r: bool)
    ensures
        r == contains_seq(hay@, needle@),
{
    let h = to_chars(hay);
    let n = to_chars(needle);
    if n.len() == 0 {
        assert(hay@.subrange(0int, 0int + needle@.len()) =~= needle@);
        return true;
    }
    if n.len() > h.len() {
        return false;
    }
    let last: usize = h.len() - n.len();
    let mut i: usize = 0;
    while i <= last
        invariant
            h@ == hay@,
            n@ == needle@,
            1 <= n.len() <= h.len(),
            last == h.len() - n.len(),
            i <= last + 1,
            forall|j: int|
                0 <= j < i ==> #[trigger] hay@.subrange(j, j + needle@.len()) != needle@,
        decreases last + 1 - i,
    {
        if occurs_at(&h, &n, i) {
            return true;
        }
        i = i + 1;
    }
    false
}

/// Whether the program named `lower_name` (already lowercase) is a trap.
pub fn is_blacklisted(lower_name: &str, blacklist: &Vec<String>) -> (r: bool)
    ensures
        r == blacklisted(lower_name@, strings_view(blacklist@)),
{
    let ghost bl = strings_view(blacklist@);
    let mut j: usize = 0;
    while j < blacklist.len()
        invariant
            j <= blacklist.len(),
            bl == strings_view(blacklist@),
            forall|k: int| 0 <= k < j ==> !contains_seq(lower_name@, #[trigger] bl[k]),
        decreases blacklist.len() - j,
    {
        if contains(lower_name, blacklist[j].as_str()) {
            assert(contains_seq(lower_name@, bl[j as int]));
            return true;
        }
        j = j + 1;
    }
    false
}

/// Whether any of the running programs is a trap; names are compared in lowercase.
pub fn is_distracting(process_names: &Vec<String>, blacklist: &Vec<String>) -> (r: bool)
    ensures
        r == distracted(strings_view(process_names@), strings_view(blacklist@)),
{
    let ghost names = strings_view(process_names@);
    let mut i: usize = 0;
    while i < process_names.len()
        invariant
            i <= process_names.len(),
            names == strings_view(process_names@),
            forall|k: int|
                0 <= k < i ==> !blacklisted(
                    lowercase(#[trigger] names[k]),
                    strings_view(blacklist@),
                ),
        decreases process_names.len() - i,
    {
        let lower = to_lowercase(process_names[i].as_str());
        if is_blacklisted(lower.as_str(), blacklist) {
            assert(blacklisted(lowercase(names[i as int]), strings_view(blacklist@)));
            return true;
        }
        i = i + 1;
    }
    false
}

/// The events of one second: a distraction if a trap is running, a focus
/// pulse if keys are down, and always a tick.
pub fn scan(process_names: &Vec<String>, keys_down: bool, blacklist: &Vec<String>) -> (events:
    Vec<Event>)
    ensures
        events@ == scan_events(strings_view(process_names@), keys_down, strings_view(blacklist@)),
{
    let mut events: Vec<Event> = Vec::new();
    if is_distracting(process_names, blacklist) {
        events.push(Event::DistractionDetected);
    }
    if keys_down {
        events.push(Event::FocusPulse);
    }
    events.push(Event::Tick);
    assert(events@ =~= scan_events(
        strings_view(process_names@),
        keys_down,
        strings_view(blacklist@),
    ));
    events
}

} // verus!
