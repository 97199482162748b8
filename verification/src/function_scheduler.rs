//! Deterministic queue used by `/schedule function`.
//!
//! Events are ordered by trigger time and then by an insertion sequence.  An
//! event is replaced only when the same `(id, tag, trigger_time)` already
//! exists, and `/schedule clear` removes every trigger carrying an id.
use vstd::prelude::*;

use std::cmp::Ordering;

use crate::sorted::{sorted_insert, strictly_sorted, strings_from_chars, sview};
use crate::text::{concat_chars, str_chars, vview};

verus! {

/// One scheduled callback: a function (or, with `tag`, a function tag) that
/// runs once the game time reaches `trigger_time`.
#[derive(Clone, Debug, PartialEq, Eq)]
pub struct ScheduledFunction {
    pub trigger_time: i64,
    pub id: String,
    pub tag: bool,
    sequence: u64,
}

/// The persisted form of a scheduled callback.
#[derive(Clone, Debug, PartialEq, Eq)]
pub struct ScheduledFunctionData {
    pub trigger_time: i64,
    pub id: String,
    pub tag: bool,
}

impl ScheduledFunction {
    /// The insertion sequence number that breaks ties between equal times.
    pub closed spec fn sequence_number(&self) -> u64 {
        self.sequence
    }

    /// The trigger time.
    pub closed spec fn time(&self) -> i64 {
        self.trigger_time
    }

    /// The characters of the callback id.
    pub closed spec fn id_chars(&self) -> Seq<char> {
        self.id@
    }

    /// Whether the callback is a function tag.
    pub closed spec fn is_tag(&self) -> bool {
        self.tag
    }
}

/// The pending callbacks of a world.
#[derive(Clone, Debug)]
pub struct FunctionScheduler {
    events: Vec<ScheduledFunction>,
    next_sequence: u64,
}

/// `a` runs no later than `b`: earlier trigger time, or the same time and an
/// earlier insertion.
pub open spec fn runs_no_later(a: ScheduledFunction, b: ScheduledFunction) -> bool {
    ||| a.time() < b.time()
    ||| (a.time() == b.time() && a.sequence_number() <= b.sequence_number())
}

/// Inserts `e` after every element of `sorted` that runs no later than it.
pub open spec fn insert_in_order(sorted: Seq<ScheduledFunction>, e: ScheduledFunction) -> Seq<
    ScheduledFunction,
>
    decreases sorted.len(),
{
    if sorted.len() == 0 {
        seq![e]
    } else if runs_no_later(sorted.last(), e) {
        sorted.push(e)
    } else {
        insert_in_order(sorted.drop_last(), e).push(sorted.last())
    }
}

/// The stable sort of `s` by trigger time and sequence.
pub open spec fn in_run_order(s: Seq<ScheduledFunction>) -> Seq<ScheduledFunction>
    decreases s.len(),
{
    if s.len() == 0 {
        s
    } else {
        insert_in_order(in_run_order(s.drop_last()), s.last())
    }
}

/// Events in order of running, each no later than the next.
pub open spec fn ordered_for_running(s: Seq<ScheduledFunction>) -> bool {
    forall|i: int| 0 <= i < s.len() - 1 ==> runs_no_later(#[trigger] s[i], s[i + 1])
}

/// The events with the given callback identity.
pub open spec fn is_callback(e: ScheduledFunction, id: Seq<char>, tag: bool) -> bool {
    e.id_chars() == id && e.is_tag() == tag
}

/// The events that do not carry the callback `(id, tag)`, in order.
pub open spec fn without_callback(s: Seq<ScheduledFunction>, id: Seq<char>, tag: bool) -> Seq<
    ScheduledFunction,
>
    decreases s.len(),
{
    if s.len() == 0 {
        s
    } else if is_callback(s.last(), id, tag) {
        without_callback(s.drop_last(), id, tag)
    } else {
        without_callback(s.drop_last(), id, tag).push(s.last())
    }
}

/// What `/schedule clear` keeps: events with another id, and, when a tag
/// flag is given, events with the same id but the other flag.
pub open spec fn kept_by_clear(e: ScheduledFunction, id: Seq<char>, tag: Option<bool>) -> bool {
    e.id_chars() != id || (tag matches Some(expected) && e.is_tag() != expected)
}

pub open spec fn after_clear(s: Seq<ScheduledFunction>, id: Seq<char>, tag: Option<bool>) -> Seq<
    ScheduledFunction,
>
    decreases s.len(),
{
    if s.len() == 0 {
        s
    } else if kept_by_clear(s.last(), id, tag) {
        after_clear(s.drop_last(), id, tag).push(s.last())
    } else {
        after_clear(s.drop_last(), id, tag)
    }
}

/// The events whose trigger time has not been reached at `now`, in order.
pub open spec fn pending_at(s: Seq<ScheduledFunction>, now: i64) -> Seq<ScheduledFunction>
    decreases s.len(),
{
    if s.len() == 0 {
        s
    } else if s.last().time() > now {
        pending_at(s.drop_last(), now).push(s.last())
    } else {
        pending_at(s.drop_last(), now)
    }
}

/// The events due at `now`, in queue order.
pub open spec fn due_at(s: Seq<ScheduledFunction>, now: i64) -> Seq<ScheduledFunction>
    decreases s.len(),
{
    if s.len() == 0 {
        s
    } else if s.last().time() <= now {
        due_at(s.drop_last(), now).push(s.last())
    } else {
        due_at(s.drop_last(), now)
    }
}

/// The listing name of an event: `#id` for a tag, `id` for a function.
pub open spec fn listing_name(e: ScheduledFunction) -> Seq<char> {
    if e.is_tag() {
        seq!['#'] + e.id_chars()
    } else {
        e.id_chars()
    }
}

/// Whether the queue holds an event of the callback at that time.
pub open spec fn has_trigger(s: Seq<ScheduledFunction>, id: Seq<char>, tag: bool, time: i64) -> bool {
    exists|i: int| 0 <= i < s.len() && is_callback(s[i], id, tag) && s[i].time() == time
}

/// Every event in `s` was numbered below `next`.
pub open spec fn numbered_below(s: Seq<ScheduledFunction>, next: u64) -> bool {
    forall|i: int| 0 <= i < s.len() ==> (#[trigger] s[i]).sequence_number() < next
}

impl FunctionScheduler {
    /// The pending events, in insertion order.
    pub closed spec fn events(&self) -> Seq<ScheduledFunction> {
        self.events@
    }

    /// The sequence number the next event receives.
    pub closed spec fn next_sequence_number(&self) -> u64 {
        self.next_sequence
    }

    /// Every pending event was numbered before the number the next event
    /// receives, so a new event runs after every pending event of its time.
    /// It holds until the numbering wraps after `u64::MAX` events.
    pub open spec fn numbered_before_next(&self) -> bool {
        numbered_below(self.events(), self.next_sequence_number())
    }

    /// An empty queue.
    pub fn new() -> (r: Self)
        ensures
            r.events() == Seq::<ScheduledFunction>::empty(),
            r.next_sequence_number() == 0,
            r.numbered_before_next(),
    {
        FunctionScheduler { events: Vec::new(), next_sequence: 0 }
    }

    /// Replaces the queue with persisted events, numbered in the given order.
    pub fn load(&mut self, events: Vec<ScheduledFunctionData>)
        ensures
            final(self).events().len() == events.len(),
            forall|i: int|
                0 <= i < events.len() ==> {
                    &&& (#[trigger] final(self).events()[i]).time() == events[i].trigger_time
                    &&& final(self).events()[i].id_chars() == events[i].id@
                    &&& final(self).events()[i].is_tag() == events[i].tag
                    &&& final(self).events()[i].sequence_number() == i as u64
                },
            final(self).next_sequence_number() == events.len() as u64,
            final(self).numbered_before_next(),
    {
        self.events = Vec::new();
        self.next_sequence = 0;
        let ghost initial = events@;
        let mut i: usize = 0;
        while i < events.len()
            invariant
                initial == events@,
                self.events@.len() == i,
                self.next_sequence == i as u64,
                i <= initial.len(),
                forall|j: int|
                    0 <= j < i ==> {
                        &&& (#[trigger] self.events@[j]).trigger_time == initial[j].trigger_time
                        &&& self.events@[j].id == initial[j].id
                        &&& self.events@[j].tag == initial[j].tag
                        &&& self.events@[j].sequence == j as u64
                    },
            decreases events.len() - i,
        {
            let event = &events[i];
            let id = event.id.clone();
            self.push(event.trigger_time, id, event.tag);
            i = i + 1;
        }
    }

    /// Adds an event.  With `replace`, every event of the same callback is
    /// removed first; an event of the same callback at the same time is never
    /// added twice.  Returns whether an event was added.
    pub fn schedule(&mut self, id: String, trigger_time: i64, tag: bool, replace: bool) -> (r: bool)
        ensures
            ({
                let base = if replace {
                    without_callback(old(self).events(), id@, tag)
                } else {
                    old(self).events()
                };
                &&& r == !has_trigger(base, id@, tag, trigger_time)
                &&& r ==> final(self).events().len() == base.len() + 1
                &&& r ==> final(self).events().drop_last() == base
                &&& r ==> final(self).events().last().time() == trigger_time
                &&& r ==> final(self).events().last().id_chars() == id@
                &&& r ==> final(self).events().last().is_tag() == tag
                &&& r ==> final(self).events().last().sequence_number()
                    == old(self).next_sequence_number()
                &&& r ==> final(self).next_sequence_number() == (if old(self).next_sequence_number()
                    == u64::MAX {
                    0
                } else {
                    (old(self).next_sequence_number() + 1) as u64
                })
                &&& !r ==> final(self).events() == base
                &&& !r ==> final(self).next_sequence_number() == old(self).next_sequence_number()
            }),
            old(self).numbered_before_next() && r ==> forall|i: int|
                0 <= i < final(self).events().len() - 1 ==> (#[trigger] final(self).events()[i]).sequence_number()
                    < final(self).events().last().sequence_number(),
            old(self).numbered_before_next() && old(self).next_sequence_number() < u64::MAX
                ==> final(self).numbered_before_next(),
    {
        proof {
            lemma_without_callback_numbered(self.events@, id@, tag, self.next_sequence);
        }
        let ghost start = self.events@;
        let ghost base = if replace {
            without_callback(start, id@, tag)
        } else {
            start
        };
        if replace {
            self.remove_callback(&id, tag);
        }
        assert(self.events@ == base);
        let mut i: usize = 0;
        while i < self.events.len()
            invariant
                i <= self.events@.len(),
                self.events@ == base,
                start == old(self).events@,
                base == (if replace {
                    without_callback(start, id@, tag)
                } else {
                    start
                }),
                self.next_sequence == old(self).next_sequence,
                numbered_below(start, self.next_sequence) ==> numbered_below(base, self.next_sequence),
                forall|j: int|
                    0 <= j < i ==> !(is_callback(#[trigger] self.events@[j], id@, tag)
                        && self.events@[j].trigger_time == trigger_time),
            decreases self.events.len() - i,
        {
            let e = &self.events[i];
            if e.tag == tag && e.trigger_time == trigger_time && e.id == id {
                assert(is_callback(base[i as int], id@, tag) && base[i as int].trigger_time
                    == trigger_time);
                assert(has_trigger(base, id@, tag, trigger_time));
                return false;
            }
            i = i + 1;
        }
        self.push(trigger_time, id, tag);
        true
    }

    /// Removes every event of the callback `(id, tag)`, keeping the others in
    /// order.
    fn remove_callback(&mut self, id: &String, tag: bool)
        ensures
            final(self).events() == without_callback(old(self).events(), id@, tag),
            final(self).next_sequence_number() == old(self).next_sequence_number(),
    {
        let mut old_events: Vec<ScheduledFunction> = Vec::new();
        std::mem::swap(&mut old_events, &mut self.events);
        let ghost s = old_events@;
        let mut kept: Vec<ScheduledFunction> = Vec::new();
        let mut i: usize = 0;
        while i < old_events.len()
            invariant
                s == old_events@,
                i <= s.len(),
                kept@ == without_callback(s.take(i as int), id@, tag),
            decreases old_events.len() - i,
        {
            let e = copy_event(&old_events[i]);
            proof {
                assert(s.take(i + 1).drop_last() =~= s.take(i as int));
            }
            if !(e.tag == tag && e.id == *id) {
                kept.push(e);
            }
            i = i + 1;
        }
        assert(s.take(s.len() as int) =~= s);
        self.events = kept;
    }

    /// Removes every event of `id` (only those with the given flag when
    /// `tag` is given) and returns how many were removed.
    pub fn clear(&mut self, id: &str, tag: Option<bool>) -> (r: usize)
        ensures
            final(self).events() == after_clear(old(self).events(), id@, tag),
            r == old(self).events().len() - final(self).events().len(),
            final(self).next_sequence_number() == old(self).next_sequence_number(),
            old(self).numbered_before_next() ==> final(self).numbered_before_next(),
    {
        let before = self.events.len();
        let key = crate::text::string_from_str(id);
        let mut old_events: Vec<ScheduledFunction> = Vec::new();
        std::mem::swap(&mut old_events, &mut self.events);
        let ghost s = old_events@;
        let mut kept: Vec<ScheduledFunction> = Vec::new();
        let mut i: usize = 0;
        while i < old_events.len()
            invariant
                s == old_events@,
                i <= s.len(),
                kept@ == after_clear(s.take(i as int), id@, tag),
                key@ == id@,
            decreases old_events.len() - i,
        {
            let e = copy_event(&old_events[i]);
            proof {
                assert(s.take(i + 1).drop_last() =~= s.take(i as int));
            }
            let keep = !(e.id == key) || match tag {
                Some(expected) => e.tag != expected,
                None => false,
            };
            if keep {
                kept.push(e);
            }
            i = i + 1;
        }
        assert(s.take(s.len() as int) =~= s);
        proof {
            lemma_after_clear_len(s, id@, tag);
            lemma_after_clear_numbered(s, id@, tag, self.next_sequence);
        }
        self.events = kept;
        before - self.events.len()
    }

    /// Takes out every event due at `now` and returns them in running order:
    /// by trigger time, then by insertion.
    pub fn due(&mut self, now: i64) -> (r: Vec<ScheduledFunction>)
        ensures
            final(self).events() == pending_at(old(self).events(), now),
            r@ == in_run_order(due_at(old(self).events(), now)),
            final(self).next_sequence_number() == old(self).next_sequence_number(),
            old(self).numbered_before_next() ==> final(self).numbered_before_next(),
    {
        let mut old_events: Vec<ScheduledFunction> = Vec::new();
        std::mem::swap(&mut old_events, &mut self.events);
        let ghost s = old_events@;
        let mut due: Vec<ScheduledFunction> = Vec::new();
        let mut pending: Vec<ScheduledFunction> = Vec::new();
        let mut i: usize = 0;
        while i < old_events.len()
            invariant
                s == old_events@,
                i <= s.len(),
                pending@ == pending_at(s.take(i as int), now),
                due@ == in_run_order(due_at(s.take(i as int), now)),
            decreases old_events.len() - i,
        {
            let e = copy_event(&old_events[i]);
            proof {
                assert(s.take(i + 1).drop_last() =~= s.take(i as int));
            }
            proof {
                let t = s.take(i + 1);
                assert(t.last() == s[i as int]);
                let d = due_at(s.take(i as int), now);
                if e.trigger_time <= now {
                    assert(due_at(t, now) == d.push(e));
                    assert(d.push(e).drop_last() =~= d);
                } else {
                    assert(due_at(t, now) == d);
                    assert(pending_at(t, now) == pending_at(s.take(i as int), now).push(e));
                }
            }
            if e.trigger_time <= now {
                insert_event_in_order(&mut due, e);
            } else {
                pending.push(e);
            }
            i = i + 1;
        }
        assert(s.take(s.len() as int) =~= s);
        proof {
            lemma_pending_at_numbered(s, now, self.next_sequence);
        }
        self.events = pending;
        due
    }

    /// The pending events in running order, in their persisted form.
    pub fn snapshot(&self) -> (r: Vec<ScheduledFunctionData>)
        ensures
            r.len() == self.events().len(),
            forall|i: int|
                0 <= i < r.len() ==> {
                    &&& (#[trigger] r[i]).trigger_time == in_run_order(self.events())[i].time()
                    &&& r[i].id@ == in_run_order(self.events())[i].id_chars()
                    &&& r[i].tag == in_run_order(self.events())[i].is_tag()
                },
    {
        let mut ordered: Vec<ScheduledFunction> = Vec::new();
        let mut i: usize = 0;
        while i < self.events.len()
            invariant
                i <= self.events@.len(),
                ordered@ == in_run_order(self.events@.take(i as int)),
            decreases self.events.len() - i,
        {
            let e = copy_event(&self.events[i]);
            assert(self.events@.take(i + 1).drop_last() =~= self.events@.take(i as int));
            insert_event_in_order(&mut ordered, e);
            i = i + 1;
        }
        assert(self.events@.take(self.events.len() as int) =~= self.events@);
        proof {
            lemma_in_run_order_len(self.events@);
        }
        let mut out: Vec<ScheduledFunctionData> = Vec::new();
        let mut j: usize = 0;
        while j < ordered.len()
            invariant
                j <= ordered.len(),
                out.len() == j,
                forall|k: int|
                    0 <= k < j ==> {
                        &&& (#[trigger] out@[k]).trigger_time == ordered@[k].trigger_time
                        &&& out@[k].id@ == ordered@[k].id@
                        &&& out@[k].tag == ordered@[k].tag
                    },
            decreases ordered.len() - j,
        {
            let e = &ordered[j];
            let id = crate::text::string_from_str(e.id.as_str());
            out.push(ScheduledFunctionData { trigger_time: e.trigger_time, id, tag: e.tag });
            j = j + 1;
        }
        out
    }

    /// The distinct listing names of the pending events (`#id` for tags), in
    /// `String` order.
    pub fn ids(&self) -> (r: Vec<String>)
        ensures
            strictly_sorted(sview(r@)),
            sview(r@).to_set() == self.events().map_values(|e: ScheduledFunction| listing_name(e)).to_set(),
    {
        let mut names: Vec<Vec<char>> = Vec::new();
        let ghost all = self.events@.map_values(|e: ScheduledFunction| listing_name(e));
        let mut i: usize = 0;
        while i < self.events.len()
            invariant
                i <= self.events@.len(),
                all == self.events@.map_values(|e: ScheduledFunction| listing_name(e)),
                strictly_sorted(vview(names@)),
                vview(names@).to_set() == all.take(i as int).to_set(),
            decreases self.events.len() - i,
        {
            let e = &self.events[i];
            let id = str_chars(e.id.as_str());
            let name = if e.tag {
                let mut hash: Vec<char> = Vec::new();
                hash.push('#');
                concat_chars(&hash, &id)
            } else {
                id
            };
            assert(name@ == all[i as int]);
            sorted_insert(&mut names, name);
            proof {
                assert(all.take(i + 1) =~= all.take(i as int).push(all[i as int]));
                assert(all.take(i + 1) =~= all.take(i as int) + seq![all[i as int]]);
                Seq::lemma_to_set_insert_commutes(all.take(i as int), all[i as int]);
            }
            i = i + 1;
        }
        assert(all.take(self.events.len() as int) =~= all);
        strings_from_chars(&names)
    }

    fn push(&mut self, trigger_time: i64, id: String, tag: bool)
        ensures
            final(self).events() == old(self).events().push(
                ScheduledFunction { trigger_time, id, tag, sequence: old(self).next_sequence },
            ),
            final(self).next_sequence == (if old(self).next_sequence == u64::MAX {
                0
            } else {
                (old(self).next_sequence + 1) as u64
            }),
    {
        let sequence = self.next_sequence;
        self.next_sequence = self.next_sequence.wrapping_add(1);
        self.events.push(ScheduledFunction { trigger_time, id, tag, sequence });
    }
}

impl Default for FunctionScheduler {
    /// An empty queue, as `new` gives.
    fn default() -> (r: Self)
        ensures
            r.events() == Seq::<ScheduledFunction>::empty(),
            r.next_sequence_number() == 0,
            r.numbered_before_next(),
    {
        FunctionScheduler::new()
    }
}

/// The running order of two events: trigger time first, insertion second.
fn compare_events(a: &ScheduledFunction, b: &ScheduledFunction) -> (r: Ordering)
    ensures
        (r == Ordering::Less) == (a.trigger_time < b.trigger_time || (a.trigger_time
            == b.trigger_time && a.sequence < b.sequence)),
        (r == Ordering::Equal) == (a.trigger_time == b.trigger_time && a.sequence == b.sequence),
        (r == Ordering::Greater) == (a.trigger_time > b.trigger_time || (a.trigger_time
            == b.trigger_time && a.sequence > b.sequence)),
{
    if a.trigger_time < b.trigger_time {
        Ordering::Less
    } else if a.trigger_time > b.trigger_time {
        Ordering::Greater
    } else if a.sequence < b.sequence {
        Ordering::Less
    } else if a.sequence > b.sequence {
        Ordering::Greater
    } else {
        Ordering::Equal
    }
}

/// Whether `a` runs strictly after `b`.
fn runs_after(a: &ScheduledFunction, b: &ScheduledFunction) -> (r: bool)
    ensures
        r == !runs_no_later(*a, *b),
{
    match compare_events(a, b) {
        Ordering::Greater => true,
        _ => false,
    }
}

fn copy_event(e: &ScheduledFunction) -> (r: ScheduledFunction)
    ensures
        r.trigger_time == e.trigger_time,
        r.id@ == e.id@,
        r.tag == e.tag,
        r.sequence == e.sequence,
        r == *e,
{
    ScheduledFunction {
        trigger_time: e.trigger_time,
        id: e.id.clone(),
        tag: e.tag,
        sequence: e.sequence,
    }
}

/// Inserts `e` into `sorted` after every event that runs no later than it.
fn insert_event_in_order(sorted: &mut Vec<ScheduledFunction>, e: ScheduledFunction)
    ensures
        final(sorted)@ == insert_in_order(old(sorted)@, e),
{
    let mut j = sorted.len();
    assert(sorted@.take(j as int) =~= sorted@);
    assert(sorted@.skip(j as int) =~= Seq::<ScheduledFunction>::empty());
    while j > 0 && runs_after(&sorted[j - 1], &e)
        invariant
            j <= sorted@.len(),
            insert_in_order(sorted@, e) == insert_in_order(sorted@.take(j as int), e) + sorted@.skip(
                j as int,
            ),
            forall|k: int| j <= k < sorted@.len() ==> !runs_no_later(#[trigger] sorted@[k], e),
        decreases j,
    {
        proof {
            let t = sorted@.take(j as int);
            assert(t.drop_last() =~= sorted@.take(j - 1));
            assert(t.last() == sorted@[j - 1]);
            assert(sorted@.skip(j - 1) =~= seq![sorted@[j - 1]] + sorted@.skip(j as int));
        }
        j = j - 1;
    }
    proof {
        let t = sorted@.take(j as int);
        if j > 0 {
            assert(runs_no_later(t.last(), e));
        }
        assert(insert_in_order(t, e) == t.push(e));
    }
    sorted.insert(j, e);
    proof {
        assert(sorted@ =~= old(sorted)@.take(j as int).push(e) + old(sorted)@.skip(j as int));
    }
}

pub proof fn lemma_after_clear_len(s: Seq<ScheduledFunction>, id: Seq<char>, tag: Option<bool>)
    ensures
        after_clear(s, id, tag).len() <= s.len(),
    decreases s.len(),
{
    if s.len() > 0 {
        lemma_after_clear_len(s.drop_last(), id, tag);
    }
}

pub proof fn lemma_insert_in_order_len(s: Seq<ScheduledFunction>, e: ScheduledFunction)
    ensures
        insert_in_order(s, e).len() == s.len() + 1,
    decreases s.len(),
{
    if s.len() > 0 && !runs_no_later(s.last(), e) {
        lemma_insert_in_order_len(s.drop_last(), e);
    }
}

pub proof fn lemma_in_run_order_len(s: Seq<ScheduledFunction>)
    ensures
        in_run_order(s).len() == s.len(),
    decreases s.len(),
{
    if s.len() > 0 {
        lemma_in_run_order_len(s.drop_last());
        lemma_insert_in_order_len(in_run_order(s.drop_last()), s.last());
    }
}

/// Inserting keeps the inserted event and the others: the result holds
/// exactly `e` and the elements of `s`.
proof fn lemma_insert_in_order_contents(s: Seq<ScheduledFunction>, e: ScheduledFunction)
    ensures
        insert_in_order(s, e).to_multiset() == s.to_multiset().insert(e),
        insert_in_order(s, e).last() == e || (s.len() > 0 && insert_in_order(s, e).last() == s.last()),
    decreases s.len(),
{
    broadcast use vstd::seq_lib::group_to_multiset_ensures;
    if s.len() > 0 && !runs_no_later(s.last(), e) {
        lemma_insert_in_order_contents(s.drop_last(), e);
        assert(s.drop_last().push(s.last()) =~= s);
        lemma_insert_in_order_len(s.drop_last(), e);
    } else if s.len() > 0 {
        assert(s.push(e).to_multiset() =~= s.to_multiset().insert(e));
    } else {
        assert(seq![e] =~= Seq::<ScheduledFunction>::empty().push(e));
    }
}

/// Inserting into events in running order keeps them in running order.
proof fn lemma_insert_in_order_sorted(s: Seq<ScheduledFunction>, e: ScheduledFunction)
    requires
        ordered_for_running(s),
    ensures
        ordered_for_running(insert_in_order(s, e)),
    decreases s.len(),
{
    if s.len() > 0 && !runs_no_later(s.last(), e) {
        let t = s.drop_last();
        lemma_insert_in_order_sorted(t, e);
        lemma_insert_in_order_contents(t, e);
        lemma_insert_in_order_len(t, e);
        let r = insert_in_order(t, e);
        assert forall|i: int| 0 <= i < r.push(s.last()).len() - 1 implies runs_no_later(#[trigger] r.push(s.last())[i], r.push(s.last())[i + 1]) by {
            if i == r.len() - 1 {
                if r.last() != e {
                    assert(t.len() > 0 && r.last() == t.last());
                    assert(runs_no_later(s[s.len() - 2], s[s.len() - 1]));
                }
            } else {
                assert(r.push(s.last())[i] == r[i]);
                assert(r.push(s.last())[i + 1] == r[i + 1]);
            }
        }
    } else if s.len() > 0 {
        assert forall|i: int| 0 <= i < s.push(e).len() - 1 implies runs_no_later(#[trigger] s.push(e)[i], s.push(e)[i + 1]) by {
            if i < s.len() - 1 {
                assert(s.push(e)[i] == s[i]);
                assert(s.push(e)[i + 1] == s[i + 1]);
            }
        }
    }
}

/// The running order is an order: each event runs no later than the next,
/// and it holds the same events as its input.
pub proof fn lemma_in_run_order_sorted(s: Seq<ScheduledFunction>)
    ensures
        ordered_for_running(in_run_order(s)),
        in_run_order(s).to_multiset() == s.to_multiset(),
    decreases s.len(),
{
    broadcast use vstd::seq_lib::group_to_multiset_ensures;
    if s.len() > 0 {
        lemma_in_run_order_sorted(s.drop_last());
        lemma_insert_in_order_sorted(in_run_order(s.drop_last()), s.last());
        lemma_insert_in_order_contents(in_run_order(s.drop_last()), s.last());
        assert(s.drop_last().push(s.last()) =~= s);
    }
}

/// Taking the due events splits the queue: every taken event is due at
/// `now`, every kept event is not, and together they are the queue.
pub proof fn lemma_due_splits_queue(s: Seq<ScheduledFunction>, now: i64)
    ensures
        forall|i: int| 0 <= i < due_at(s, now).len() ==> (#[trigger] due_at(s, now)[i]).time() <= now,
        forall|i: int| 0 <= i < pending_at(s, now).len() ==> (#[trigger] pending_at(s, now)[i]).time() > now,
        due_at(s, now).to_multiset().add(pending_at(s, now).to_multiset()) == s.to_multiset(),
    decreases s.len(),
{
    broadcast use vstd::seq_lib::group_to_multiset_ensures;
    if s.len() > 0 {
        lemma_due_splits_queue(s.drop_last(), now);
        assert(s.drop_last().push(s.last()) =~= s);
        let d = due_at(s.drop_last(), now);
        let p = pending_at(s.drop_last(), now);
        if s.last().trigger_time <= now {
            assert forall|i: int| 0 <= i < d.push(s.last()).len() implies (#[trigger] d.push(s.last())[i]).time() <= now by {
                if i < d.len() {
                    assert(d.push(s.last())[i] == d[i]);
                }
            }
            assert(d.push(s.last()).to_multiset().add(p.to_multiset()) =~= d.to_multiset().add(p.to_multiset()).insert(s.last()));
        } else {
            assert forall|i: int| 0 <= i < p.push(s.last()).len() implies (#[trigger] p.push(s.last())[i]).time() > now by {
                if i < p.len() {
                    assert(p.push(s.last())[i] == p[i]);
                }
            }
            assert(d.to_multiset().add(p.push(s.last()).to_multiset()) =~= d.to_multiset().add(p.to_multiset()).insert(s.last()));
        }
    }
}

/// No event of a callback survives its own removal.
pub proof fn lemma_without_callback_has_none(s: Seq<ScheduledFunction>, id: Seq<char>, tag: bool)
    ensures
        forall|i: int| 0 <= i < without_callback(s, id, tag).len() ==> !is_callback(#[trigger] without_callback(s, id, tag)[i], id, tag),
        forall|time: i64| !has_trigger(#[trigger] without_callback(s, id, tag), id, tag, time),
    decreases s.len(),
{
    if s.len() > 0 {
        lemma_without_callback_has_none(s.drop_last(), id, tag);
        let w = without_callback(s.drop_last(), id, tag);
        if !is_callback(s.last(), id, tag) {
            assert forall|i: int| 0 <= i < w.push(s.last()).len() implies !is_callback(#[trigger] w.push(s.last())[i], id, tag) by {
                if i < w.len() {
                    assert(w.push(s.last())[i] == w[i]);
                }
            }
        }
    }
}

/// Scheduling with replacement leaves exactly one event of the callback:
/// the new one.
pub proof fn lemma_replace_leaves_one(old_events: Seq<ScheduledFunction>, new_events: Seq<ScheduledFunction>, id: Seq<char>, tag: bool)
    requires
        new_events.len() == without_callback(old_events, id, tag).len() + 1,
        new_events.drop_last() == without_callback(old_events, id, tag),
        new_events.last().id_chars() == id,
        new_events.last().is_tag() == tag,
    ensures
        forall|i: int| 0 <= i < new_events.len() && is_callback(#[trigger] new_events[i], id, tag) ==> i == new_events.len() - 1,
{
    lemma_without_callback_has_none(old_events, id, tag);
    assert forall|i: int| 0 <= i < new_events.len() && is_callback(#[trigger] new_events[i], id, tag) implies i == new_events.len() - 1 by {
        if i < new_events.len() - 1 {
            assert(new_events[i] == new_events.drop_last()[i]);
        }
    }
}

/// Clearing a callback leaves none of its events: none of `id` at all
/// when no flag is given, none of `id` with that flag otherwise.
pub proof fn lemma_clear_removes(s: Seq<ScheduledFunction>, id: Seq<char>, tag: Option<bool>)
    ensures
        forall|i: int| 0 <= i < after_clear(s, id, tag).len() ==> {
            let e = #[trigger] after_clear(s, id, tag)[i];
            e.id_chars() != id || (tag matches Some(t) && e.is_tag() != t)
        },
    decreases s.len(),
{
    if s.len() > 0 {
        lemma_clear_removes(s.drop_last(), id, tag);
        let w = after_clear(s.drop_last(), id, tag);
        if kept_by_clear(s.last(), id, tag) {
            assert forall|i: int| 0 <= i < w.push(s.last()).len() implies {
                let e = #[trigger] w.push(s.last())[i];
                e.id_chars() != id || (tag matches Some(t) && e.is_tag() != t)
            } by {
                if i < w.len() {
                    assert(w.push(s.last())[i] == w[i]);
                }
            }
        }
    }
}

/// `/schedule clear` removes exactly the events that carry the id and, when
/// a flag is given, that flag: an event stays exactly when its id differs,
/// or a flag is given and the event's flag differs; the rest keep their
/// order.
pub proof fn lemma_clear_exactly(s: Seq<ScheduledFunction>, id: Seq<char>, tag: Option<bool>)
    ensures
        after_clear(s, id, tag) == s.filter(
            |e: ScheduledFunction| e.id_chars() != id || (tag is Some && e.is_tag() != tag->0),
        ),
        forall|i: int|
            0 <= i < s.len() && (#[trigger] s[i]).id_chars() != id ==> after_clear(s, id, tag).contains(s[i]),
    decreases s.len(),
{
    let keep = |e: ScheduledFunction| e.id_chars() != id || (tag is Some && e.is_tag() != tag->0);
    reveal(Seq::filter);
    if s.len() > 0 {
        lemma_clear_exactly(s.drop_last(), id, tag);
        assert(s.filter(keep) == (if keep(s.last()) {
            s.drop_last().filter(keep).push(s.last())
        } else {
            s.drop_last().filter(keep)
        }));
    }
    assert forall|i: int| 0 <= i < s.len() && (#[trigger] s[i]).id_chars() != id implies after_clear(
        s,
        id,
        tag,
    ).contains(s[i]) by {
        s.lemma_filter_contains(keep, i);
    }
}

/// Running due events takes exactly the events whose trigger time has been
/// reached and keeps exactly the others, each in queue order.
pub proof fn lemma_due_exactly(s: Seq<ScheduledFunction>, now: i64)
    ensures
        due_at(s, now) == s.filter(|e: ScheduledFunction| e.time() <= now),
        pending_at(s, now) == s.filter(|e: ScheduledFunction| e.time() > now),
    decreases s.len(),
{
    reveal(Seq::filter);
    if s.len() > 0 {
        lemma_due_exactly(s.drop_last(), now);
    }
}

/// Scheduling with replacement first drops exactly the events of the same
/// callback (same id and same tag flag), keeping the others in order; a
/// callback is already scheduled at a time exactly when some event has its
/// id, its flag and that time.
pub proof fn lemma_schedule_replaces_exactly(s: Seq<ScheduledFunction>, id: Seq<char>, tag: bool, time: i64)
    ensures
        without_callback(s, id, tag) == s.filter(|e: ScheduledFunction| !(e.id_chars() == id && e.is_tag() == tag)),
        has_trigger(s, id, tag, time) <==> exists|i: int|
            0 <= i < s.len() && (#[trigger] s[i]).id_chars() == id && s[i].is_tag() == tag && s[i].time() == time,
    decreases s.len(),
{
    reveal(Seq::filter);
    if s.len() > 0 {
        lemma_schedule_replaces_exactly(s.drop_last(), id, tag, time);
    }
}

/// The running order: an earlier trigger time runs first; at the same time
/// the earlier scheduled event runs first.  Listing names mark tags with
/// `#`.
pub proof fn lemma_running_order_and_names(a: ScheduledFunction, b: ScheduledFunction)
    ensures
        a.time() < b.time() ==> runs_no_later(a, b) && !runs_no_later(b, a),
        a.time() == b.time() && a.sequence_number() < b.sequence_number() ==> runs_no_later(a, b) && !runs_no_later(
            b,
            a,
        ),
        a.is_tag() ==> listing_name(a) == seq!['#'] + a.id_chars(),
        !a.is_tag() ==> listing_name(a) == a.id_chars(),
{
}

/// Events already in running order are left as they are by the running
/// order.
pub proof fn lemma_in_run_order_of_ordered(s: Seq<ScheduledFunction>)
    requires
        ordered_for_running(s),
    ensures
        in_run_order(s) == s,
    decreases s.len(),
{
    if s.len() > 0 {
        let p = s.drop_last();
        assert(ordered_for_running(p)) by {
            assert forall|i: int| 0 <= i < p.len() - 1 implies runs_no_later(#[trigger] p[i], p[i + 1]) by {
                assert(p[i] == s[i] && p[i + 1] == s[i + 1]);
                assert(runs_no_later(s[i], s[i + 1]));
            }
        }
        lemma_in_run_order_of_ordered(p);
        if p.len() > 0 {
            assert(runs_no_later(s[s.len() - 2], s[s.len() - 1]));
            assert(p.last() == s[s.len() - 2]);
        }
        assert(p.push(s.last()) =~= s);
    }
}

/// A reload keeps the order of a snapshot: events numbered in the order
/// they are given, whose times do not decrease, are already in running
/// order, so the snapshot taken after loading a snapshot lists the same
/// events in the same order.
pub proof fn lemma_reload_keeps_snapshot_order(s: Seq<ScheduledFunction>)
    requires
        forall|i: int| 0 <= i < s.len() ==> (#[trigger] s[i]).sequence_number() == i,
        forall|i: int, j: int| 0 <= i < j < s.len() ==> (#[trigger] s[i]).time() <= (#[trigger] s[j]).time(),
    ensures
        in_run_order(s) == s,
{
    assert forall|i: int| 0 <= i < s.len() - 1 implies runs_no_later(#[trigger] s[i], s[i + 1]) by {
        assert(s[i].time() <= s[i + 1].time());
        assert(s[i].sequence_number() == i && s[i + 1].sequence_number() == i + 1);
    }
    lemma_in_run_order_of_ordered(s);
}

/// Removing a callback's events keeps the numbering bound.
proof fn lemma_without_callback_numbered(s: Seq<ScheduledFunction>, id: Seq<char>, tag: bool, next: u64)
    ensures
        numbered_below(s, next) ==> numbered_below(without_callback(s, id, tag), next),
    decreases s.len(),
{
    if s.len() > 0 {
        lemma_without_callback_numbered(s.drop_last(), id, tag, next);
        if numbered_below(s, next) {
            assert(numbered_below(s.drop_last(), next)) by {
                assert forall|i: int| 0 <= i < s.drop_last().len() implies (#[trigger] s.drop_last()[i]).sequence_number() < next by {
                    assert(s.drop_last()[i] == s[i]);
                }
            }
            let w = without_callback(s.drop_last(), id, tag);
            assert(s.last() == s[s.len() - 1]);
            assert forall|i: int| 0 <= i < w.push(s.last()).len() implies (#[trigger] w.push(s.last())[i]).sequence_number() < next by {
                if i < w.len() {
                    assert(w.push(s.last())[i] == w[i]);
                }
            }
        }
    }
}

/// Clearing keeps the numbering bound.
proof fn lemma_after_clear_numbered(s: Seq<ScheduledFunction>, id: Seq<char>, tag: Option<bool>, next: u64)
    ensures
        numbered_below(s, next) ==> numbered_below(after_clear(s, id, tag), next),
    decreases s.len(),
{
    if s.len() > 0 {
        lemma_after_clear_numbered(s.drop_last(), id, tag, next);
        if numbered_below(s, next) {
            assert(numbered_below(s.drop_last(), next)) by {
                assert forall|i: int| 0 <= i < s.drop_last().len() implies (#[trigger] s.drop_last()[i]).sequence_number() < next by {
                    assert(s.drop_last()[i] == s[i]);
                }
            }
            let w = after_clear(s.drop_last(), id, tag);
            assert(s.last() == s[s.len() - 1]);
            assert forall|i: int| 0 <= i < w.push(s.last()).len() implies (#[trigger] w.push(s.last())[i]).sequence_number() < next by {
                if i < w.len() {
                    assert(w.push(s.last())[i] == w[i]);
                }
            }
        }
    }
}

/// Taking the due events keeps the numbering bound on the pending ones.
proof fn lemma_pending_at_numbered(s: Seq<ScheduledFunction>, now: i64, next: u64)
    ensures
        numbered_below(s, next) ==> numbered_below(pending_at(s, now), next),
    decreases s.len(),
{
    if s.len() > 0 {
        lemma_pending_at_numbered(s.drop_last(), now, next);
        if numbered_below(s, next) {
            assert(numbered_below(s.drop_last(), next)) by {
                assert forall|i: int| 0 <= i < s.drop_last().len() implies (#[trigger] s.drop_last()[i]).sequence_number() < next by {
                    assert(s.drop_last()[i] == s[i]);
                }
            }
            let w = pending_at(s.drop_last(), now);
            assert(s.last() == s[s.len() - 1]);
            assert forall|i: int| 0 <= i < w.push(s.last()).len() implies (#[trigger] w.push(s.last())[i]).sequence_number() < next by {
                if i < w.len() {
                    assert(w.push(s.last())[i] == w[i]);
                }
            }
        }
    }
}

} // verus!
