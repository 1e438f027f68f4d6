use vstd::prelude::*;

use crate::status::{join_status, status_text, texts};

verus! {

/// The index that marks the sentinel event: a shutdown has begun.
pub const SENTINEL: usize = usize::MAX;

/// The text shown in the slot of a unit whose probe failed.
pub const FAILED: &'static str = "failed";

/// The text of an event's fragment: the fragment, or the failure marker.
pub open spec fn slot_text(fragment: Option<Seq<char>>) -> Seq<char> {
    match fragment {
        Some(s) => s,
        None => FAILED@,
    }
}

/// The view of an event's fragment.
pub open spec fn fragment_view(fragment: Option<String>) -> Option<Seq<char>> {
    match fragment {
        Some(s) => Some(s@),
        None => None,
    }
}

/// The views of a sequence of events.
pub open spec fn event_views(events: Seq<(usize, Option<String>)>) -> Seq<(int, Option<Seq<char>>)> {
    events.map_values(|e: (usize, Option<String>)| (e.0 as int, fragment_view(e.1)))
}

/// The output table after a non-sentinel event `(index, fragment)`.
pub open spec fn apply_event(table: Seq<Seq<char>>, event: (int, Option<Seq<char>>)) -> Seq<
    Seq<char>,
> {
    table.update(event.0, slot_text(event.1))
}

/// Whether the event changes the table, and so causes a publish.
pub open spec fn publishes(table: Seq<Seq<char>>, event: (int, Option<Seq<char>>)) -> bool {
    table[event.0] != slot_text(event.1)
}

/// The output table after the events, taken in order (none of them a sentinel).
pub open spec fn replay(table: Seq<Seq<char>>, events: Seq<(int, Option<Seq<char>>)>) -> Seq<
    Seq<char>,
>
    decreases events.len(),
{
    if events.len() == 0 {
        table
    } else {
        apply_event(replay(table, events.drop_last()), events.last())
    }
}

/// The text of the last event for slot `k`, or `default` when no event names `k`.
pub open spec fn last_text(
    events: Seq<(int, Option<Seq<char>>)>,
    k: int,
    default: Seq<char>,
) -> Seq<char>
    decreases events.len(),
{
    if events.len() == 0 {
        default
    } else if events.last().0 == k {
        slot_text(events.last().1)
    } else {
        last_text(events.drop_last(), k, default)
    }
}

/// The number of events that cause a publish when taken in order from `table`.
pub open spec fn publish_count(table: Seq<Seq<char>>, events: Seq<(int, Option<Seq<char>>)>) -> nat
    decreases events.len(),
{
    if events.len() == 0 {
        0
    } else {
        publish_count(table, events.drop_last()) + if publishes(
            replay(table, events.drop_last()),
            events.last(),
        ) {
            1nat
        } else {
            0nat
        }
    }
}

/// After any run of events, each slot of the output table holds the text of
/// the last event that named it, or its former text when none did.
pub proof fn lemma_table_reflects_last_event(
    table: Seq<Seq<char>>,
    events: Seq<(int, Option<Seq<char>>)>,
)
    requires
        forall|j: int| 0 <= j < events.len() ==> 0 <= #[trigger] events[j].0 < table.len(),
    ensures
        replay(table, events).len() == table.len(),
        forall|k: int|
            0 <= k < table.len() ==> #[trigger] replay(table, events)[k] == last_text(
                events,
                k,
                table[k],
            ),
    decreases events.len(),
{
    if events.len() > 0 {
        let rest = events.drop_last();
        assert forall|j: int| 0 <= j < rest.len() implies 0 <= #[trigger] rest[j].0 < table.len() by {
            assert(rest[j] == events[j]);
        }
        assert(0 <= events[events.len() - 1].0 < table.len());
        lemma_table_reflects_last_event(table, rest);
    }
}

/// Taking the same event again right after it leaves the table as it was and
/// publishes nothing.
pub proof fn lemma_repeat_is_silent(table: Seq<Seq<char>>, event: (int, Option<Seq<char>>))
    requires
        0 <= event.0 < table.len(),
    ensures
        apply_event(apply_event(table, event), event) == apply_event(table, event),
        !publishes(apply_event(table, event), event),
{
    assert(apply_event(apply_event(table, event), event) =~= apply_event(table, event));
}

/// A unit that emits the same fragment twice in a row causes at most one publish.
pub proof fn lemma_debounce(table: Seq<Seq<char>>, event: (int, Option<Seq<char>>))
    requires
        0 <= event.0 < table.len(),
    ensures
        publish_count(table, seq![event, event]) <= 1,
{
    let one = seq![event];
    let events = seq![event, event];
    assert(events.drop_last() =~= one);
    assert(one.drop_last() =~= Seq::<(int, Option<Seq<char>>)>::empty());
    assert(one.last() == event && events.last() == event);
    assert(replay(table, one.drop_last()) == table);
    assert(publish_count(table, one.drop_last()) == 0);
    lemma_repeat_is_silent(table, event);
    assert(replay(table, one) == apply_event(table, event));
    assert(publish_count(table, one) <= 1);
    assert(!publishes(replay(table, events.drop_last()), events.last()));
    assert(publish_count(table, events) == publish_count(table, one));
}

/// A fragment emitted twice in a row publishes what it published once: the
/// repeat leaves the table, and so the status string, as they were.
pub proof fn lemma_repeat_keeps_status(
    table: Seq<Seq<char>>,
    event: (int, Option<Seq<char>>),
    prefix: Seq<char>,
    sep: Seq<char>,
    suffix: Seq<char>,
)
    requires
        0 <= event.0 < table.len(),
    ensures
        status_text(apply_event(apply_event(table, event), event), prefix, sep, suffix)
            == status_text(apply_event(table, event), prefix, sep, suffix),
        published_statuses(table, seq![event, event], prefix, sep, suffix) == published_statuses(
            table,
            seq![event],
            prefix,
            sep,
            suffix,
        ),
{
    let one = seq![event];
    let events = seq![event, event];
    assert(events.drop_last() =~= one);
    assert(one.drop_last() =~= Seq::<(int, Option<Seq<char>>)>::empty());
    assert(replay(table, one.drop_last()) == table);
    lemma_repeat_is_silent(table, event);
    assert(replay(table, one) == apply_event(table, event));
    assert(!publishes(replay(table, events.drop_last()), events.last()));
}

/// A failed probe puts the failure marker in its unit's slot, and the unit's
/// next successful run replaces it.
pub proof fn lemma_failure_then_recovery(table: Seq<Seq<char>>, k: int, text: Seq<char>)
    requires
        0 <= k < table.len(),
    ensures
        apply_event(table, (k, None))[k] == FAILED@,
        apply_event(apply_event(table, (k, None)), (k, Some(text)))[k] == text,
{
}

/// The status strings published while taking the events in order from
/// `table`: for each event that changes the table, the status of the table
/// right after it.
pub open spec fn published_statuses(
    table: Seq<Seq<char>>,
    events: Seq<(int, Option<Seq<char>>)>,
    prefix: Seq<char>,
    sep: Seq<char>,
    suffix: Seq<char>,
) -> Seq<Seq<char>>
    decreases events.len(),
{
    if events.len() == 0 {
        seq![]
    } else {
        let earlier = published_statuses(table, events.drop_last(), prefix, sep, suffix);
        if publishes(replay(table, events.drop_last()), events.last()) {
            earlier.push(status_text(replay(table, events), prefix, sep, suffix))
        } else {
            earlier
        }
    }
}

/// What the aggregator does with one event.
pub enum Outcome {
    /// The sentinel came: stop consuming events.
    Stop,
    /// The fragment equals the slot's current text: nothing to publish.
    Unchanged,
    /// The slot changed: hand this status string to the render sink.
    Publish(String),
}

/// The sole consumer of the units' events: it holds the output table, one
/// slot per unit in declaration order, and the layout of the status string.
pub struct Aggregator {
    outputs: Vec<String>,
    prefix: String,
    separator: String,
    suffix: String,
}

impl View for Aggregator {
    type V = Seq<Seq<char>>;

    /// The output table.
    closed spec fn view(&self) -> Seq<Seq<char>> {
        texts(self.outputs@)
    }
}

impl Aggregator {
    /// The text placed before the joined fragments.
    pub closed spec fn prefix_text(&self) -> Seq<char> {
        self.prefix@
    }

    /// The text placed between two non-empty fragments.
    pub closed spec fn separator_text(&self) -> Seq<char> {
        self.separator@
    }

    /// The text placed after the joined fragments.
    pub closed spec fn suffix_text(&self) -> Seq<char> {
        self.suffix@
    }

    /// The status string that the current table shows.
    pub open spec fn status_spec(&self) -> Seq<char> {
        status_text(self@, self.prefix_text(), self.separator_text(), self.suffix_text())
    }

    /// An aggregator for `units` units whose slots are all empty.
    pub fn new(units: usize, prefix: &str, separator: &str, suffix: &str) -> (r: Aggregator)
        ensures
            r@ == Seq::new(units as nat, |i: int| Seq::<char>::empty()),
            r.prefix_text() == prefix@,
            r.separator_text() == separator@,
            r.suffix_text() == suffix@,
    {
        let mut outputs: Vec<String> = Vec::new();
        let mut i: usize = 0;
        while i < units
            invariant
                i <= units,
                outputs@.len() == i,
                forall|j: int| 0 <= j < i ==> (#[trigger] outputs@[j])@ == Seq::<char>::empty(),
            decreases units - i,
        {
            outputs.push(String::new());
            i = i + 1;
        }
        let r = Aggregator {
            outputs,
            prefix: prefix.to_owned(),
            separator: separator.to_owned(),
            suffix: suffix.to_owned(),
        };
        assert(r@ =~= Seq::new(units as nat, |i: int| Seq::<char>::empty()));
        r
    }

    /// The number of units.
    pub fn len(&self) -> (r: usize)
        ensures
            r == self@.len(),
    {
        self.outputs.len()
    }

    /// The current text of slot `index`.
    pub fn slot(&self, index: usize) -> (r: &String)
        requires
            index < self@.len(),
        ensures
            r@ == self@[index as int],
    {
        &self.outputs[index]
    }

    /// The status string that the current table shows.
    pub fn status(&self) -> (r: String)
        ensures
            r@ == self.status_spec(),
    {
        join_status(self.outputs.as_slice(), self.prefix.as_str(), self.separator.as_str(), self.suffix.as_str())
    }

    /// Takes one event: the sentinel stops the aggregator; any other event
    /// writes its fragment (or the failure marker) into the unit's slot and,
    /// when that changed the slot, yields the new status string.
    pub fn handle(&mut self, index: usize, fragment: Option<String>) -> (r: Outcome)
        requires
            index == SENTINEL || index < old(self)@.len(),
        ensures
            final(self).prefix_text() == old(self).prefix_text(),
            final(self).separator_text() == old(self).separator_text(),
            final(self).suffix_text() == old(self).suffix_text(),
            index == SENTINEL ==> r is Stop && final(self)@ == old(self)@,
            index != SENTINEL ==> {
                let event = (index as int, fragment_view(fragment));
                &&& final(self)@ == apply_event(old(self)@, event)
                &&& publishes(old(self)@, event) ==> r is Publish && r->0@
                    == final(self).status_spec()
                &&& !publishes(old(self)@, event) ==> r is Unchanged
            },
    {
        if index == SENTINEL {
            return Outcome::Stop;
        }
        let ghost event = (index as int, fragment_view(fragment));
        let text = match fragment {
            Some(s) => s,
            None => FAILED.to_owned(),
        };
        assert(text@ == slot_text(event.1));
        if self.outputs[index] == text {
            assert(apply_event(old(self)@, event) =~= old(self)@);
            return Outcome::Unchanged;
        }
        self.outputs.set(index, text);
        assert(self@ =~= apply_event(old(self)@, event));
        Outcome::Publish(self.status())
    }

    /// Takes events in order until the sentinel: returns the status strings
    /// published, one per event that changed the table, and how many events
    /// were taken before the sentinel (all of them when none is a sentinel).
    pub fn feed(&mut self, events: &Vec<(usize, Option<String>)>) -> (r: (Vec<String>, usize))
        requires
            forall|j: int|
                0 <= j < events@.len() ==> (#[trigger] events@[j]).0 == SENTINEL || events@[j].0
                    < old(self)@.len(),
        ensures
            r.1 <= events@.len(),
            forall|j: int| 0 <= j < r.1 ==> (#[trigger] events@[j]).0 != SENTINEL,
            r.1 < events@.len() ==> events@[r.1 as int].0 == SENTINEL,
            final(self)@ == replay(old(self)@, event_views(events@.take(r.1 as int))),
            r.0@.len() == publish_count(old(self)@, event_views(events@.take(r.1 as int))),
            r.0@.len() > 0 ==> r.0@.last()@ == final(self).status_spec(),
            texts(r.0@) == published_statuses(
                old(self)@,
                event_views(events@.take(r.1 as int)),
                old(self).prefix_text(),
                old(self).separator_text(),
                old(self).suffix_text(),
            ),
            final(self).prefix_text() == old(self).prefix_text(),
            final(self).separator_text() == old(self).separator_text(),
            final(self).suffix_text() == old(self).suffix_text(),
    {
        let mut published: Vec<String> = Vec::new();
        let mut i: usize = 0;
        while i < events.len()
            invariant
                i <= events@.len(),
                forall|j: int|
                    0 <= j < events@.len() ==> (#[trigger] events@[j]).0 == SENTINEL
                        || events@[j].0 < old(self)@.len(),
                forall|j: int| 0 <= j < i ==> (#[trigger] events@[j]).0 != SENTINEL,
                self@.len() == old(self)@.len(),
                self@ == replay(old(self)@, event_views(events@.take(i as int))),
                published@.len() == publish_count(old(self)@, event_views(events@.take(i as int))),
                published@.len() > 0 ==> published@.last()@ == self.status_spec(),
                texts(published@) == published_statuses(
                    old(self)@,
                    event_views(events@.take(i as int)),
                    old(self).prefix_text(),
                    old(self).separator_text(),
                    old(self).suffix_text(),
                ),
                self.prefix_text() == old(self).prefix_text(),
                self.separator_text() == old(self).separator_text(),
                self.suffix_text() == old(self).suffix_text(),
            decreases events@.len() - i,
        {
            let index = events[i].0;
            if index == SENTINEL {
                return (published, i);
            }
            let fragment = match &events[i].1 {
                Some(s) => Some(s.clone()),
                None => None,
            };
            let ghost before = self@;
            let ghost prev = event_views(events@.take(i as int));
            let ghost next = event_views(events@.take(i + 1));
            assert(next.drop_last() =~= prev);
            assert(next.last() == (index as int, fragment_view(fragment)));
            match self.handle(index, fragment) {
                Outcome::Publish(status) => {
                    let ghost before_push = published@;
                    published.push(status);
                    assert(texts(published@) =~= texts(before_push).push(status@));
                },
                _ => {
                    assert(apply_event(before, next.last()) =~= before);
                },
            }
            i = i + 1;
        }
        assert(events@.take(i as int) =~= events@);
        (published, i)
    }
}

} // verus!
