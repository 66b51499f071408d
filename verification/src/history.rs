//! History of a entries value: recording, rewinding, and resetting.
use vstd::prelude::*;

verus! {

/// Commands that record, rewind, or reset the history of entries values.
#[derive(Copy, Clone, Debug, PartialEq, Eq, Hash, Structural)]
pub enum HistoryCommands {
    /// Record the current state of all entries values to their histories.
    Record,
    /// Update the current state of all entries values with the previous state and remove it
    /// from the history.
    Rewind,
    /// Update the current state of all entries values to the first state in the history.
    ///
    /// This also records the current state to the history before updating it, so the act of
    /// resetting can itself be rewound.
    Reset,
}

/// The recorded past states of a entries value, oldest first.
#[derive(Debug, PartialEq, Eq, Default)]
pub struct History<C>(pub Vec<C>);

/// One history command applied to a history `h` and the current value `c`.
pub open spec fn history_step<C>(h: Seq<C>, c: C, command: HistoryCommands) -> (Seq<C>, C) {
    match command {
        HistoryCommands::Record => (h.push(c), c),
        HistoryCommands::Rewind => if h.len() > 0 {
            (h.drop_last(), h.last())
        } else {
            (h, c)
        },
        HistoryCommands::Reset => if h.len() > 0 {
            (h.push(c), h[0])
        } else {
            (h, c)
        },
    }
}

/// Several history commands applied in order.
pub open spec fn history_after<C>(h: Seq<C>, c: C, commands: Seq<HistoryCommands>) -> (Seq<C>, C)
    decreases commands.len(),
{
    if commands.len() == 0 {
        (h, c)
    } else {
        let prev = history_after(h, c, commands.drop_last());
        history_step(prev.0, prev.1, commands.last())
    }
}

impl<C: Copy> History<C> {
    /// An empty history.
    pub fn new() -> (h: History<C>)
        ensures
            h.0@ == Seq::<C>::empty(),
    {
        History(Vec::new())
    }

    /// Applies one command to this history and its entries value.
    pub fn apply(&mut self, component: &mut C, command: HistoryCommands)
        ensures
            (final(self).0@, *final(component)) == history_step(old(self).0@, *old(component), command),
    {
        match command {
            HistoryCommands::Record => {
                self.0.push(*component);
            },
            HistoryCommands::Rewind => {
                if let Some(prev_state) = self.0.pop() {
                    *component = prev_state;
                }
            },
            HistoryCommands::Reset => {
                if self.0.len() > 0 {
                    let first = self.0[0];
                    self.0.push(*component);
                    *component = first;
                }
            },
        }
    }
}

/// Applies the commands, in order, to every tracked value and its history.
pub fn flush_history_commands<C: Copy>(
    entries: &mut Vec<(History<C>, C)>,
    commands: &Vec<HistoryCommands>,
)
    ensures
        final(entries).len() == old(entries).len(),
        forall|i: int|
            0 <= i < old(entries).len() ==> ((#[trigger] final(entries)[i]).0.0@, final(entries)[i].1)
                == history_after(old(entries)[i].0.0@, old(entries)[i].1, commands@),
{
    let ghost start = entries@;
    let mut k: usize = 0;
    while k < commands.len()
        invariant
            0 <= k <= commands.len(),
            entries.len() == start.len(),
            forall|i: int|
                0 <= i < start.len() ==> ((#[trigger] entries[i]).0.0@, entries[i].1)
                    == history_after(start[i].0.0@, start[i].1, commands@.take(k as int)),
        decreases commands.len() - k,
    {
        let command = commands[k];
        let mut i: usize = 0;
        while i < entries.len()
            invariant
                0 <= i <= entries.len(),
                entries.len() == start.len(),
                k < commands.len(),
                command == commands@[k as int],
                forall|j: int|
                    0 <= j < i ==> ((#[trigger] entries[j]).0.0@, entries[j].1) == history_after(
                        start[j].0.0@,
                        start[j].1,
                        commands@.take(k + 1),
                    ),
                forall|j: int|
                    i <= j < start.len() ==> ((#[trigger] entries[j]).0.0@, entries[j].1)
                        == history_after(start[j].0.0@, start[j].1, commands@.take(k as int)),
            decreases entries.len() - i,
        {
            assert(commands@.take(k + 1).drop_last() =~= commands@.take(k as int));
            let (mut history, mut component) = entries.remove(i);
            history.apply(&mut component, command);
            entries.insert(i, (history, component));
            i += 1;
        }
        k += 1;
    }
    assert(commands@.take(commands.len() as int) =~= commands@);
}

/// Recording takes a snapshot: the current value is appended to the history and is itself left
/// as it was.
pub proof fn lemma_record_keeps_value<C>(h: Seq<C>, c: C)
    ensures
        history_step(h, c, HistoryCommands::Record).1 == c,
        history_step(h, c, HistoryCommands::Record).0 == h.push(c),
        history_step(h, c, HistoryCommands::Record).0.len() == h.len() + 1,
        history_step(h, c, HistoryCommands::Record).0.last() == c,
{
}

/// Only rewinding and resetting change a tracked value: after any run of records, the value is
/// the one before them, and the history gained one copy of it per record.
pub proof fn lemma_records_never_change_value<C>(h: Seq<C>, c: C, commands: Seq<HistoryCommands>)
    requires
        forall|i: int| 0 <= i < commands.len() ==> #[trigger] commands[i] == HistoryCommands::Record,
    ensures
        history_after(h, c, commands).1 == c,
        history_after(h, c, commands).0 == h + Seq::new(commands.len(), |i: int| c),
    decreases commands.len(),
{
    if commands.len() > 0 {
        let pre = commands.drop_last();
        lemma_records_never_change_value(h, c, pre);
        assert(commands.last() == commands[commands.len() - 1]);
        assert((h + Seq::new(pre.len(), |i: int| c)).push(c) =~= h + Seq::new(
            commands.len(),
            |i: int| c,
        ));
    } else {
        assert(h + Seq::new(0, |i: int| c) =~= h);
    }
}

/// Rewinding undoes a record: whatever the value became after recording, a rewind restores both
/// the value and the history.
pub proof fn lemma_rewind_undoes_record<C>(h: Seq<C>, c: C, changed: C)
    ensures
        history_step(history_step(h, c, HistoryCommands::Record).0, changed, HistoryCommands::Rewind)
            == (h, c),
{
    assert(h.push(c).drop_last() =~= h);
}

/// Rewinding undoes a reset, whether or not the history was empty.
pub proof fn lemma_rewind_undoes_reset<C>(h: Seq<C>, c: C)
    ensures
        ({
            let after_reset = history_step(h, c, HistoryCommands::Reset);
            history_step(after_reset.0, after_reset.1, HistoryCommands::Rewind)
        }) == (h, c),
{
    assert(h.push(c).drop_last() =~= h);
}

/// A reset restores the first recorded state and keeps everything recorded so far.
pub proof fn lemma_reset_restores_first<C>(h: Seq<C>, c: C)
    requires
        h.len() > 0,
    ensures
        history_step(h, c, HistoryCommands::Reset).1 == h[0],
        history_step(h, c, HistoryCommands::Reset).0.take(h.len() as int) == h,
{
    assert(h.push(c).take(h.len() as int) =~= h);
}

/// Rewinding or resetting with an empty history changes nothing.
pub proof fn lemma_empty_history_is_inert<C>(c: C)
    ensures
        history_step(Seq::<C>::empty(), c, HistoryCommands::Rewind) == (Seq::<C>::empty(), c),
        history_step(Seq::<C>::empty(), c, HistoryCommands::Reset) == (Seq::<C>::empty(), c),
{
}

} // verus!
