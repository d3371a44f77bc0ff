//! The ordered hand-off between the poller's output and the consumer.
use vstd::prelude::*;
use crate::provider::strings_view;

verus! {

/// An unbounded first-in first-out queue of message texts. Pushing never
/// blocks; popping takes the oldest text still held.
pub struct DeliveryQueue {
    items: Vec<String>,
    head: usize,
}

impl View for DeliveryQueue {
    type V = Seq<Seq<char>>;

    /// The texts still waiting, oldest first.
    closed spec fn view(&self) -> Seq<Seq<char>> {
        strings_view(self.items@).subrange(self.head as int, self.items@.len() as int)
    }
}

/// What the queue holds after the given poll cycles were pushed one after the
/// other onto a queue holding `start`.
pub open spec fn after_cycles(start: Seq<Seq<char>>, cycles: Seq<Seq<Seq<char>>>) -> Seq<Seq<char>>
    decreases cycles.len(),
{
    if cycles.len() == 0 {
        start
    } else {
        after_cycles(start + cycles[0], cycles.drop_first())
    }
}

/// Flatten-in-order: pushing poll cycles one after the other, each with zero
/// or more texts, leaves the queue holding every text in the order the
/// cycles and, within each cycle, the provider returned them.
pub proof fn lemma_cycles_flatten_in_order(start: Seq<Seq<char>>, cycles: Seq<Seq<Seq<char>>>)
    ensures
        after_cycles(start, cycles) == start + cycles.flatten(),
    decreases cycles.len(),
{
    if cycles.len() == 0 {
        assert(start + cycles.flatten() =~= start);
    } else {
        lemma_cycles_flatten_in_order(start + cycles[0], cycles.drop_first());
        assert((start + cycles[0]) + cycles.drop_first().flatten() =~= start + cycles.flatten());
    }
}

impl DeliveryQueue {
    /// The read position lies within the stored texts.
    pub closed spec fn wf(&self) -> bool {
        self.head <= self.items@.len()
    }

    /// An empty queue.
    pub fn new() -> (r: DeliveryQueue)
        ensures
            r.wf(),
            r@ == Seq::<Seq<char>>::empty(),
    {
        let r = DeliveryQueue { items: Vec::new(), head: 0 };
        assert(r@ =~= Seq::<Seq<char>>::empty());
        r
    }

    /// Number of texts waiting.
    pub fn len(&self) -> (r: usize)
        requires
            self.wf(),
        ensures
            r == self@.len(),
    {
        self.items.len() - self.head
    }

    /// Appends one poll cycle's texts, in their order, behind those waiting.
    pub fn push_cycle(&mut self, texts: Vec<String>)
        requires
            old(self).wf(),
        ensures
            final(self).wf(),
            final(self)@ == old(self)@ + strings_view(texts@),
    {
        let ghost before = self@;
        let mut texts = texts;
        let ghost added = strings_view(texts@);
        self.items.append(&mut texts);
        assert(self@ =~= before + added);
    }

    /// Takes the oldest waiting text, or `None` when nothing waits.
    pub fn pop(&mut self) -> (r: Option<String>)
        requires
            old(self).wf(),
        ensures
            final(self).wf(),
            old(self)@.len() == 0 ==> r is None && final(self)@ == old(self)@,
            old(self)@.len() > 0 ==> r is Some && r->Some_0@ == old(self)@[0]
                && final(self)@ == old(self)@.drop_first(),
    {
        if self.head < self.items.len() {
            let t = self.items[self.head].clone();
            self.head = self.head + 1;
            assert(self@ =~= old(self)@.drop_first());
            Some(t)
        } else {
            None
        }
    }
}

} // verus!
