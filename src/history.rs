use vstd::prelude::*;
use std::collections::VecDeque;

verus! {

/// How many calls the history keeps.
pub const HISTORY_CAPACITY: usize = 100;

/// The history after `name` is recorded into `h`: the oldest entry leaves
/// first when the history is full.
pub open spec fn recorded(h: Seq<Seq<char>>, name: Seq<char>) -> Seq<Seq<char>> {
    if h.len() >= HISTORY_CAPACITY {
        h.drop_first().push(name)
    } else {
        h.push(name)
    }
}

/// The history left by recording each of `calls` in turn, from empty.
pub open spec fn history_after(calls: Seq<Seq<char>>) -> Seq<Seq<char>>
    decreases calls.len(),
{
    if calls.len() == 0 {
        Seq::empty()
    } else {
        recorded(history_after(calls.drop_last()), calls.last())
    }
}

/// The first `limit` entries of `h` counted from its newest one, newest first.
pub open spec fn newest_first(h: Seq<Seq<char>>, limit: nat) -> Seq<Seq<char>> {
    let n = if limit < h.len() { limit } else { h.len() };
    Seq::new(n, |i: int| h[h.len() - 1 - i])
}

/// The last `n` elements of `s`, or all of them when `s` is shorter.
pub open spec fn last_n(s: Seq<Seq<char>>, n: nat) -> Seq<Seq<char>> {
    if s.len() <= n {
        s
    } else {
        s.subrange(s.len() - n, s.len() as int)
    }
}

/// A bounded record of the names of recently called tools, oldest first.
pub struct CallHistory {
    calls: VecDeque<String>,
}

impl View for CallHistory {
    type V = Seq<Seq<char>>;

    closed spec fn view(&self) -> Seq<Seq<char>> {
        self.calls@.map_values(|s: String| s@)
    }
}

impl CallHistory {
    /// The history holds no more than its capacity.
    pub open spec fn wf(&self) -> bool {
        self@.len() <= HISTORY_CAPACITY
    }

    /// An empty history.
    pub fn new() -> (r: CallHistory)
        ensures
            r@ == Seq::<Seq<char>>::empty(),
            r.wf(),
    {
        let r = CallHistory { calls: VecDeque::new() };
        assert(r@ =~= Seq::<Seq<char>>::empty());
        r
    }

    /// Appends `tool_name`, evicting the oldest entry when the history is full.
    pub fn record(&mut self, tool_name: &str)
        requires
            old(self).wf(),
        ensures
            final(self)@ == recorded(old(self)@, tool_name@),
            final(self).wf(),
    {
        let ghost before = self@;
        if self.calls.len() >= HISTORY_CAPACITY {
            self.calls.pop_front();
            assert(self@ =~= before.drop_first());
        }
        self.calls.push_back(String::from_str(tool_name));
        assert(self@ =~= recorded(before, tool_name@));
    }

    /// At most `limit` names, the most recent first.
    pub fn recent(&self, limit: usize) -> (r: Vec<String>)
        ensures
            r@.map_values(|s: String| s@) == newest_first(self@, limit as nat),
    {
        let n: usize = self.calls.len();
        let count: usize = if limit < n { limit } else { n };
        let mut r: Vec<String> = Vec::new();
        let mut i: usize = 0;
        while i < count
            invariant
                n == self.calls.len(),
                count <= n,
                count == (if (limit as nat) < self@.len() { limit as nat } else { self@.len() }),
                i <= count,
                r@.len() == i,
                forall|j: int| 0 <= j < i ==> #[trigger] r@[j]@ == self@[n - 1 - j],
            decreases count - i,
        {
            let s = self.calls[n - 1 - i].clone();
            r.push(s);
            i = i + 1;
        }
        assert(r@.map_values(|s: String| s@) =~= newest_first(self@, limit as nat));
        r
    }
}

/// Recording one more call extends the history that a sequence of calls
/// leaves by one `recorded` step: the history after `calls` then `name` is
/// what `CallHistory::record` makes of the history after `calls`.
pub proof fn lemma_history_after_push(calls: Seq<Seq<char>>, name: Seq<char>)
    ensures
        history_after(calls.push(name)) == recorded(history_after(calls), name),
{
    assert(calls.push(name).drop_last() =~= calls);
}

/// The history keeps exactly the last `HISTORY_CAPACITY` calls, whatever
/// calls were made, and reading back that many of them gives those calls,
/// the most recent first.
pub proof fn lemma_history_keeps_last_calls(calls: Seq<Seq<char>>)
    ensures
        history_after(calls) == last_n(calls, HISTORY_CAPACITY as nat),
        history_after(calls).len() <= HISTORY_CAPACITY,
        newest_first(history_after(calls), HISTORY_CAPACITY as nat)
            == last_n(calls, HISTORY_CAPACITY as nat).reverse(),
    decreases calls.len(),
{
    let cap = HISTORY_CAPACITY as nat;
    if calls.len() > 0 {
        let prev = calls.drop_last();
        lemma_history_keeps_last_calls(prev);
        assert(history_after(calls) =~= last_n(calls, cap));
    } else {
        assert(history_after(calls) =~= last_n(calls, cap));
    }
    let h = history_after(calls);
    assert(newest_first(h, cap) =~= h.reverse());
}

} // verus!
