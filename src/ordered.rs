//! Putting results that complete in any order back into the order of their ids.
use std::collections::HashMap;
use vstd::prelude::*;

verus! {

broadcast use vstd::std_specs::hash::group_hash_axioms;

/// What an id contributes to the output: its line, or nothing.
pub open spec fn text_of(entry: Option<Seq<char>>) -> Seq<Seq<char>> {
    match entry {
        Some(s) => seq![s],
        None => Seq::empty(),
    }
}

/// How many ids from `from` on are buffered one after another.
pub open spec fn run_len(buf: Map<usize, Option<Seq<char>>>, from: nat) -> nat
    decreases usize::MAX - from,
{
    if from < usize::MAX && buf.contains_key(from as usize) {
        1 + run_len(buf, from + 1)
    } else {
        0
    }
}

/// The lines of the `n` buffered ids from `from` on, in order.
pub open spec fn run_text(buf: Map<usize, Option<Seq<char>>>, from: nat, n: nat) -> Seq<Seq<char>>
    decreases n,
{
    if n == 0 {
        Seq::empty()
    } else {
        run_text(buf, from, (n - 1) as nat) + text_of(buf[(from + n - 1) as usize])
    }
}

/// The ids `lo <= i < hi`.
pub open spec fn id_range(lo: nat, hi: nat) -> Set<usize> {
    Set::new(|i: usize| lo <= i < hi)
}

/// Buffer, cursor and emitted lines after the contiguous run at the cursor
/// has been written out.
pub open spec fn after_flush(buf: Map<usize, Option<Seq<char>>>, cur: nat) -> (
    Map<usize, Option<Seq<char>>>,
    nat,
    Seq<Seq<char>>,
) {
    let k = run_len(buf, cur);
    (buf.remove_keys(id_range(cur, cur + k)), cur + k, run_text(buf, cur, k))
}

/// Buffer, cursor and emitted lines after the result for `id` arrives: it is
/// buffered, and when it is the one the cursor waits for, the run that it
/// starts is written out.
pub open spec fn deliver(
    buf: Map<usize, Option<Seq<char>>>,
    cur: nat,
    id: usize,
    entry: Option<Seq<char>>,
) -> (Map<usize, Option<Seq<char>>>, nat, Seq<Seq<char>>) {
    let b = buf.insert(id, entry);
    if id == cur {
        after_flush(b, cur)
    } else {
        (b, cur, Seq::empty())
    }
}

/// The lines of the ids below `n` that are buffered, in order of id.
pub open spec fn buffered_text(buf: Map<usize, Option<Seq<char>>>, n: nat) -> Seq<Seq<char>>
    decreases n,
{
    if n == 0 {
        Seq::empty()
    } else {
        let prev = buffered_text(buf, (n - 1) as nat);
        if buf.contains_key((n - 1) as usize) {
            prev + text_of(buf[(n - 1) as usize])
        } else {
            prev
        }
    }
}

pub open spec fn entry_view(e: Option<String>) -> Option<Seq<char>> {
    match e {
        Some(s) => Some(s@),
        None => None,
    }
}

pub open spec fn lines_view(out: Seq<String>) -> Seq<Seq<char>> {
    out.map_values(|s: String| s@)
}

/// Holds per-id results until every smaller id has been written out.
pub struct OrderedWriter {
    buf: HashMap<usize, Option<String>>,
    current: usize,
    end: usize,
}

impl OrderedWriter {
    /// The buffered results, by id.
    pub closed spec fn buffered(&self) -> Map<usize, Option<Seq<char>>> {
        self.buf@.map_values(|e: Option<String>| entry_view(e))
    }

    /// The id whose result is written next.
    pub closed spec fn cursor(&self) -> nat {
        self.current as nat
    }

    /// One more than the largest id received, or 0.
    pub closed spec fn limit(&self) -> nat {
        self.end as nat
    }

    /// Every buffered id is below the limit.
    pub open spec fn wf(&self) -> bool {
        forall|i: usize| #[trigger] self.buffered().contains_key(i) ==> i < self.limit()
    }

    pub fn new() -> (r: Self)
        ensures
            r.wf(),
            r.buffered() == Map::<usize, Option<Seq<char>>>::empty(),
            r.cursor() == 0,
            r.limit() == 0,
    {
        let r = OrderedWriter { buf: HashMap::new(), current: 0, end: 0 };
        assert(r.buffered() =~= Map::<usize, Option<Seq<char>>>::empty());
        r
    }

    proof fn lemma_run_step(buf: Map<usize, Option<Seq<char>>>, from: nat)
        ensures
            from < usize::MAX && buf.contains_key(from as usize) ==> run_len(buf, from) == 1
                + run_len(buf, from + 1),
            !(from < usize::MAX && buf.contains_key(from as usize)) ==> run_len(buf, from) == 0,
    {
    }

    /// Writes out the contiguous run of results at the cursor.
    fn flush(&mut self) -> (out: Vec<String>)
        requires
            old(self).wf(),
        ensures
            final(self).wf(),
            final(self).limit() == old(self).limit(),
            (final(self).buffered(), final(self).cursor(), lines_view(out@)) == after_flush(
                old(self).buffered(),
                old(self).cursor(),
            ),
    {
        let ghost b0 = self.buffered();
        let ghost c0 = self.current as nat;
        let mut out: Vec<String> = Vec::new();
        assert(b0.remove_keys(id_range(c0, c0)) =~= b0);
        loop
            invariant
                self.wf(),
                self.end == old(self).end,
                c0 <= self.current,
                self.buffered() == b0.remove_keys(id_range(c0, self.current as nat)),
                run_len(b0, c0) == (self.current - c0) + run_len(b0, self.current as nat),
                lines_view(out@) == run_text(b0, c0, (self.current - c0) as nat),
            ensures
                run_len(b0, self.current as nat) == 0,
            decreases usize::MAX - self.current,
        {
            let ghost cur = self.current as nat;
            proof {
                Self::lemma_run_step(b0, cur);
            }
            if self.current == usize::MAX {
                assert(run_len(b0, cur) == 0);
                break;
            }
            let ghost before = self.buf@;
            let ghost bb = self.buffered();
            let ghost out_before = out@;
            match self.buf.remove(&self.current) {
                None => {
                    assert(self.buf@ =~= before);
                    assert(!bb.contains_key(self.current));
                    assert(!id_range(c0, cur).contains(self.current));
                    assert(!b0.contains_key(self.current));
                    assert(run_len(b0, cur) == 0);
                    break;
                },
                Some(entry) => {
                    assert(before.contains_key(self.current) && before[self.current] == entry);
                    assert(bb[self.current] == entry_view(before[self.current]));
                    assert(bb.contains_key(self.current));
                    assert(!id_range(c0, cur).contains(self.current));
                    assert(b0.contains_key(self.current));
                    assert(b0[self.current] == entry_view(entry));
                    if let Some(line) = entry {
                        out.push(line);
                    }
                    proof {
                        assert(lines_view(out@) =~= lines_view(out_before) + text_of(
                            b0[self.current],
                        ));
                    }
                    let ghost key = self.current;
                    assert(self.buf@ == before.remove(key));
                    assert(self.buffered() =~= bb.remove(key));
                    self.current = self.current + 1;
                    assert(self.buffered() =~= b0.remove_keys(id_range(c0, self.current as nat)));
                },
            }
        }
        out
    }

    /// Buffers the line for `id`; returns the lines that are now due, in order.
    pub fn write(&mut self, id: usize, s: String) -> (out: Vec<String>)
        requires
            old(self).wf(),
            id < usize::MAX,
        ensures
            final(self).wf(),
            final(self).limit() == if id < old(self).limit() {
                old(self).limit()
            } else {
                (id + 1) as nat
            },
            (final(self).buffered(), final(self).cursor(), lines_view(out@)) == deliver(
                old(self).buffered(),
                old(self).cursor(),
                id,
                Some(s@),
            ),
    {
        self.receive(id, Some(s))
    }

    /// Records that `id` has no line; returns the lines that are now due, in order.
    pub fn skip(&mut self, id: usize) -> (out: Vec<String>)
        requires
            old(self).wf(),
            id < usize::MAX,
        ensures
            final(self).wf(),
            final(self).limit() == if id < old(self).limit() {
                old(self).limit()
            } else {
                (id + 1) as nat
            },
            (final(self).buffered(), final(self).cursor(), lines_view(out@)) == deliver(
                old(self).buffered(),
                old(self).cursor(),
                id,
                None,
            ),
    {
        self.receive(id, None)
    }

    fn receive(&mut self, id: usize, entry: Option<String>) -> (out: Vec<String>)
        requires
            old(self).wf(),
            id < usize::MAX,
        ensures
            final(self).wf(),
            final(self).limit() == if id < old(self).limit() {
                old(self).limit()
            } else {
                (id + 1) as nat
            },
            (final(self).buffered(), final(self).cursor(), lines_view(out@)) == deliver(
                old(self).buffered(),
                old(self).cursor(),
                id,
                entry_view(entry),
            ),
    {
        let ghost e = entry_view(entry);
        self.buf.insert(id, entry);
        if id >= self.end {
            self.end = id + 1;
        }
        assert(self.buffered() =~= old(self).buffered().insert(id, e));
        if id == self.current {
            self.flush()
        } else {
            Vec::new()
        }
    }

    /// Writes out every buffered line, in order of id, whether or not the ids
    /// before it have arrived.
    pub fn flush_all(&mut self) -> (out: Vec<String>)
        requires
            old(self).wf(),
        ensures
            final(self).wf(),
            final(self).buffered() == Map::<usize, Option<Seq<char>>>::empty(),
            final(self).cursor() == old(self).cursor(),
            lines_view(out@) == buffered_text(old(self).buffered(), old(self).limit()),
    {
        let ghost b0 = self.buffered();
        let mut out: Vec<String> = Vec::new();
        let mut id: usize = 0;
        while id < self.end
            invariant
                old(self).wf(),
                b0 == old(self).buffered(),
                self.end == old(self).end,
                self.current == old(self).current,
                id <= self.end,
                self.buffered() == b0.remove_keys(id_range(0, id as nat)),
                lines_view(out@) == buffered_text(b0, id as nat),
            decreases self.end - id,
        {
            let ghost out_before = out@;
            let ghost before = self.buf@;
            let ghost bb = self.buffered();
            match self.buf.remove(&id) {
                None => {
                    assert(self.buf@ =~= before);
                    assert(!bb.contains_key(id));
                    assert(!b0.contains_key(id));
                },
                Some(entry) => {
                    assert(before.contains_key(id) && before[id] == entry);
                    assert(bb[id] == entry_view(before[id]));
                    assert(bb.contains_key(id));
                    assert(!id_range(0, id as nat).contains(id));
                    assert(b0.contains_key(id));
                    assert(b0[id] == entry_view(entry));
                    if let Some(line) = entry {
                        out.push(line);
                    }
                    assert(lines_view(out@) =~= lines_view(out_before) + text_of(b0[id]));
                },
            }
            assert(self.buf@ == before.remove(id));
            assert(self.buffered() =~= bb.remove(id));
            id = id + 1;
            assert(self.buffered() =~= b0.remove_keys(id_range(0, id as nat)));
        }
        assert(self.buffered() =~= Map::<usize, Option<Seq<char>>>::empty());
        out
    }
}

/// The lines of `results`, in order of id.
pub open spec fn in_order(results: Seq<Option<Seq<char>>>) -> Seq<Seq<char>>
    decreases results.len(),
{
    if results.len() == 0 {
        Seq::empty()
    } else {
        in_order(results.drop_last()) + text_of(results.last())
    }
}

/// A new writer after the results for `order[0]`, ..., `order[j - 1]` have
/// arrived, in that order: its buffer, its cursor, and every line it wrote.
pub open spec fn deliver_upto(order: Seq<usize>, results: Seq<Option<Seq<char>>>, j: nat) -> (
    Map<usize, Option<Seq<char>>>,
    nat,
    Seq<Seq<char>>,
)
    decreases j,
{
    if j == 0 {
        (Map::empty(), 0, Seq::empty())
    } else {
        let (b, c, o) = deliver_upto(order, results, (j - 1) as nat);
        let id = order[j - 1];
        let (b2, c2, o2) = deliver(b, c, id, results[id as int]);
        (b2, c2, o + o2)
    }
}

/// `order` lists each id below `n` exactly once.
pub open spec fn is_arrival_order(order: Seq<usize>, n: nat) -> bool {
    &&& order.len() == n
    &&& order.no_duplicates()
    &&& forall|t: int| 0 <= t < order.len() ==> #[trigger] order[t] < n
    &&& forall|i: usize| i < n ==> #[trigger] order.contains(i)
}

pub open spec fn arrived(order: Seq<usize>, j: nat, i: usize) -> bool {
    exists|t: int| 0 <= t < j && order[t] == i
}

proof fn lemma_in_order_concat(a: Seq<Option<Seq<char>>>, b: Seq<Option<Seq<char>>>)
    ensures
        in_order(a + b) == in_order(a) + in_order(b),
    decreases b.len(),
{
    if b.len() == 0 {
        assert(a + b =~= a);
        assert(in_order(a) + in_order(b) =~= in_order(a));
    } else {
        lemma_in_order_concat(a, b.drop_last());
        assert((a + b).drop_last() =~= a + b.drop_last());
        assert((a + b).last() == b.last());
        assert(in_order(a + b) =~= in_order(a) + in_order(b));
    }
}

proof fn lemma_run_facts(buf: Map<usize, Option<Seq<char>>>, from: nat)
    requires
        from <= usize::MAX,
    ensures
        forall|i: usize|
            from <= i < from + run_len(buf, from) ==> #[trigger] buf.contains_key(i),
        from + run_len(buf, from) <= usize::MAX,
        from + run_len(buf, from) < usize::MAX ==> !buf.contains_key(
            (from + run_len(buf, from)) as usize,
        ),
    decreases usize::MAX - from,
{
    if from < usize::MAX && buf.contains_key(from as usize) {
        lemma_run_facts(buf, from + 1);
    }
}

proof fn lemma_run_text(
    buf: Map<usize, Option<Seq<char>>>,
    results: Seq<Option<Seq<char>>>,
    from: nat,
    n: nat,
)
    requires
        from + n <= results.len() < usize::MAX,
        forall|i: usize|
            from <= i < from + n ==> #[trigger] buf.contains_key(i) && buf[i] == results[i as int],
    ensures
        run_text(buf, from, n) == in_order(results.subrange(from as int, (from + n) as int)),
    decreases n,
{
    if n > 0 {
        lemma_run_text(buf, results, from, (n - 1) as nat);
        let last = (from + n - 1) as usize;
        assert(from <= last < from + n);
        assert(buf.contains_key(last));
        assert(results.subrange(from as int, (from + n) as int).drop_last() =~= results.subrange(
            from as int,
            from + n - 1,
        ));
    }
}

proof fn lemma_deliver_upto(order: Seq<usize>, results: Seq<Option<Seq<char>>>, j: nat)
    requires
        is_arrival_order(order, results.len()),
        results.len() < usize::MAX,
        j <= order.len(),
    ensures
        ({
            let (b, c, o) = deliver_upto(order, results, j);
            &&& c <= results.len()
            &&& forall|i: usize| i < c ==> arrived(order, j, i)
            &&& c < results.len() ==> !arrived(order, j, c as usize)
            &&& forall|i: usize| #[trigger]
                b.contains_key(i) <==> (arrived(order, j, i) && i >= c)
            &&& forall|i: usize| #[trigger] b.contains_key(i) ==> b[i] == results[i as int]
            &&& o == in_order(results.subrange(0, c as int))
        }),
    decreases j,
{
    let n = results.len();
    if j == 0 {
        assert(results.subrange(0, 0) =~= Seq::<Option<Seq<char>>>::empty());
    } else {
        let jp = (j - 1) as nat;
        lemma_deliver_upto(order, results, jp);
        let (b, c, o) = deliver_upto(order, results, jp);
        let id = order[jp as int];
        let r = results[id as int];
        assert(id < n);
        assert(!arrived(order, jp, id)) by {
            if arrived(order, jp, id) {
                let t = choose|t: int| 0 <= t < jp && order[t] == id;
                assert(order[t] == order[jp as int]);
            }
        }
        assert forall|i: usize| arrived(order, j, i) <==> (arrived(order, jp, i) || i == id) by {
            if arrived(order, j, i) && i != id {
                let t = choose|t: int| 0 <= t < j && order[t] == i;
                assert(t < jp);
            }
            if i == id {
                assert(order[jp as int] == i);
            }
        }
        let b1 = b.insert(id, r);
        if id != c {
            assert(id >= c) by {
                if id < c {
                    assert(arrived(order, jp, id));
                }
            }
            assert(deliver_upto(order, results, j) == (b1, c, o + Seq::<Seq<char>>::empty()));
            assert(o + Seq::<Seq<char>>::empty() =~= o);
        } else {
            let k = run_len(b1, c);
            lemma_run_facts(b1, c);
            let c2 = c + k;
            let b2 = b1.remove_keys(id_range(c, c2));
            assert(deliver_upto(order, results, j) == (b2, c2, o + run_text(b1, c, k)));
            assert forall|i: usize| #[trigger] b1.contains_key(i) ==> i < n by {
                if b1.contains_key(i) && i != id {
                    assert(b.contains_key(i));
                    let t = choose|t: int| 0 <= t < jp && order[t] == i;
                }
            }
            if k > 0 {
                let top = (c2 - 1) as nat;
                assert(c <= top < c2);
                assert(b1.contains_key(top as usize));
            }
            assert(c2 <= n);
            assert forall|i: usize| i < c2 implies arrived(order, j, i) by {
                if i >= c {
                    assert(b1.contains_key(i));
                }
            }
            if c2 < n {
                assert(!b1.contains_key(c2 as usize));
            }
            assert forall|i: usize| #[trigger] b1.contains_key(i) implies b1[i] == results[i as int] by {
                if i != id {
                    assert(b.contains_key(i));
                }
            }
            lemma_run_text(b1, results, c, k);
            lemma_in_order_concat(results.subrange(0, c as int), results.subrange(c as int, c2 as int));
            assert(results.subrange(0, c as int) + results.subrange(c as int, c2 as int)
                =~= results.subrange(0, c2 as int));
        }
    }
}

/// Whatever order the results for the ids below `n` arrive in, the writer
/// writes the lines of those ids in ascending order of id, and holds nothing
/// back once all have arrived. A run on one worker and a run on many give the
/// same output.
pub proof fn lemma_arrival_order_is_invisible(order: Seq<usize>, results: Seq<Option<Seq<char>>>)
    requires
        is_arrival_order(order, results.len()),
        results.len() < usize::MAX,
    ensures
        deliver_upto(order, results, order.len()) == (
            Map::<usize, Option<Seq<char>>>::empty(),
            results.len(),
            in_order(results),
        ),
{
    let n = results.len();
    lemma_deliver_upto(order, results, n);
    let (b, c, o) = deliver_upto(order, results, n);
    if c < n {
        assert(order.contains(c as usize));
        let t = choose|t: int| 0 <= t < order.len() && order[t] == c as usize;
        assert(arrived(order, n, c as usize));
    }
    assert(c == n);
    assert forall|i: usize| !b.contains_key(i) by {
        if b.contains_key(i) {
            let t = choose|t: int| 0 <= t < n && order[t] == i;
            assert(order[t] < n);
        }
    }
    assert(b =~= Map::<usize, Option<Seq<char>>>::empty());
    assert(results.subrange(0, n as int) =~= results);
}

} // verus!
