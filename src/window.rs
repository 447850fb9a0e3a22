//! Periodic windowing of a value stream: values are batched and released at
//! most once per timer period, plus one final batch when the source ends.
use vstd::prelude::*;

verus! {

/// One event seen by the window: a value of the source, a flush (from the
/// timer or from the end of the source), or the end of the whole sequence.
pub enum BufferEvent<V> {
    Item(V),
    Flush,
    Completion,
}

/// Abstract state of the window: the values not yet released, and whether
/// the sequence has ended.
pub ghost struct WindowState<V> {
    pub pending: Seq<V>,
    pub finished: bool,
}

pub open spec fn initial_window<V>() -> WindowState<V> {
    WindowState { pending: Seq::empty(), finished: false }
}

/// One event: the next state, and the batch released, if any.
pub open spec fn window_step<V>(s: WindowState<V>, e: BufferEvent<V>) -> (WindowState<V>, Option<Seq<V>>) {
    if s.finished {
        (s, None)
    } else {
        match e {
            BufferEvent::Item(v) => (WindowState { pending: s.pending.push(v), finished: false }, None),
            BufferEvent::Flush => (WindowState { pending: Seq::empty(), finished: false }, Some(s.pending)),
            BufferEvent::Completion => (WindowState { pending: s.pending, finished: true }, None),
        }
    }
}

pub open spec fn opt_seq<T>(o: Option<T>) -> Seq<T> {
    match o {
        Some(x) => seq![x],
        None => Seq::empty(),
    }
}

/// Runs the window over `ev` from state `s`: the final state, and the
/// batches released, in order.
pub open spec fn window_run<V>(s: WindowState<V>, ev: Seq<BufferEvent<V>>) -> (WindowState<V>, Seq<Seq<V>>)
    decreases ev.len(),
{
    if ev.len() == 0 {
        (s, Seq::empty())
    } else {
        let (s1, out) = window_run(s, ev.drop_last());
        let (s2, o) = window_step(s1, ev.last());
        (s2, out + opt_seq(o))
    }
}

/// The source's events followed by the synthetic tail: a flush, then the end.
pub open spec fn source_tail<V>(items: Seq<V>) -> Seq<BufferEvent<V>> {
    items.map_values(|v: V| BufferEvent::Item(v)) + seq![BufferEvent::Flush, BufferEvent::Completion]
}

/// `ev` is `src` with timer flushes inserted anywhere.
pub open spec fn ticked_merge<V>(ev: Seq<BufferEvent<V>>, src: Seq<BufferEvent<V>>) -> bool
    decreases ev.len(),
{
    if ev.len() == 0 {
        src.len() == 0
    } else {
        ||| (ev.last() is Flush && ticked_merge(ev.drop_last(), src))
        ||| (src.len() > 0 && ev.last() == src.last() && ticked_merge(ev.drop_last(), src.drop_last()))
    }
}

/// A source that ends without any timer tick gives exactly one batch,
/// holding every value in order.
pub proof fn law_single_burst<V>(items: Seq<V>)
    ensures
        window_run(initial_window(), source_tail(items)).1 == seq![items],
        window_run(initial_window(), source_tail(items)).0.finished,
{
    lemma_run_source(items);
}

proof fn lemma_run_source<V>(items: Seq<V>)
    ensures
        window_run(initial_window(), source_tail(items))
            == (WindowState { pending: Seq::<V>::empty(), finished: true }, seq![items]),
{
    let ev = source_tail(items);
    let n = items.len() as int;
    lemma_run_items(items, n);
    assert(items.take(n) =~= items);
    assert(ev[n] is Flush);
    assert(ev[n + 1] is Completion);
    assert(ev.take(n + 1).drop_last() =~= ev.take(n));
    assert(ev.take(n + 1).last() == ev[n]);
    let r1 = window_run(initial_window(), ev.take(n + 1));
    assert(r1.0 == WindowState { pending: Seq::<V>::empty(), finished: false });
    assert(r1.1 =~= seq![items]);
    assert(ev.take(n + 2).drop_last() =~= ev.take(n + 1));
    assert(ev.take(n + 2).last() == ev[n + 1]);
    assert(ev.take(n + 2) =~= ev);
    let r2 = window_run(initial_window(), ev.take(n + 2));
    assert(r2.1 =~= seq![items]);
}

proof fn lemma_run_items<V>(items: Seq<V>, k: int)
    requires
        0 <= k <= items.len(),
    ensures
        window_run(initial_window(), source_tail(items).take(k))
            == (WindowState { pending: items.take(k), finished: false }, Seq::<Seq<V>>::empty()),
    decreases k,
{
    let ev = source_tail(items);
    if k == 0 {
        assert(items.take(0) =~= Seq::<V>::empty());
    } else {
        lemma_run_items(items, k - 1);
        assert(ev.take(k).drop_last() =~= ev.take(k - 1));
        assert(items.take(k - 1).push(items[k - 1]) =~= items.take(k));
        assert(Seq::<Seq<V>>::empty() + Seq::<Seq<V>>::empty() =~= Seq::<Seq<V>>::empty());
    }
}

/// With nothing pending, a flush still releases a batch, the empty one.
pub proof fn law_idle_flush<V>(s: WindowState<V>)
    requires
        !s.finished,
        s.pending.len() == 0,
    ensures
        window_step(s, BufferEvent::Flush).1 == Some(Seq::<V>::empty()),
{
    assert(s.pending =~= Seq::<V>::empty());
}

proof fn lemma_merge_conserves<V>(ev: Seq<BufferEvent<V>>, src: Seq<BufferEvent<V>>)
    requires
        ticked_merge(ev, src),
    ensures
        ({
            let (se, oe) = window_run(initial_window(), ev);
            let (ss, os) = window_run(initial_window(), src);
            &&& se.finished == ss.finished
            &&& exists|x: Seq<V>| ss.pending == x + se.pending && oe.flatten() == os.flatten() + x
        }),
    decreases ev.len(),
{
    let (se, oe) = window_run(initial_window(), ev);
    let (ss, os) = window_run(initial_window(), src);
    if ev.len() == 0 {
        assert(ss.pending == Seq::<V>::empty() + se.pending);
        assert(oe.flatten() =~= os.flatten() + Seq::<V>::empty());
    } else if ev.last() is Flush && ticked_merge(ev.drop_last(), src) {
        lemma_merge_conserves(ev.drop_last(), src);
        let (pe, poe) = window_run(initial_window(), ev.drop_last());
        let x = choose|x: Seq<V>| ss.pending == x + pe.pending && poe.flatten() == os.flatten() + x;
        if pe.finished {
            assert(ss.pending == x + se.pending);
            assert(oe =~= poe + Seq::<Seq<V>>::empty());
        } else {
            let x2 = x + pe.pending;
            assert(ss.pending =~= x2 + se.pending);
            lemma_flatten_push(poe, pe.pending);
            assert(oe =~= poe.push(pe.pending));
            assert(oe.flatten() =~= os.flatten() + x2);
        }
    } else {
        lemma_merge_conserves(ev.drop_last(), src.drop_last());
        let (pe, poe) = window_run(initial_window(), ev.drop_last());
        let (ps, pos) = window_run(initial_window(), src.drop_last());
        let x = choose|x: Seq<V>| ps.pending == x + pe.pending && poe.flatten() == pos.flatten() + x;
        if pe.finished {
            assert(ss == ps);
            assert(os =~= pos + Seq::<Seq<V>>::empty());
            assert(oe =~= poe + Seq::<Seq<V>>::empty());
            assert(ss.pending == x + se.pending);
        } else {
            match ev.last() {
                BufferEvent::Item(v) => {
                    assert(ss.pending =~= x + se.pending);
                    assert(os =~= pos + Seq::<Seq<V>>::empty());
                    assert(oe =~= poe + Seq::<Seq<V>>::empty());
                },
                BufferEvent::Flush => {
                    lemma_flatten_push(poe, pe.pending);
                    lemma_flatten_push(pos, ps.pending);
                    assert(oe =~= poe.push(pe.pending));
                    assert(os =~= pos.push(ps.pending));
                    assert(ss.pending =~= Seq::<V>::empty());
                    assert(se.pending =~= Seq::<V>::empty());
                    assert(ss.pending =~= Seq::<V>::empty() + se.pending);
                    assert(oe.flatten() =~= os.flatten() + Seq::<V>::empty());
                },
                BufferEvent::Completion => {
                    assert(ss.pending == x + se.pending);
                    assert(os =~= pos + Seq::<Seq<V>>::empty());
                    assert(oe =~= poe + Seq::<Seq<V>>::empty());
                },
            }
        }
    }
}

pub proof fn lemma_flatten_push<V>(s: Seq<Seq<V>>, b: Seq<V>)
    ensures
        s.push(b).flatten() == s.flatten() + b,
    decreases s.len(),
{
    if s.len() == 0 {
        assert(s.push(b).drop_first() =~= Seq::<Seq<V>>::empty());
        assert(s.push(b).drop_first().flatten() =~= Seq::<V>::empty());
        assert(s.push(b).first() == b);
        assert(s.push(b).flatten() =~= b);
        assert(s.flatten() + b =~= b);
    } else {
        lemma_flatten_push(s.drop_first(), b);
        assert(s.push(b).drop_first() =~= s.drop_first().push(b));
        assert(s.push(b).flatten() =~= s.flatten() + b);
    }
}

/// However timer flushes interleave with a source and its synthetic tail,
/// the sequence ends, with nothing left pending, and the batches released,
/// joined, are exactly the source's values in order: none lost, none
/// repeated.
pub proof fn law_no_loss_no_duplication<V>(ev: Seq<BufferEvent<V>>, items: Seq<V>)
    requires
        ticked_merge(ev, source_tail(items)),
    ensures
        window_run(initial_window(), ev).0.finished,
        window_run(initial_window(), ev).0.pending.len() == 0,
        window_run(initial_window(), ev).1.flatten() == items,
{
    lemma_run_source(items);
    lemma_merge_conserves(ev, source_tail(items));
    let (ss, os) = window_run(initial_window(), source_tail(items));
    lemma_flatten_push(Seq::<Seq<V>>::empty(), items);
    assert(seq![items] =~= Seq::<Seq<V>>::empty().push(items));
    assert(Seq::<Seq<V>>::empty().flatten() =~= Seq::<V>::empty());
    let (se, oe) = window_run(initial_window(), ev);
    let x = choose|x: Seq<V>| ss.pending == x + se.pending && oe.flatten() == os.flatten() + x;
    assert(x.len() + se.pending.len() == 0);
    assert(x =~= Seq::<V>::empty());
    assert(oe.flatten() =~= items);
}

pub open spec fn opt_view<V>(o: Option<Vec<V>>) -> Option<Seq<V>> {
    match o {
        Some(b) => Some(b@),
        None => None,
    }
}

/// The views of a sequence of batches.
pub open spec fn batches_view<V>(b: Seq<Vec<V>>) -> Seq<Seq<V>> {
    b.map_values(|x: Vec<V>| x@)
}

/// The state of one windowing pass: the values received since the last
/// flush. Owned by the single task that drives the pass.
pub struct WindowBuffer<V> {
    pending: Vec<V>,
    finished: bool,
}

impl<V> WindowBuffer<V> {
    pub closed spec fn view(&self) -> WindowState<V> {
        WindowState { pending: self.pending@, finished: self.finished }
    }

    pub fn new() -> (r: Self)
        ensures
            r.view() == initial_window::<V>(),
    {
        WindowBuffer { pending: Vec::new(), finished: false }
    }

    /// Whether a completion has been seen: the pass then releases nothing more.
    pub fn is_finished(&self) -> (r: bool)
        ensures
            r == self.view().finished,
    {
        self.finished
    }

    /// Handles one event. A value is held back; a flush releases everything
    /// held, possibly nothing, as one batch; a completion ends the pass.
    pub fn on_event(&mut self, e: BufferEvent<V>) -> (r: Option<Vec<V>>)
        ensures
            (final(self).view(), opt_view(r))
                == window_step(old(self).view(), e),
    {
        if self.finished {
            return None;
        }
        match e {
            BufferEvent::Item(v) => {
                self.pending.push(v);
                None
            },
            BufferEvent::Flush => {
                let mut batch = Vec::with_capacity(self.pending.len());
                std::mem::swap(&mut batch, &mut self.pending);
                proof {
                    assert(self.pending@ =~= Seq::<V>::empty());
                }
                Some(batch)
            },
            BufferEvent::Completion => {
                self.finished = true;
                None
            },
        }
    }
}

/// The events of a source, followed by the synthetic flush and completion.
pub fn source_events<V>(items: Vec<V>) -> (r: Vec<BufferEvent<V>>)
    ensures
        r@ == source_tail(items@),
{
    let ghost all = items@;
    let mut rest = items;
    let mut r: Vec<BufferEvent<V>> = Vec::new();
    while rest.len() > 0
        invariant
            rest@ == all.subrange(r@.len() as int, all.len() as int),
            r@.len() <= all.len(),
            r@ == all.take(r@.len() as int).map_values(|v: V| BufferEvent::Item(v)),
        decreases rest@.len(),
    {
        let ghost k = r@.len() as int;
        let v = rest.remove(0);
        r.push(BufferEvent::Item(v));
        proof {
            assert(all.take(k + 1) =~= all.take(k).push(all[k]));
            assert(r@ =~= all.take(k + 1).map_values(|v: V| BufferEvent::Item(v)));
            assert(rest@ =~= all.subrange(k + 1, all.len() as int));
        }
    }
    r.push(BufferEvent::Flush);
    r.push(BufferEvent::Completion);
    proof {
        assert(all.take(all.len() as int) =~= all);
        assert(r@ =~= source_tail(all));
    }
    r
}

/// Runs one windowing pass over an already merged sequence of events and
/// returns the batches it releases, in order.
pub fn window_batches<V>(events: Vec<BufferEvent<V>>) -> (r: Vec<Vec<V>>)
    ensures
        batches_view(r@) == window_run(initial_window::<V>(), events@).1,
{
    let ghost all = events@;
    let mut rest = events;
    let mut w: WindowBuffer<V> = WindowBuffer::new();
    let mut r: Vec<Vec<V>> = Vec::new();
    let mut i: usize = 0;
    let n = rest.len();
    while rest.len() > 0
        invariant
            n == all.len(),
            i <= all.len(),
            rest@ == all.subrange(i as int, all.len() as int),
            (w.view(), batches_view(r@)) == window_run(initial_window::<V>(), all.take(i as int)),
        decreases rest@.len(),
    {
        let e = rest.remove(0);
        let ghost r0 = r@;
        let o = w.on_event(e);
        let ghost ov = opt_view(o);
        match o {
            Some(b) => {
                r.push(b);
            },
            None => {},
        }
        proof {
            assert(all.take(i as int + 1).drop_last() =~= all.take(i as int));
            assert(all.take(i as int + 1).last() == all[i as int]);
            assert(batches_view(r@) =~= batches_view(r0) + opt_seq(ov));
            assert(rest@ =~= all.subrange(i as int + 1, all.len() as int));
        }
        i = i + 1;
    }
    proof {
        assert(all.take(i as int) =~= all);
    }
    r
}

} // verus!
