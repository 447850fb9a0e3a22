//! Streamed completion chunks: accumulating their text deltas into one
//! growing reply, and picking what each throttled update shows.
use vstd::prelude::*;
use vstd::string::*;

verus! {

/// The increment a choice carries.
pub struct CompletionsMessageChunkDelta {
    pub content: Option<String>,
    pub role: Option<String>,
}

/// One choice of a chunk.
pub struct CompletionsMessageChunkChoise {
    pub delta: CompletionsMessageChunkDelta,
    pub finish_reason: Option<String>,
}

/// One decoded increment of a streamed completion.
pub struct CompletionsMessageChunk {
    pub id: String,
    pub choices: Vec<CompletionsMessageChunkChoise>,
}

/// Failures of a completion request as a whole.
#[derive(PartialEq, Eq, Structural, Clone, Copy, Debug)]
pub enum CompletionError {
    /// The service answered with a status other than success.
    UpstreamHttpError,
    /// Connecting or reading failed.
    NetworkError,
    /// A required secret is not configured.
    MissingCredential,
}

/// Whether an HTTP status is a success (2xx).
pub open spec fn is_success_status(status: u16) -> bool {
    200 <= status <= 299
}

/// Decides on the status of the initial response: streaming begins only on
/// success.
pub fn check_status(status: u16) -> (r: Result<(), CompletionError>)
    ensures
        r is Ok <==> is_success_status(status),
        r matches Err(e) ==> e == CompletionError::UpstreamHttpError,
{
    if 200 <= status && status <= 299 {
        Ok(())
    } else {
        Err(CompletionError::UpstreamHttpError)
    }
}

/// The non-empty text deltas of some choices, in order.
pub open spec fn choice_deltas(cs: Seq<CompletionsMessageChunkChoise>) -> Seq<Seq<char>>
    decreases cs.len(),
{
    if cs.len() == 0 {
        Seq::empty()
    } else {
        let d = choice_deltas(cs.drop_last());
        match cs.last().delta.content {
            Some(s) => if s@.len() > 0 {
                d.push(s@)
            } else {
                d
            },
            None => d,
        }
    }
}

/// The non-empty text deltas of some chunks, in order.
pub open spec fn chunk_deltas(cs: Seq<CompletionsMessageChunk>) -> Seq<Seq<char>>
    decreases cs.len(),
{
    if cs.len() == 0 {
        Seq::empty()
    } else {
        chunk_deltas(cs.drop_last()) + choice_deltas(cs.last().choices@)
    }
}

/// The snapshots of the running text, starting from `acc`, after each delta.
pub open spec fn snapshots(acc: Seq<char>, ds: Seq<Seq<char>>) -> Seq<Seq<char>>
    decreases ds.len(),
{
    if ds.len() == 0 {
        Seq::empty()
    } else {
        snapshots(acc, ds.drop_last()).push(acc + ds.flatten_alt())
    }
}

pub open spec fn strings_view(v: Seq<String>) -> Seq<Seq<char>> {
    v.map_values(|s: String| s@)
}

proof fn lemma_flatten_alt_add(a: Seq<Seq<char>>, b: Seq<Seq<char>>)
    ensures
        (a + b).flatten_alt() == a.flatten_alt() + b.flatten_alt(),
    decreases b.len(),
{
    if b.len() == 0 {
        assert(a + b =~= a);
        assert(a.flatten_alt() + b.flatten_alt() =~= a.flatten_alt());
    } else {
        lemma_flatten_alt_add(a, b.drop_last());
        assert((a + b).drop_last() =~= a + b.drop_last());
        assert((a + b).last() == b.last());
        assert(a.flatten_alt() + b.drop_last().flatten_alt() + b.last()
            =~= a.flatten_alt() + (b.drop_last().flatten_alt() + b.last()));
    }
}

proof fn lemma_snapshots_add(acc: Seq<char>, a: Seq<Seq<char>>, b: Seq<Seq<char>>)
    ensures
        snapshots(acc, a + b) == snapshots(acc, a) + snapshots(acc + a.flatten_alt(), b),
    decreases b.len(),
{
    if b.len() == 0 {
        assert(a + b =~= a);
        assert(snapshots(acc, a) + Seq::<Seq<char>>::empty() =~= snapshots(acc, a));
    } else {
        lemma_snapshots_add(acc, a, b.drop_last());
        assert((a + b).drop_last() =~= a + b.drop_last());
        lemma_flatten_alt_add(a, b);
        assert(acc + (a + b).flatten_alt() =~= (acc + a.flatten_alt()) + b.flatten_alt());
        assert(snapshots(acc, a) + snapshots(acc + a.flatten_alt(), b.drop_last()).push(
            (acc + a.flatten_alt()) + b.flatten_alt(),
        ) =~= (snapshots(acc, a) + snapshots(acc + a.flatten_alt(), b.drop_last())).push(
            (acc + a.flatten_alt()) + b.flatten_alt(),
        ));
    }
}

/// The running concatenation of every non-empty delta seen, owned by the
/// task that consumes the stream.
pub struct ContentAccumulator {
    content: String,
}

impl ContentAccumulator {
    pub closed spec fn view(&self) -> Seq<char> {
        self.content@
    }

    pub fn new() -> (r: Self)
        ensures
            r.view() == Seq::<char>::empty(),
    {
        ContentAccumulator { content: String::new() }
    }

    /// The text accumulated so far.
    pub fn content(&self) -> (r: String)
        ensures
            r@ == self.view(),
    {
        self.content.clone()
    }

    /// Appends the non-empty deltas of one chunk; returns a snapshot of the
    /// whole text after each of them.
    pub fn push_chunk(&mut self, chunk: &CompletionsMessageChunk) -> (r: Vec<String>)
        ensures
            final(self).view() == old(self).view() + choice_deltas(chunk.choices@).flatten_alt(),
            strings_view(r@) == snapshots(old(self).view(), choice_deltas(chunk.choices@)),
    {
        let ghost acc = self.content@;
        let mut out: Vec<String> = Vec::new();
        let mut i: usize = 0;
        while i < chunk.choices.len()
            invariant
                i <= chunk.choices@.len(),
                self.content@ == acc + choice_deltas(chunk.choices@.take(i as int)).flatten_alt(),
                strings_view(out@) == snapshots(acc, choice_deltas(chunk.choices@.take(i as int))),
            decreases chunk.choices@.len() - i,
        {
            let ghost cs = chunk.choices@.take(i as int + 1);
            proof {
                assert(cs.drop_last() =~= chunk.choices@.take(i as int));
                assert(cs.last() == chunk.choices@[i as int]);
            }
            let choice = &chunk.choices[i];
            match &choice.delta.content {
                Some(text) => {
                    if !text.as_str().is_empty() {
                        let ghost o = out@;
                        self.content.append(text.as_str());
                        out.push(self.content.clone());
                        proof {
                            let d = choice_deltas(chunk.choices@.take(i as int));
                            assert(choice_deltas(cs) == d.push(text@));
                            assert(d.push(text@).drop_last() =~= d);
                            assert(acc + d.flatten_alt() + text@ =~= acc + (d.flatten_alt() + text@));
                            assert(strings_view(out@) =~= strings_view(o).push(self.content@));
                        }
                    }
                },
                None => {},
            }
            i = i + 1;
        }
        proof {
            assert(chunk.choices@.take(i as int) =~= chunk.choices@);
        }
        out
    }

    /// Takes the chunks of one read of the stream; a read that failed adds
    /// nothing and does not end the accumulation.
    pub fn push_read(&mut self, read: Result<Vec<CompletionsMessageChunk>, CompletionError>) -> (r: Vec<String>)
        ensures
            read is Err ==> final(self).view() == old(self).view() && r@.len() == 0,
            read matches Ok(cs) ==> final(self).view() == old(self).view() + chunk_deltas(cs@).flatten_alt(),
            read matches Ok(cs) ==> strings_view(r@) == snapshots(old(self).view(), chunk_deltas(cs@)),
    {
        match read {
            Err(_) => Vec::new(),
            Ok(chunks) => {
                let ghost acc = self.content@;
                let mut out: Vec<String> = Vec::new();
                let mut i: usize = 0;
                while i < chunks.len()
                    invariant
                        i <= chunks@.len(),
                        self.content@ == acc + chunk_deltas(chunks@.take(i as int)).flatten_alt(),
                        strings_view(out@) == snapshots(acc, chunk_deltas(chunks@.take(i as int))),
                    decreases chunks@.len() - i,
                {
                    let ghost before = self.content@;
                    let ghost o = out@;
                    let mut snaps = self.push_chunk(&chunks[i]);
                    let ghost sv = snaps@;
                    out.append(&mut snaps);
                    proof {
                        let d0 = chunk_deltas(chunks@.take(i as int));
                        let d1 = choice_deltas(chunks@[i as int].choices@);
                        assert(chunks@.take(i as int + 1).drop_last() =~= chunks@.take(i as int));
                        assert(chunks@.take(i as int + 1).last() == chunks@[i as int]);
                        assert(chunk_deltas(chunks@.take(i as int + 1)) == d0 + d1);
                        lemma_flatten_alt_add(d0, d1);
                        lemma_snapshots_add(acc, d0, d1);
                        assert(acc + d0.flatten_alt() + d1.flatten_alt() =~= acc + (d0.flatten_alt() + d1.flatten_alt()));
                        assert(strings_view(out@) =~= strings_view(o) + strings_view(sv));
                    }
                    i = i + 1;
                }
                proof {
                    assert(chunks@.take(i as int) =~= chunks@);
                }
                out
            },
        }
    }
}

/// What an update shows for one batch of snapshots: the latest, if any.
pub open spec fn latest_of(b: Seq<Seq<char>>) -> Option<Seq<char>> {
    if b.len() == 0 {
        None
    } else {
        Some(b.last())
    }
}

/// The texts of the updates issued for a sequence of batches: the latest
/// snapshot of each, with empty batches dropped.
pub open spec fn update_texts_spec(bs: Seq<Seq<Seq<char>>>) -> Seq<Seq<char>>
    decreases bs.len(),
{
    if bs.len() == 0 {
        Seq::empty()
    } else {
        update_texts_spec(bs.drop_last()) + crate::window::opt_seq(latest_of(bs.last()))
    }
}

/// The snapshot an update shows for one batch: its last, if the batch is
/// not empty.
pub fn latest_snapshot(batch: &Vec<String>) -> (r: Option<String>)
    ensures
        match r {
            Some(s) => latest_of(strings_view(batch@)) == Some(s@),
            None => latest_of(strings_view(batch@)) is None,
        },
{
    let n = batch.len();
    if n == 0 {
        None
    } else {
        Some(batch[n - 1].clone())
    }
}

/// The texts of the updates for a sequence of batches, in order.
pub fn update_texts(batches: &Vec<Vec<String>>) -> (r: Vec<String>)
    ensures
        strings_view(r@) == update_texts_spec(batches@.map_values(|b: Vec<String>| strings_view(b@))),
{
    let ghost bv = batches@.map_values(|b: Vec<String>| strings_view(b@));
    let mut out: Vec<String> = Vec::new();
    let mut i: usize = 0;
    while i < batches.len()
        invariant
            i <= batches@.len(),
            bv == batches@.map_values(|b: Vec<String>| strings_view(b@)),
            strings_view(out@) == update_texts_spec(bv.take(i as int)),
        decreases batches@.len() - i,
    {
        let ghost o = out@;
        let l = latest_snapshot(&batches[i]);
        proof {
            assert(bv.take(i as int + 1).drop_last() =~= bv.take(i as int));
            assert(bv.take(i as int + 1).last() == bv[i as int]);
        }
        match l {
            Some(s) => {
                out.push(s);
                proof {
                    assert(strings_view(out@) =~= strings_view(o) + crate::window::opt_seq(latest_of(bv[i as int])));
                }
            },
            None => {
                proof {
                    assert(strings_view(out@) =~= strings_view(o) + crate::window::opt_seq(latest_of(bv[i as int])));
                }
            },
        }
        i = i + 1;
    }
    proof {
        assert(bv.take(i as int) =~= bv);
    }
    out
}

proof fn lemma_last_update(bs: Seq<Seq<Seq<char>>>)
    requires
        bs.flatten().len() > 0,
    ensures
        update_texts_spec(bs).len() > 0,
        update_texts_spec(bs).last() == bs.flatten().last(),
    decreases bs.len(),
{
    let init = bs.drop_last();
    assert(bs.len() > 0) by {
        if bs.len() == 0 {
            assert(bs.flatten() =~= Seq::<Seq<char>>::empty());
        }
    }
    assert(init.push(bs.last()) =~= bs);
    crate::window::lemma_flatten_push(init, bs.last());
    if bs.last().len() > 0 {
        assert(update_texts_spec(bs) == update_texts_spec(init).push(bs.last().last()));
    } else {
        assert(bs.flatten() =~= init.flatten());
        lemma_last_update(init);
        assert(update_texts_spec(bs) =~= update_texts_spec(init));
    }
}

/// The final update: however timer ticks interleave with a stream of
/// snapshots that is not empty, the updates issued are not empty and the
/// last of them shows the last snapshot, the fully accumulated text.
pub proof fn law_final_update(ev: Seq<crate::window::BufferEvent<Seq<char>>>, snaps: Seq<Seq<char>>)
    requires
        crate::window::ticked_merge(ev, crate::window::source_tail(snaps)),
        snaps.len() > 0,
    ensures
        update_texts_spec(crate::window::window_run(crate::window::initial_window(), ev).1).len() > 0,
        update_texts_spec(crate::window::window_run(crate::window::initial_window(), ev).1).last() == snaps.last(),
{
    crate::window::law_no_loss_no_duplication(ev, snaps);
    lemma_last_update(crate::window::window_run(crate::window::initial_window(), ev).1);
}

} // verus!
