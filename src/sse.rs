//! Framing of a streamed completion body: raw reads are cut into lines, with
//! a partial line carried over to the next read, and `data: ` lines give the
//! payloads of the chunks.
use vstd::prelude::*;

verus! {

pub open spec fn newline() -> u8 {
    10u8
}

/// Feeds `d` to a splitter holding the unfinished line `rem`: the lines
/// completed (without their newline), and the new unfinished line.
pub open spec fn feed_lines(rem: Seq<u8>, d: Seq<u8>) -> (Seq<Seq<u8>>, Seq<u8>)
    decreases d.len(),
{
    if d.len() == 0 {
        (Seq::empty(), rem)
    } else {
        let (ls, r) = feed_lines(rem, d.drop_last());
        if d.last() == newline() {
            (ls.push(r), Seq::empty())
        } else {
            (ls, r.push(d.last()))
        }
    }
}

/// A line split across two reads is put back together: feeding two reads
/// one after the other completes the same lines, and leaves the same
/// unfinished line, as feeding their concatenation at once.
pub proof fn law_split_boundary(rem: Seq<u8>, a: Seq<u8>, b: Seq<u8>)
    ensures
        ({
            let (l1, r1) = feed_lines(rem, a);
            let (l2, r2) = feed_lines(r1, b);
            &&& l1 + l2 == feed_lines(rem, a + b).0
            &&& r2 == feed_lines(rem, a + b).1
        }),
    decreases b.len(),
{
    let (l1, r1) = feed_lines(rem, a);
    if b.len() == 0 {
        assert(a + b =~= a);
        assert(l1 + Seq::<Seq<u8>>::empty() =~= l1);
    } else {
        law_split_boundary(rem, a, b.drop_last());
        assert((a + b).drop_last() =~= a + b.drop_last());
        assert((a + b).last() == b.last());
        let (l2, r2) = feed_lines(r1, b.drop_last());
        if b.last() == newline() {
            assert(l1 + l2.push(r2) =~= (l1 + l2).push(r2));
        }
    }
}

/// Cuts a byte stream into lines across reads. A line is complete at its
/// newline; the bytes after the last newline wait for the next read.
pub struct LineBuffer {
    partial: Vec<u8>,
}

impl LineBuffer {
    /// The unfinished line held back.
    pub closed spec fn view(&self) -> Seq<u8> {
        self.partial@
    }

    pub fn new() -> (r: Self)
        ensures
            r.view() == Seq::<u8>::empty(),
    {
        LineBuffer { partial: Vec::new() }
    }

    /// Takes one read and returns the lines it completes, in order.
    pub fn push(&mut self, read: &[u8]) -> (r: Vec<Vec<u8>>)
        ensures
            lines_view(r@) == feed_lines(old(self).view(), read@).0,
            final(self).view() == feed_lines(old(self).view(), read@).1,
    {
        let ghost rem = self.partial@;
        let mut lines: Vec<Vec<u8>> = Vec::new();
        let mut i: usize = 0;
        while i < read.len()
            invariant
                i <= read@.len(),
                (lines_view(lines@), self.partial@) == feed_lines(rem, read@.take(i as int)),
            decreases read@.len() - i,
        {
            let c = read[i];
            let ghost l0 = lines@;
            if c == 10u8 {
                let mut line: Vec<u8> = Vec::new();
                std::mem::swap(&mut line, &mut self.partial);
                lines.push(line);
                proof {
                    assert(lines_view(lines@) =~= lines_view(l0).push(line@));
                }
            } else {
                self.partial.push(c);
            }
            proof {
                assert(read@.take(i as int + 1).drop_last() =~= read@.take(i as int));
                assert(read@.take(i as int + 1).last() == c);
            }
            i = i + 1;
        }
        proof {
            assert(read@.take(i as int) =~= read@);
        }
        lines
    }

    /// Ends the stream: returns the unfinished line, if it is not empty.
    pub fn finish(&mut self) -> (r: Option<Vec<u8>>)
        ensures
            final(self).view() == Seq::<u8>::empty(),
            r matches Some(l) ==> l@ == old(self).view() && l@.len() > 0,
            r is None ==> old(self).view().len() == 0,
    {
        let mut line: Vec<u8> = Vec::new();
        std::mem::swap(&mut line, &mut self.partial);
        if line.len() == 0 {
            None
        } else {
            Some(line)
        }
    }
}

pub open spec fn lines_view(ls: Seq<Vec<u8>>) -> Seq<Seq<u8>> {
    ls.map_values(|l: Vec<u8>| l@)
}

/// `data: `
pub open spec fn data_prefix() -> Seq<u8> {
    seq![100u8, 97u8, 116u8, 97u8, 58u8, 32u8]
}

/// `[DONE]`, the end-of-stream sentinel.
pub open spec fn done_sentinel() -> Seq<u8> {
    seq![91u8, 68u8, 79u8, 78u8, 69u8, 93u8]
}

/// A line without the carriage return that may stand before its newline.
pub open spec fn strip_cr(line: Seq<u8>) -> Seq<u8> {
    if line.len() > 0 && line.last() == 13u8 {
        line.drop_last()
    } else {
        line
    }
}

/// The chunk payload that a line carries: what follows `data: `, unless it
/// is empty or the sentinel. Any other line carries none.
pub open spec fn line_payload(line: Seq<u8>) -> Option<Seq<u8>> {
    let l = strip_cr(line);
    if l.len() >= data_prefix().len() && l.take(data_prefix().len() as int) == data_prefix() {
        let rest = l.skip(data_prefix().len() as int);
        if rest.len() == 0 || rest == done_sentinel() {
            None
        } else {
            Some(rest)
        }
    } else {
        None
    }
}

fn starts_with(s: &[u8], p: &[u8]) -> (r: bool)
    ensures
        r == (s@.len() >= p@.len() && s@.take(p@.len() as int) == p@),
{
    if s.len() < p.len() {
        return false;
    }
    let mut i: usize = 0;
    while i < p.len()
        invariant
            p@.len() <= s@.len(),
            i <= p@.len(),
            forall|k: int| 0 <= k < i ==> s@[k] == p@[k],
        decreases p@.len() - i,
    {
        if s[i] != p[i] {
            proof {
                assert(s@.take(p@.len() as int)[i as int] != p@[i as int]);
            }
            return false;
        }
        i = i + 1;
    }
    proof {
        assert(s@.take(p@.len() as int) =~= p@);
    }
    true
}

fn bytes_eq(a: &[u8], b: &[u8]) -> (r: bool)
    ensures
        r == (a@ == b@),
{
    if a.len() != b.len() {
        return false;
    }
    let r = starts_with(a, b);
    proof {
        assert(a@.take(b@.len() as int) =~= a@);
    }
    r
}

/// The payload of one line, if it carries one. A `data: [DONE]` line
/// carries none and is no error.
pub fn sse_payload(line: &[u8]) -> (r: Option<Vec<u8>>)
    ensures
        opt_bytes_view(r) == line_payload(line@),
{
    let mut end = line.len();
    if end > 0 && line[end - 1] == 13u8 {
        end = end - 1;
    }
    let mut l: Vec<u8> = Vec::new();
    let mut i: usize = 0;
    while i < end
        invariant
            end <= line@.len(),
            i <= end,
            l@ == line@.take(i as int),
        decreases end - i,
    {
        l.push(line[i]);
        proof {
            assert(line@.take(i as int + 1) =~= line@.take(i as int).push(line@[i as int]));
        }
        i = i + 1;
    }
    proof {
        assert(l@ =~= strip_cr(line@));
    }
    let prefix: [u8; 6] = [100u8, 97u8, 116u8, 97u8, 58u8, 32u8];
    let done: [u8; 6] = [91u8, 68u8, 79u8, 78u8, 69u8, 93u8];
    proof {
        assert(prefix@ =~= data_prefix());
        assert(done@ =~= done_sentinel());
    }
    if !starts_with(l.as_slice(), prefix.as_slice()) {
        return None;
    }
    let mut rest: Vec<u8> = Vec::new();
    let mut j: usize = 6;
    while j < l.len()
        invariant
            6 <= j <= l@.len(),
            rest@ == l@.subrange(6, j as int),
        decreases l@.len() - j,
    {
        rest.push(l[j]);
        proof {
            assert(l@.subrange(6, j as int + 1) =~= l@.subrange(6, j as int).push(l@[j as int]));
        }
        j = j + 1;
    }
    proof {
        assert(rest@ =~= l@.skip(6));
    }
    if rest.len() == 0 || bytes_eq(rest.as_slice(), done.as_slice()) {
        None
    } else {
        Some(rest)
    }
}

pub open spec fn opt_bytes_view(o: Option<Vec<u8>>) -> Option<Seq<u8>> {
    match o {
        Some(b) => Some(b@),
        None => None,
    }
}

/// The payloads that some lines carry, in order.
pub open spec fn line_payloads(ls: Seq<Seq<u8>>) -> Seq<Seq<u8>>
    decreases ls.len(),
{
    if ls.len() == 0 {
        Seq::empty()
    } else {
        line_payloads(ls.drop_last()) + match line_payload(ls.last()) {
            Some(p) => seq![p],
            None => Seq::empty(),
        }
    }
}

/// The payloads of some lines, in order.
pub fn payloads_of(lines: &Vec<Vec<u8>>) -> (r: Vec<Vec<u8>>)
    ensures
        lines_view(r@) == line_payloads(lines_view(lines@)),
{
    let ghost lv = lines_view(lines@);
    let mut out: Vec<Vec<u8>> = Vec::new();
    let mut i: usize = 0;
    while i < lines.len()
        invariant
            i <= lines@.len(),
            lv == lines_view(lines@),
            lines_view(out@) == line_payloads(lv.take(i as int)),
        decreases lines@.len() - i,
    {
        let ghost o = out@;
        let p = sse_payload(lines[i].as_slice());
        proof {
            assert(lv.take(i as int + 1).drop_last() =~= lv.take(i as int));
            assert(lv.take(i as int + 1).last() == lv[i as int]);
        }
        match p {
            Some(x) => {
                out.push(x);
                proof {
                    assert(lines_view(out@) =~= lines_view(o).push(x@));
                }
            },
            None => {
                proof {
                    assert(lines_view(out@) =~= lines_view(o) + Seq::<Seq<u8>>::empty());
                }
            },
        }
        i = i + 1;
    }
    proof {
        assert(lv.take(i as int) =~= lv);
    }
    out
}

/// Turns the raw reads of a streamed completion body into the payloads of
/// its chunks, putting back together lines that a read boundary split.
pub struct ChunkFramer {
    lines: LineBuffer,
}

impl ChunkFramer {
    /// The unfinished line held back.
    pub closed spec fn view(&self) -> Seq<u8> {
        self.lines.view()
    }

    pub fn new() -> (r: Self)
        ensures
            r.view() == Seq::<u8>::empty(),
    {
        ChunkFramer { lines: LineBuffer::new() }
    }

    /// The payloads of the lines one read completes.
    pub fn push_read(&mut self, read: &[u8]) -> (r: Vec<Vec<u8>>)
        ensures
            lines_view(r@) == line_payloads(feed_lines(old(self).view(), read@).0),
            final(self).view() == feed_lines(old(self).view(), read@).1,
    {
        let lines = self.lines.push(read);
        payloads_of(&lines)
    }

    /// At the end of the body: the payload of the last line, if it had no
    /// newline and carries one.
    pub fn finish(&mut self) -> (r: Option<Vec<u8>>)
        ensures
            final(self).view() == Seq::<u8>::empty(),
            opt_bytes_view(r) == (if old(self).view().len() == 0 {
                None
            } else {
                line_payload(old(self).view())
            }),
    {
        match self.lines.finish() {
            Some(l) => sse_payload(l.as_slice()),
            None => None,
        }
    }
}

} // verus!
