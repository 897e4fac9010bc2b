//! The searchable texts of all sessions, one behind the other, and where each
//! of them lies.

use vstd::prelude::*;
use vstd::slice::slice_subrange;

verus! {

/// The contents of the text cache. Empty (`len() == 0`) when the cache file is
/// missing or empty; callers must check before slicing.
pub struct TextCache<'a> {
    bytes: Option<&'a [u8]>,
}

impl<'a> View for TextCache<'a> {
    type V = Seq<u8>;

    closed spec fn view(&self) -> Seq<u8> {
        match self.bytes {
            Some(b) => b@,
            None => Seq::empty(),
        }
    }
}

/// The bytes of `all` that a place tells: nothing where they go past the end.
pub open spec fn piece(all: Seq<u8>, offset: u64, len: u32) -> Seq<u8> {
    let start = (offset as usize) as int;
    if start + len > all.len() {
        Seq::empty()
    } else {
        all.subrange(start, start + len)
    }
}

impl<'a> TextCache<'a> {
    /// The cache over the contents of its file, `None` where it cannot be read.
    pub fn open(contents: Option<&'a [u8]>) -> (r: TextCache<'a>)
        ensures
            r@ == match contents {
                Some(b) => b@,
                None => Seq::empty(),
            },
    {
        let bytes = match contents {
            Some(b) => if b.len() == 0 {
                None
            } else {
                Some(b)
            },
            None => None,
        };
        let r = TextCache { bytes };
        assert(contents is Some && contents->0@.len() == 0 ==> r@ =~= contents->0@);
        r
    }

    /// How many bytes the cache holds.
    pub fn len(&self) -> (r: usize)
        ensures
            r == self@.len(),
    {
        match self.bytes {
            Some(b) => b.len(),
            None => 0,
        }
    }

    /// The `len` bytes at `offset`, or none where they go past the end.
    pub fn slice(&self, offset: u64, len: u32) -> (r: &[u8])
        ensures
            r@ == piece(self@, offset, len),
    {
        let b = match self.bytes {
            Some(b) => b,
            None => {
                assert(piece(self@, offset, len) =~= Seq::empty());
                return &[];
            },
        };
        let start = offset as usize;
        let n = len as usize;
        if start > b.len() || n > b.len() - start {
            return &[];
        }
        slice_subrange(b, start, start + n)
    }
}

/// All chunks, one behind the other.
pub open spec fn joined(chunks: Seq<Seq<u8>>) -> Seq<u8>
    decreases chunks.len(),
{
    if chunks.len() == 0 {
        Seq::empty()
    } else {
        joined(chunks.drop_last()) + chunks.last()
    }
}

/// The bytes of each chunk.
pub open spec fn chunk_views(chunks: Seq<Vec<u8>>) -> Seq<Seq<u8>> {
    Seq::new(chunks.len(), |i: int| chunks[i]@)
}

/// Where the `i`-th chunk lies among all of them, its length cut to 32 bits.
pub open spec fn place(chunks: Seq<Seq<u8>>, i: int) -> (u64, u32) {
    (joined(chunks.take(i)).len() as u64, (chunks[i].len() % 0x1_0000_0000) as u32)
}

/// The contents of the text cache for the given chunks, and the per-session
/// (offset, len) pairs in the order of the input.
pub fn write_text_cache(chunks: &Vec<Vec<u8>>) -> (r: (Vec<u8>, Vec<(u64, u32)>))
    ensures
        r.0@ == joined(chunk_views(chunks@)),
        r.1@ == Seq::new(chunks@.len(), |i: int| place(chunk_views(chunks@), i)),
{
    let ghost all = chunk_views(chunks@);
    let mut bytes: Vec<u8> = Vec::new();
    let mut places: Vec<(u64, u32)> = Vec::new();
    let mut i: usize = 0;
    while i < chunks.len()
        invariant
            i <= chunks@.len(),
            all == chunk_views(chunks@),
            bytes@ == joined(all.take(i as int)),
            places@ == Seq::new(i as nat, |k: int| place(all, k)),
        decreases chunks@.len() - i,
    {
        let chunk = &chunks[i];
        let n: u64 = chunk.len() as u64;
        let cut = n as u32;
        assert(cut == n % 0x1_0000_0000) by (bit_vector)
            requires
                cut == n as u32,
        ;
        places.push((bytes.len() as u64, cut));
        let ghost before = bytes@;
        let mut k: usize = 0;
        while k < chunk.len()
            invariant
                k <= chunk@.len(),
                bytes@ == before + chunk@.take(k as int),
            decreases chunk@.len() - k,
        {
            bytes.push(chunk[k]);
            k += 1;
            assert(bytes@ =~= before + chunk@.take(k as int));
        }
        assert(chunk@.take(chunk@.len() as int) =~= chunk@);
        assert(all.take(i + 1).drop_last() =~= all.take(i as int));
        i += 1;
        assert(places@ =~= Seq::new(i as nat, |k: int| place(all, k)));
    }
    assert(all.take(all.len() as int) =~= all);
    (bytes, places)
}

/// What lies before and including the `i`-th chunk starts the whole.
proof fn joined_starts(chunks: Seq<Seq<u8>>, i: int)
    requires
        0 <= i <= chunks.len(),
    ensures
        joined(chunks.take(i)).len() <= joined(chunks).len(),
        joined(chunks).take(joined(chunks.take(i)).len() as int) == joined(chunks.take(i)),
    decreases chunks.len() - i,
{
    if i < chunks.len() {
        let start = joined(chunks.take(i));
        let more = joined(chunks.take(i + 1));
        joined_starts(chunks, i + 1);
        assert(chunks.take(i + 1).drop_last() =~= chunks.take(i));
        assert(more == start + chunks[i]);
        assert(joined(chunks).take(start.len() as int) =~= start) by {
            assert forall|k: int| 0 <= k < start.len() implies joined(chunks)[k] == start[k] by {
                assert(joined(chunks).take(more.len() as int)[k] == more[k]);
            }
        }
    } else {
        assert(chunks.take(i) =~= chunks);
        assert(joined(chunks).take(joined(chunks).len() as int) =~= joined(chunks));
    }
}

/// The place of every chunk lies within the whole.
pub proof fn place_is_within(chunks: Seq<Seq<u8>>, i: int)
    requires
        0 <= i < chunks.len(),
        joined(chunks).len() <= usize::MAX,
    ensures
        place(chunks, i).0 + place(chunks, i).1 <= joined(chunks).len(),
{
    joined_starts(chunks, i);
    joined_starts(chunks, i + 1);
    assert(chunks.take(i + 1).drop_last() =~= chunks.take(i));
}

/// Reading back what was written: the bytes at the place of a chunk are that
/// chunk, for every chunk whose length fits in 32 bits.
pub proof fn piece_at_place_is_chunk(chunks: Seq<Seq<u8>>, i: int)
    requires
        0 <= i < chunks.len(),
        chunks[i].len() <= u32::MAX,
        joined(chunks).len() <= usize::MAX,
    ensures
        piece(joined(chunks), place(chunks, i).0, place(chunks, i).1) == chunks[i],
{
    let start = joined(chunks.take(i));
    let more = joined(chunks.take(i + 1));
    joined_starts(chunks, i);
    joined_starts(chunks, i + 1);
    assert(chunks.take(i + 1).drop_last() =~= chunks.take(i));
    assert(more == start + chunks[i]);
    let n = start.len() as int;
    let all = joined(chunks);
    assert(chunks[i].len() % 0x1_0000_0000 == chunks[i].len());
    assert(all.subrange(n, n + chunks[i].len()) =~= chunks[i]) by {
        assert forall|k: int| 0 <= k < chunks[i].len() implies all[n + k] == chunks[i][k] by {
            assert(all.take(more.len() as int)[n + k] == more[n + k]);
        }
    }
}

/// A text that lies within the cache is read as it stands, and one that goes past its
/// end as none.
pub proof fn texts_are_read_where_they_lie(a: Seq<u8>, m: Seq<u8>, b: Seq<u8>)
    requires
        a.len() <= usize::MAX,
        a.len() <= u64::MAX,
        m.len() <= u32::MAX,
    ensures
        piece(a + m + b, a.len() as u64, m.len() as u32) == m,
        m.len() > b.len() ==> piece(a + b, a.len() as u64, m.len() as u32).len() == 0,
{
    assert((a + m + b).subrange(a.len() as int, (a.len() + m.len()) as int) =~= m);
}

/// The cache holds the chunks one behind the other.
pub proof fn chunks_are_joined_in_order(x: Seq<Seq<u8>>, chunk: Seq<u8>, y: Seq<Seq<u8>>)
    ensures
        joined(x.push(chunk) + y) == joined(x) + chunk + joined(y),
    decreases y.len(),
{
    let all = x.push(chunk) + y;
    if y.len() == 0 {
        assert(all =~= x.push(chunk));
        assert(all.drop_last() =~= x);
        assert(joined(all) =~= joined(x) + chunk + joined(y));
    } else {
        chunks_are_joined_in_order(x, chunk, y.drop_last());
        assert(all.drop_last() =~= x.push(chunk) + y.drop_last());
        assert(joined(all) =~= joined(x) + chunk + joined(y));
    }
}

} // verus!
