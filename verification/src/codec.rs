use vstd::prelude::*;

use crate::error::AppError;
use crate::text::string_from_utf8;

verus! {

/// The record delimiter: two consecutive newline bytes.
pub open spec fn delim_at(s: Seq<u8>, i: int) -> bool {
    s[i] == 10 && s[i + 1] == 10
}

/// Position of the first `\n\n` in `s`, if any.
pub open spec fn find_delim(s: Seq<u8>) -> Option<int>
    decreases s.len(),
{
    if s.len() < 2 {
        None
    } else if delim_at(s, 0) {
        Some(0)
    } else {
        match find_delim(s.skip(1)) {
            None => None,
            Some(i) => Some(i + 1),
        }
    }
}

/// The complete records of `s`: each maximal prefix ending in `\n\n`, with
/// the delimiter removed. Bytes after the last delimiter are no record.
pub open spec fn records_of(s: Seq<u8>) -> Seq<Seq<u8>>
    decreases s.len(),
{
    match find_delim(s) {
        None => Seq::empty(),
        Some(i) => if 0 <= i && i + 2 <= s.len() {
            seq![s.take(i)] + records_of(s.skip(i + 2))
        } else {
            Seq::empty()
        },
    }
}

/// What remains of `s` after all complete records: the bytes after the last
/// delimiter, holding at most an incomplete trailing record.
pub open spec fn residue_of(s: Seq<u8>) -> Seq<u8>
    decreases s.len(),
{
    match find_delim(s) {
        None => s,
        Some(i) => if 0 <= i && i + 2 <= s.len() {
            residue_of(s.skip(i + 2))
        } else {
            s
        },
    }
}

/// `find_delim` returns the position of the first delimiter, inside bounds,
/// or `None` exactly when no delimiter occurs.
pub proof fn lemma_find_delim_bounds(s: Seq<u8>)
    ensures
        match find_delim(s) {
            Some(i) => {
                &&& 0 <= i
                &&& i + 2 <= s.len()
                &&& delim_at(s, i)
                &&& forall|j: int| 0 <= j < i ==> !delim_at(s, j)
            },
            None => forall|j: int| 0 <= j && j + 2 <= s.len() ==> !delim_at(s, j),
        },
    decreases s.len(),
{
    if s.len() < 2 {
    } else if delim_at(s, 0) {
    } else {
        lemma_find_delim_bounds(s.skip(1));
        assert(forall|j: int|
            0 <= j && j + 1 < s.skip(1).len() ==> #[trigger] s.skip(1)[j] == s[j + 1]);
        match find_delim(s.skip(1)) {
            None => {
                assert forall|j: int| 0 <= j && j + 2 <= s.len() implies !delim_at(s, j) by {
                    if j > 0 {
                        assert(!delim_at(s.skip(1), j - 1));
                    }
                }
            },
            Some(i) => {
                assert forall|j: int| 0 <= j < i + 1 implies !delim_at(s, j) by {
                    if j > 0 {
                        assert(!delim_at(s.skip(1), j - 1));
                    }
                }
            },
        }
    }
}

/// If `i` is a delimiter position with no earlier delimiter, it is the one
/// `find_delim` returns.
pub proof fn lemma_find_delim_at(s: Seq<u8>, i: int)
    requires
        0 <= i,
        i + 2 <= s.len(),
        delim_at(s, i),
        forall|j: int| 0 <= j < i ==> !delim_at(s, j),
    ensures
        find_delim(s) == Some(i),
    decreases s.len(),
{
    if i == 0 {
    } else {
        assert(forall|j: int|
            0 <= j && j + 1 < s.skip(1).len() ==> #[trigger] s.skip(1)[j] == s[j + 1]);
        assert forall|j: int| 0 <= j < i - 1 implies !delim_at(s.skip(1), j) by {
            assert(!delim_at(s, j + 1));
        }
        assert(delim_at(s.skip(1), i - 1));
        lemma_find_delim_at(s.skip(1), i - 1);
        assert(!delim_at(s, 0));
    }
}

/// A delimiter wholly inside `a` is the first delimiter of `a + b` too.
proof fn lemma_find_delim_concat(a: Seq<u8>, b: Seq<u8>)
    requires
        find_delim(a) is Some,
    ensures
        find_delim(a + b) == find_delim(a),
{
    lemma_find_delim_bounds(a);
    let i = find_delim(a)->Some_0;
    assert(delim_at(a + b, i));
    assert forall|j: int| 0 <= j < i implies !delim_at(a + b, j) by {
        assert((a + b)[j] == a[j]);
        assert((a + b)[j + 1] == a[j + 1]);
        assert(!delim_at(a, j));
    }
    lemma_find_delim_at(a + b, i);
}

/// Feeding bytes across any chunk boundary yields the same records as
/// feeding them at once: the records of `a + b` are the records of `a`
/// followed by the records of `a`'s residue joined with `b`, and likewise
/// for the residues.
pub proof fn lemma_records_append(a: Seq<u8>, b: Seq<u8>)
    ensures
        records_of(a + b) == records_of(a) + records_of(residue_of(a) + b),
        residue_of(a + b) == residue_of(residue_of(a) + b),
    decreases a.len(),
{
    lemma_find_delim_bounds(a);
    match find_delim(a) {
        None => {
            assert(residue_of(a) == a);
            assert(records_of(a) == Seq::<Seq<u8>>::empty());
            assert(records_of(a + b) =~= records_of(a) + records_of(residue_of(a) + b));
        },
        Some(i) => {
            lemma_find_delim_concat(a, b);
            lemma_find_delim_bounds(a + b);
            assert((a + b).take(i) =~= a.take(i));
            assert((a + b).skip(i + 2) =~= a.skip(i + 2) + b);
            lemma_records_append(a.skip(i + 2), b);
            assert(records_of(a + b) == seq![a.take(i)] + records_of(a.skip(i + 2) + b));
            assert(records_of(a + b) =~= (seq![a.take(i)] + records_of(a.skip(i + 2)))
                + records_of(residue_of(a.skip(i + 2)) + b));
            assert(records_of(a) == seq![a.take(i)] + records_of(a.skip(i + 2)));
            assert(residue_of(a) == residue_of(a.skip(i + 2)));
        },
    }
}

/// A buffer without a trailing delimiter yields no record.
pub proof fn lemma_no_delimiter_no_record(s: Seq<u8>)
    requires
        find_delim(s) is None,
    ensures
        records_of(s) == Seq::<Seq<u8>>::empty(),
{
}

/// The double-newline record splitter. Bytes are fed in arbitrary chunks;
/// a record is yielded only once its trailing `\n\n` is fully buffered, and
/// no buffered byte is ever dropped between reads. The ghost state records
/// everything ever fed and every record already yielded, and the invariant
/// ties them together: yielded records followed by the records still in the
/// buffer are exactly the records of all bytes fed.
pub struct SseDecoder {
    buf: Vec<u8>,
    fed: Ghost<Seq<u8>>,
    emitted: Ghost<Seq<Seq<u8>>>,
}

impl SseDecoder {
    /// Every byte ever fed.
    pub closed spec fn fed(&self) -> Seq<u8> {
        self.fed@
    }

    /// Every record already yielded, in order.
    pub closed spec fn emitted(&self) -> Seq<Seq<u8>> {
        self.emitted@
    }

    /// The bytes currently buffered.
    pub closed spec fn buffered(&self) -> Seq<u8> {
        self.buf@
    }

    pub closed spec fn wf(&self) -> bool {
        &&& self.emitted@ + records_of(self.buf@) == records_of(self.fed@)
        &&& residue_of(self.fed@) == residue_of(self.buf@)
    }

    pub fn new() -> (r: SseDecoder)
        ensures
            r.wf(),
            r.fed() == Seq::<u8>::empty(),
            r.emitted() == Seq::<Seq<u8>>::empty(),
            r.buffered() == Seq::<u8>::empty(),
    {
        let r = SseDecoder {
            buf: Vec::new(),
            fed: Ghost(Seq::empty()),
            emitted: Ghost(Seq::empty()),
        };
        proof {
            assert(r.emitted@ + records_of(r.buf@) =~= records_of(r.fed@));
        }
        r
    }

    /// Append a chunk to the buffer. No record is yielded here and nothing
    /// already buffered is lost.
    pub fn feed(&mut self, bytes: &[u8])
        requires
            old(self).wf(),
        ensures
            final(self).wf(),
            final(self).fed() == old(self).fed() + bytes@,
            final(self).emitted() == old(self).emitted(),
            final(self).buffered() == old(self).buffered() + bytes@,
    {
        self.buf.extend_from_slice(bytes);
        proof {
            let oldfed = self.fed@;
            let oldbuf = old(self).buf@;
            self.fed@ = self.fed@ + bytes@;
            lemma_records_append(oldfed, bytes@);
            lemma_records_append(oldbuf, bytes@);
            assert(self.buf@ == oldbuf + bytes@);
            assert(records_of(self.fed@) == records_of(oldfed) + records_of(
                residue_of(oldfed) + bytes@,
            ));
            assert(records_of(self.buf@) == records_of(oldbuf) + records_of(
                residue_of(oldbuf) + bytes@,
            ));
            assert(old(self).emitted@ + records_of(oldbuf) == records_of(oldfed));
            assert(self.emitted@ + records_of(self.buf@) =~= records_of(self.fed@));
        }
    }

    /// Yield the next complete record, if its trailing delimiter is fully
    /// buffered; otherwise leave the buffer untouched.
    pub fn next_record(&mut self) -> (r: Option<Vec<u8>>)
        requires
            old(self).wf(),
        ensures
            final(self).wf(),
            final(self).fed() == old(self).fed(),
            match r {
                Some(rec) => {
                    &&& old(self).emitted().len() < records_of(old(self).fed()).len()
                    &&& rec@ == records_of(old(self).fed())[old(self).emitted().len() as int]
                    &&& final(self).emitted() == old(self).emitted().push(rec@)
                    &&& find_delim(old(self).buffered()) matches Some(i) && rec@ == old(
                        self,
                    ).buffered().take(i) && final(self).buffered() == old(self).buffered().skip(
                        i + 2,
                    )
                },
                None => {
                    &&& final(self).emitted() == old(self).emitted()
                    &&& final(self).buffered() == old(self).buffered()
                    &&& old(self).emitted().len() == records_of(old(self).fed()).len()
                },
            },
    {
        let n = self.buf.len();
        if n < 2 {
            proof {
                lemma_no_delimiter_no_record(self.buf@);
            }
            return None;
        }
        let mut i: usize = 0;
        let mut found: bool = false;
        while i + 1 < n && !found
            invariant
                0 <= i <= n - 1,
                n == self.buf.len(),
                n >= 2,
                *self == *old(self),
                forall|j: int| 0 <= j < i ==> !delim_at(self.buf@, j),
                found ==> i + 1 < n && delim_at(self.buf@, i as int),
            decreases n - i + (if found { 0int } else { 1int }),
        {
            if self.buf[i] == 10 && self.buf[i + 1] == 10 {
                found = true;
            } else {
                i = i + 1;
            }
        }
        if !found {
            proof {
                assert forall|j: int| 0 <= j && j + 2 <= self.buf@.len() implies !delim_at(
                    self.buf@,
                    j,
                ) by {}
                lemma_find_delim_bounds(self.buf@);
                if find_delim(self.buf@) is Some {
                    assert(delim_at(self.buf@, find_delim(self.buf@)->Some_0));
                }
                lemma_no_delimiter_no_record(self.buf@);
            }
            return None;
        }
        proof {
            lemma_find_delim_at(self.buf@, i as int);
        }
        let ghost oldbuf = self.buf@;
        let mut record: Vec<u8> = Vec::new();
        let mut k: usize = 0;
        while k < i
            invariant
                0 <= k <= i,
                i < n,
                n == self.buf.len(),
                *self == *old(self),
                record@ == self.buf@.take(k as int),
            decreases i - k,
        {
            let byte = self.buf[k];
            record.push(byte);
            proof {
                assert(record@ =~= self.buf@.take(k + 1));
            }
            k = k + 1;
        }
        let rest = self.buf.split_off(i + 2);
        self.buf = rest;
        proof {
            let recv = record@;
            assert(recv == oldbuf.take(i as int));
            assert(self.buf@ =~= oldbuf.skip(i + 2));
            assert(records_of(oldbuf) == seq![recv] + records_of(self.buf@));
            assert(residue_of(oldbuf) == residue_of(self.buf@));
            self.emitted@ = self.emitted@ + seq![recv];
            assert(old(self).emitted() + records_of(oldbuf) == records_of(old(self).fed()));
            assert((old(self).emitted() + records_of(oldbuf))[old(self).emitted().len() as int]
                == recv);
            assert(self.emitted@ + records_of(self.buf@) =~= records_of(self.fed@));
            assert(self.emitted@ =~= old(self).emitted().push(recv));
        }
        Some(record)
    }

    /// Yield the next complete record as text: `Ok(None)` when no complete
    /// record is buffered, `Ok(Some(_))` for a UTF-8 record, and an error for
    /// a record that is not valid UTF-8 (that record is consumed).
    pub fn decode(&mut self) -> (r: Result<Option<String>, AppError>)
        requires
            old(self).wf(),
        ensures
            final(self).wf(),
            final(self).fed() == old(self).fed(),
            match r {
                Ok(None) => {
                    &&& final(self).emitted() == old(self).emitted()
                    &&& final(self).buffered() == old(self).buffered()
                    &&& old(self).emitted().len() == records_of(old(self).fed()).len()
                },
                Ok(Some(s)) => {
                    &&& old(self).emitted().len() < records_of(old(self).fed()).len()
                    &&& {
                        let rec = records_of(old(self).fed())[old(self).emitted().len() as int];
                        &&& vstd::utf8::valid_utf8(rec)
                        &&& s@ == vstd::utf8::decode_utf8(rec)
                        &&& final(self).emitted() == old(self).emitted().push(rec)
                    }
                    &&& find_delim(old(self).buffered()) matches Some(i) && final(self).buffered()
                        == old(self).buffered().skip(i + 2)
                },
                Err(e) => {
                    &&& e == AppError::FromUtf8
                    &&& old(self).emitted().len() < records_of(old(self).fed()).len()
                    &&& {
                        let rec = records_of(old(self).fed())[old(self).emitted().len() as int];
                        &&& !vstd::utf8::valid_utf8(rec)
                        &&& final(self).emitted() == old(self).emitted().push(rec)
                    }
                    &&& find_delim(old(self).buffered()) matches Some(i) && final(self).buffered()
                        == old(self).buffered().skip(i + 2)
                },
            },
    {
        match self.next_record() {
            None => Ok(None),
            Some(rec) => match string_from_utf8(rec) {
                Ok(s) => Ok(Some(s)),
                Err(e) => Err(e),
            },
        }
    }
}

} // verus!
