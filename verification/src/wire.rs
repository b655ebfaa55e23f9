use vstd::prelude::*;

use crate::agent::{items_view, lemma_items_view_add, AgentTextGenResult};
use crate::error::AppError;
use crate::json::{
    array_elems, is_object, json_as_array, json_as_str, json_get, json_is_null, json_is_object,
    json_parse, json_parse_of, json_view_of, object_member, text_value, JsonView,
};
use crate::text::string_from_utf8;

verus! {

// ---------------------------------------------------------------------------
// Byte-level framing shared by the two wire shapes.
// ---------------------------------------------------------------------------

pub open spec fn is_ascii_ws(b: u8) -> bool {
    b == 32 || b == 9 || b == 10 || b == 12 || b == 13
}

/// Position of the first occurrence of `x`, if any.
pub open spec fn find_byte(s: Seq<u8>, x: u8) -> Option<int>
    decreases s.len(),
{
    if s.len() == 0 {
        None
    } else if s[0] == x {
        Some(0)
    } else {
        match find_byte(s.skip(1), x) {
            None => None,
            Some(i) => Some(i + 1),
        }
    }
}

pub proof fn lemma_find_byte_bounds(s: Seq<u8>, x: u8)
    ensures
        match find_byte(s, x) {
            Some(i) => 0 <= i < s.len() && s[i] == x && forall|j: int| 0 <= j < i ==> s[j] != x,
            None => forall|j: int| 0 <= j < s.len() ==> s[j] != x,
        },
    decreases s.len(),
{
    if s.len() == 0 {
    } else if s[0] == x {
    } else {
        lemma_find_byte_bounds(s.skip(1), x);
        assert(forall|j: int| 0 <= j < s.skip(1).len() ==> #[trigger] s.skip(1)[j] == s[j + 1]);
        match find_byte(s.skip(1), x) {
            None => {
                assert forall|j: int| 0 <= j < s.len() implies s[j] != x by {
                    if j > 0 {
                        assert(s.skip(1)[j - 1] == s[j]);
                    }
                }
            },
            Some(i) => {
                assert forall|j: int| 0 <= j < i + 1 implies s[j] != x by {
                    if j > 0 {
                        assert(s.skip(1)[j - 1] == s[j]);
                    }
                }
            },
        }
    }
}

pub proof fn lemma_find_byte_at(s: Seq<u8>, x: u8, i: int)
    requires
        0 <= i < s.len(),
        s[i] == x,
        forall|j: int| 0 <= j < i ==> s[j] != x,
    ensures
        find_byte(s, x) == Some(i),
    decreases s.len(),
{
    if i == 0 {
    } else {
        assert(forall|j: int| 0 <= j < s.skip(1).len() ==> #[trigger] s.skip(1)[j] == s[j + 1]);
        lemma_find_byte_at(s.skip(1), x, i - 1);
    }
}

/// The lines of a byte chunk, split at every newline. A chunk without a
/// newline is one line; a trailing newline contributes a final empty line,
/// which no later stage treats as data.
pub open spec fn split_lines(s: Seq<u8>) -> Seq<Seq<u8>>
    decreases s.len(),
{
    match find_byte(s, 10) {
        None => seq![s],
        Some(i) => if 0 <= i && i < s.len() {
            seq![s.take(i)] + split_lines(s.skip(i + 1))
        } else {
            seq![s]
        },
    }
}

/// ASCII whitespace stripped from both ends. The SSE field grammar puts
/// nothing but ASCII whitespace around a payload, so trimming at the byte
/// level loses nothing.
pub open spec fn trim_ws(s: Seq<u8>) -> Seq<u8>
    decreases s.len(),
{
    if s.len() > 0 && is_ascii_ws(s[0]) {
        trim_ws(s.skip(1))
    } else if s.len() > 0 && is_ascii_ws(s.last()) {
        trim_ws(s.drop_last())
    } else {
        s
    }
}

/// `data:` — the SSE field prefix of a payload-bearing line.
pub open spec fn data_prefix() -> Seq<u8> {
    seq![100u8, 97u8, 116u8, 97u8, 58u8]
}

/// The payload a Gemini-style SSE line carries: the rest of a `data:` line
/// with surrounding whitespace removed, provided something remains.
pub open spec fn google_line_payload(line: Seq<u8>) -> Option<Seq<u8>> {
    if line.len() >= 5 && line.take(5) == data_prefix() {
        let p = trim_ws(line.skip(5));
        if p.len() == 0 {
            None
        } else {
            Some(p)
        }
    } else {
        None
    }
}

/// The payloads of a chunk's lines, in order.
pub open spec fn google_payloads(lines: Seq<Seq<u8>>) -> Seq<Seq<u8>>
    decreases lines.len(),
{
    if lines.len() == 0 {
        Seq::empty()
    } else {
        google_payloads(lines.drop_last()) + (match google_line_payload(lines.last()) {
            Some(p) => seq![p],
            None => Seq::<Seq<u8>>::empty(),
        })
    }
}

/// `data: ` — the prefix a Groq-style record must carry to hold a payload.
pub open spec fn groq_data_prefix() -> Seq<u8> {
    seq![100u8, 97u8, 116u8, 97u8, 58u8, 32u8]
}

/// `[DONE]` — the sentinel that ends a Groq content stream.
pub open spec fn done_sentinel() -> Seq<u8> {
    seq![91u8, 68u8, 79u8, 78u8, 69u8, 93u8]
}

/// The payload a Groq-style record carries: the rest of a `data: ` record.
pub open spec fn groq_record_payload(record: Seq<u8>) -> Option<Seq<u8>> {
    if record.len() >= 6 && record.take(6) == groq_data_prefix() {
        Some(record.skip(6))
    } else {
        None
    }
}

// ---------------------------------------------------------------------------
// Exec framing.
// ---------------------------------------------------------------------------

/// Strip ASCII whitespace from both ends.
fn trim_ws_exec(b: &[u8]) -> (r: Vec<u8>)
    ensures
        r@ == trim_ws(b@),
{
    let mut lo: usize = 0;
    let mut hi: usize = b.len();
    proof {
        assert(b@.subrange(0, b@.len() as int) =~= b@);
    }
    while lo < hi && (b[lo] == 32 || b[lo] == 9 || b[lo] == 10 || b[lo] == 12 || b[lo] == 13)
        invariant
            0 <= lo <= hi <= b@.len(),
            trim_ws(b@) == trim_ws(b@.subrange(lo as int, hi as int)),
            hi == b@.len(),
        decreases hi - lo,
    {
        proof {
            let cur = b@.subrange(lo as int, hi as int);
            assert(cur[0] == b@[lo as int]);
            assert(cur.skip(1) =~= b@.subrange(lo + 1, hi as int));
        }
        lo = lo + 1;
    }
    while lo < hi && (b[hi - 1] == 32 || b[hi - 1] == 9 || b[hi - 1] == 10 || b[hi - 1] == 12
        || b[hi - 1] == 13)
        invariant
            0 <= lo <= hi <= b@.len(),
            trim_ws(b@) == trim_ws(b@.subrange(lo as int, hi as int)),
            lo < hi ==> !is_ascii_ws(b@[lo as int]),
        decreases hi - lo,
    {
        proof {
            let cur = b@.subrange(lo as int, hi as int);
            assert(cur[0] == b@[lo as int]);
            assert(cur.last() == b@[hi - 1]);
            assert(cur.drop_last() =~= b@.subrange(lo as int, hi - 1));
        }
        hi = hi - 1;
    }
    proof {
        let cur = b@.subrange(lo as int, hi as int);
        if cur.len() > 0 {
            assert(cur[0] == b@[lo as int]);
            assert(cur.last() == b@[hi - 1]);
        }
        assert(trim_ws(cur) == cur);
    }
    vstd::slice::slice_to_vec(&b[lo..hi])
}

/// Split a chunk into its lines.
fn split_lines_exec(b: &[u8]) -> (r: Vec<Vec<u8>>)
    ensures
        r@.map_values(|l: Vec<u8>| l@) == split_lines(b@),
    decreases b@.len(),
{
    let n = b.len();
    let mut i: usize = 0;
    while i < n && b[i] != 10
        invariant
            0 <= i <= n,
            n == b@.len(),
            forall|j: int| 0 <= j < i ==> b@[j] != 10,
        decreases n - i,
    {
        i = i + 1;
    }
    if i == n {
        proof {
            lemma_find_byte_bounds(b@, 10);
            if find_byte(b@, 10) is Some {
                assert(b@[find_byte(b@, 10)->Some_0] == 10);
            }
        }
        let mut r: Vec<Vec<u8>> = Vec::new();
        r.push(vstd::slice::slice_to_vec(b));
        proof {
            assert(r@.map_values(|l: Vec<u8>| l@) =~= split_lines(b@));
        }
        r
    } else {
        proof {
            lemma_find_byte_at(b@, 10, i as int);
        }
        let first = vstd::slice::slice_to_vec(&b[0..i]);
        let rest = split_lines_exec(&b[i + 1..n]);
        let mut r: Vec<Vec<u8>> = Vec::new();
        let ghost first_v = first@;
        let ghost rest_v = rest@;
        r.push(first);
        let mut rest_mut = rest;
        r.append(&mut rest_mut);
        proof {
            assert(b@.subrange(i + 1, n as int) =~= b@.skip(i + 1));
            assert(first_v =~= b@.take(i as int));
            assert(r@.len() == 1 + rest_v.len());
            assert(r@[0]@ == first_v);
            assert forall|j: int| 0 <= j < r@.len() implies r@.map_values(|l: Vec<u8>| l@)[j]
                == split_lines(b@)[j] by {
                assert(r@.map_values(|l: Vec<u8>| l@)[j] == r@[j]@);
                if j > 0 {
                    assert(r@[j] == rest_v[j - 1]);
                    assert(rest_v.map_values(|l: Vec<u8>| l@)[j - 1] == rest_v[j - 1]@);
                }
            }
            assert(r@.map_values(|l: Vec<u8>| l@) =~= split_lines(b@));
        }
        r
    }
}

/// The payload of one Gemini-style SSE line, if the line carries one.
fn google_line_payload_exec(line: &[u8]) -> (r: Option<Vec<u8>>)
    ensures
        match r {
            Some(p) => google_line_payload(line@) == Some(p@),
            None => google_line_payload(line@) is None,
        },
{
    if line.len() < 5 {
        return None;
    }
    if !(line[0] == 100 && line[1] == 97 && line[2] == 116 && line[3] == 97 && line[4] == 58) {
        proof {
            assert(line@.take(5) != data_prefix()) by {
                if line@.take(5) == data_prefix() {
                    assert(line@.take(5)[0] == 100u8 && line@.take(5)[1] == 97u8 && line@.take(
                        5,
                    )[2] == 116u8 && line@.take(5)[3] == 97u8 && line@.take(5)[4] == 58u8);
                }
            }
        }
        return None;
    }
    proof {
        assert(line@.take(5) =~= data_prefix());
    }
    let n = line.len();
    let rest = trim_ws_exec(&line[5..n]);
    proof {
        assert(line@.subrange(5, n as int) =~= line@.skip(5));
    }
    if rest.len() == 0 {
        None
    } else {
        Some(rest)
    }
}

/// The payloads carried by a Gemini-style SSE chunk: each `data:` line,
/// trimmed, in order.
pub fn google_data_payloads(chunk: &[u8]) -> (r: Vec<Vec<u8>>)
    ensures
        r@.map_values(|p: Vec<u8>| p@) == google_payloads(split_lines(chunk@)),
{
    let lines = split_lines_exec(chunk);
    let ghost lines_v = lines@.map_values(|l: Vec<u8>| l@);
    let n = lines.len();
    let mut r: Vec<Vec<u8>> = Vec::new();
    let mut i: usize = 0;
    while i < n
        invariant
            0 <= i <= n,
            n == lines.len(),
            lines_v == lines@.map_values(|l: Vec<u8>| l@),
            lines_v == split_lines(chunk@),
            r@.map_values(|p: Vec<u8>| p@) == google_payloads(lines_v.take(i as int)),
        decreases n - i,
    {
        proof {
            assert(lines_v[i as int] == lines@[i as int]@);
            assert(lines_v.take(i + 1).drop_last() =~= lines_v.take(i as int));
            assert(lines_v.take(i + 1).last() == lines_v[i as int]);
        }
        let ghost before = r@;
        proof {
            assert(before.map_values(|p2: Vec<u8>| p2@).len() == before.len());
            assert(google_payloads(lines_v.take(i as int)).len() == before.len());
        }
        match google_line_payload_exec(lines[i].as_slice()) {
            Some(p) => {
                r.push(p);
                proof {
                    assert forall|j: int| 0 <= j < r@.len() implies #[trigger] (google_payloads(
                        lines_v.take(i + 1),
                    )[j]) == r@.map_values(|p2: Vec<u8>| p2@)[j] by {
                        assert(r@.map_values(|p2: Vec<u8>| p2@)[j] == r@[j]@);
                        if j < before.len() {
                            assert(r@[j] == before[j]);
                            assert(before.map_values(|p2: Vec<u8>| p2@)[j] == before[j]@);
                        }
                    }
                    assert(r@.map_values(|p2: Vec<u8>| p2@) =~= google_payloads(
                        lines_v.take(i + 1),
                    ));
                }
            },
            None => {
                proof {
                    assert(r@.map_values(|p2: Vec<u8>| p2@) =~= google_payloads(
                        lines_v.take(i + 1),
                    ));
                }
            },
        }
        i = i + 1;
    }
    proof {
        assert(lines_v.take(n as int) =~= lines_v);
    }
    r
}

// ---------------------------------------------------------------------------
// Response-body shapes and their JSON extraction. The JSON reading rests on
// serde_json's parser; the framing above and the flattening below are the
// library's own, verified logic.
// ---------------------------------------------------------------------------

pub struct GoogleTextGenResponseBodyCandidateContentPart {
    pub text: String,
}

pub struct GoogleTextGenResponseBodyCandidateContent {
    pub parts: Vec<GoogleTextGenResponseBodyCandidateContentPart>,
}

impl View for GoogleTextGenResponseBodyCandidateContent {
    type V = Seq<Seq<char>>;

    open spec fn view(&self) -> Seq<Seq<char>> {
        self.parts@.map_values(|p: GoogleTextGenResponseBodyCandidateContentPart| p.text@)
    }
}

pub struct GeminiTextGenResponseBodyCandidate {
    pub content: GoogleTextGenResponseBodyCandidateContent,
}

impl View for GeminiTextGenResponseBodyCandidate {
    type V = Seq<Seq<char>>;

    open spec fn view(&self) -> Seq<Seq<char>> {
        self.content@
    }
}

pub struct GeminiTextGenResponseBody {
    pub candidates: Vec<GeminiTextGenResponseBodyCandidate>,
}

impl View for GeminiTextGenResponseBody {
    type V = Seq<Seq<Seq<char>>>;

    open spec fn view(&self) -> Seq<Seq<Seq<char>>> {
        self.candidates@.map_values(|c: GeminiTextGenResponseBodyCandidate| c@)
    }
}

/// Every part of every candidate, in order.
pub open spec fn candidate_texts(cands: Seq<Seq<Seq<char>>>) -> Seq<Seq<char>>
    decreases cands.len(),
{
    if cands.len() == 0 {
        Seq::empty()
    } else {
        candidate_texts(cands.drop_last()) + cands.last()
    }
}

pub struct GroqTextGenResponseBodyChoiceDelta {
    pub content: Option<String>,
}

pub struct GroqTextGenResponseBodyChoice {
    pub delta: GroqTextGenResponseBodyChoiceDelta,
}

impl View for GroqTextGenResponseBodyChoice {
    type V = Option<Seq<char>>;

    open spec fn view(&self) -> Option<Seq<char>> {
        match self.delta.content {
            Some(ref c) => Some(c@),
            None => None,
        }
    }
}

pub struct GroqTextGenResponseBody {
    pub choices: Vec<GroqTextGenResponseBodyChoice>,
}

impl View for GroqTextGenResponseBody {
    type V = Seq<Option<Seq<char>>>;

    open spec fn view(&self) -> Seq<Option<Seq<char>>> {
        self.choices@.map_values(|c: GroqTextGenResponseBodyChoice| c@)
    }
}

/// The content strings of the choices that carry one, in order.
pub open spec fn choice_texts(choices: Seq<Option<Seq<char>>>) -> Seq<Seq<char>>
    decreases choices.len(),
{
    if choices.len() == 0 {
        Seq::empty()
    } else {
        choice_texts(choices.drop_last()) + (match choices.last() {
            Some(t) => seq![t],
            None => Seq::<Seq<char>>::empty(),
        })
    }
}

/// Flatten a parsed Gemini response body into fragments: one per part.
pub fn google_flatten_response(body: &GeminiTextGenResponseBody) -> (r: Vec<AgentTextGenResult>)
    ensures
        r@.map_values(|f: AgentTextGenResult| f@) == candidate_texts(body@),
{
    let ghost cands = body@;
    let n = body.candidates.len();
    let mut r: Vec<AgentTextGenResult> = Vec::new();
    let mut i: usize = 0;
    proof {
        assert(r@.map_values(|f: AgentTextGenResult| f@) =~= candidate_texts(cands.take(0)));
    }
    while i < n
        invariant
            0 <= i <= n,
            n == body.candidates.len(),
            cands == body@,
            r@.map_values(|f: AgentTextGenResult| f@) == candidate_texts(cands.take(i as int)),
        decreases n - i,
    {
        let cand = &body.candidates[i];
        proof {
            assert(cands[i as int] == body.candidates@[i as int]@);
            assert(cands.take(i + 1).drop_last() =~= cands.take(i as int));
            assert(cands.take(i + 1).last() == cands[i as int]);
        }
        let m = cand.content.parts.len();
        let mut k: usize = 0;
        proof {
            assert(candidate_texts(cands.take(i as int)) + cands[i as int].take(0)
                =~= candidate_texts(cands.take(i as int)));
        }
        while k < m
            invariant
                0 <= k <= m,
                0 <= i < n,
                n == body.candidates.len(),
                cands == body@,
                m == body.candidates@[i as int].content.parts.len(),
                cands[i as int] == body.candidates@[i as int]@,
                r@.map_values(|f: AgentTextGenResult| f@) == candidate_texts(cands.take(i as int))
                    + cands[i as int].take(k as int),
            decreases m - k,
        {
            let part = &body.candidates[i].content.parts[k];
            let ghost before = r@;
            proof {
                assert(before.map_values(|f: AgentTextGenResult| f@).len() == before.len());
                assert((candidate_texts(cands.take(i as int)) + cands[i as int].take(
                    k as int,
                )).len() == candidate_texts(cands.take(i as int)).len() + k);
            }
            r.push(AgentTextGenResult { text: part.text.clone() });
            proof {
                assert(cands[i as int][k as int]
                    == body.candidates@[i as int].content.parts@[k as int].text@);
                assert(cands[i as int].take(k + 1) =~= cands[i as int].take(k as int).push(
                    cands[i as int][k as int],
                ));
                assert forall|j: int| 0 <= j < r@.len() implies #[trigger] ((candidate_texts(
                    cands.take(i as int),
                ) + cands[i as int].take(k + 1))[j]) == r@.map_values(
                    |f: AgentTextGenResult| f@,
                )[j] by {
                    assert(r@.map_values(|f: AgentTextGenResult| f@)[j] == r@[j]@);
                    if j < before.len() {
                        assert(r@[j] == before[j]);
                        assert(before.map_values(|f: AgentTextGenResult| f@)[j] == before[j]@);
                    }
                }
                assert(r@.map_values(|f: AgentTextGenResult| f@) =~= candidate_texts(
                    cands.take(i as int),
                ) + cands[i as int].take(k + 1));
            }
            k = k + 1;
        }
        proof {
            assert(cands[i as int].take(m as int) =~= cands[i as int]);
            assert(candidate_texts(cands.take(i + 1)) == candidate_texts(cands.take(i as int))
                + cands[i as int]);
        }
        i = i + 1;
    }
    proof {
        assert(cands.take(n as int) =~= cands);
    }
    r
}

/// Collect the content deltas of a parsed Groq response body, skipping
/// choices whose delta carries none.
pub fn groq_flatten_response(body: &GroqTextGenResponseBody) -> (r: Vec<AgentTextGenResult>)
    ensures
        r@.map_values(|f: AgentTextGenResult| f@) == choice_texts(body@),
{
    let ghost choices = body@;
    let n = body.choices.len();
    let mut r: Vec<AgentTextGenResult> = Vec::new();
    let mut i: usize = 0;
    proof {
        assert(r@.map_values(|f: AgentTextGenResult| f@) =~= choice_texts(choices.take(0)));
    }
    while i < n
        invariant
            0 <= i <= n,
            n == body.choices.len(),
            choices == body@,
            r@.map_values(|f: AgentTextGenResult| f@) == choice_texts(choices.take(i as int)),
        decreases n - i,
    {
        let choice = &body.choices[i];
        proof {
            assert(choices[i as int] == body.choices@[i as int]@);
            assert(choices.take(i + 1).drop_last() =~= choices.take(i as int));
            assert(choices.take(i + 1).last() == choices[i as int]);
        }
        let ghost before = r@;
        proof {
            assert(before.map_values(|f: AgentTextGenResult| f@).len() == before.len());
            assert(choice_texts(choices.take(i as int)).len() == before.len());
        }
        match &choice.delta.content {
            Some(content) => {
                r.push(AgentTextGenResult { text: content.clone() });
                proof {
                    assert forall|j: int| 0 <= j < r@.len() implies #[trigger] (choice_texts(
                        choices.take(i + 1),
                    )[j]) == r@.map_values(|f: AgentTextGenResult| f@)[j] by {
                        assert(r@.map_values(|f: AgentTextGenResult| f@)[j] == r@[j]@);
                        if j < before.len() {
                            assert(r@[j] == before[j]);
                            assert(before.map_values(|f: AgentTextGenResult| f@)[j]
                                == before[j]@);
                        }
                    }
                    assert(r@.map_values(|f: AgentTextGenResult| f@) =~= choice_texts(
                        choices.take(i + 1),
                    ));
                }
            },
            None => {
                proof {
                    assert(r@.map_values(|f: AgentTextGenResult| f@) =~= choice_texts(
                        choices.take(i + 1),
                    ));
                }
            },
        }
        i = i + 1;
    }
    proof {
        assert(choices.take(n as int) =~= choices);
    }
    r
}

/// The text of one `parts` entry: the string member `text`.
pub open spec fn google_part_text(p: JsonView) -> Option<Seq<char>> {
    match object_member(p, "text"@) {
        Some(t) => text_value(t),
        None => None,
    }
}

/// The texts of a `parts` array, or nothing when any entry lacks one.
pub open spec fn google_parts_texts(parts: Seq<JsonView>) -> Option<Seq<Seq<char>>>
    decreases parts.len(),
{
    if parts.len() == 0 {
        Some(Seq::empty())
    } else {
        match google_parts_texts(parts.drop_last()) {
            None => None,
            Some(init) => match google_part_text(parts.last()) {
                None => None,
                Some(t) => Some(init.push(t)),
            },
        }
    }
}

/// The part texts of one candidate: its `content.parts` array.
pub open spec fn google_candidate_parts(c: JsonView) -> Option<Seq<Seq<char>>> {
    match object_member(c, "content"@) {
        None => None,
        Some(content) => match object_member(content, "parts"@) {
            None => None,
            Some(parts) => match array_elems(parts) {
                None => None,
                Some(ps) => google_parts_texts(ps),
            },
        },
    }
}

pub open spec fn google_candidates_parts(cands: Seq<JsonView>) -> Option<Seq<Seq<Seq<char>>>>
    decreases cands.len(),
{
    if cands.len() == 0 {
        Some(Seq::empty())
    } else {
        match google_candidates_parts(cands.drop_last()) {
            None => None,
            Some(init) => match google_candidate_parts(cands.last()) {
                None => None,
                Some(c) => Some(init.push(c)),
            },
        }
    }
}

/// What a Gemini response payload's JSON tree deserializes to under the
/// candidates/content/parts shape, or nothing when the shape is violated.
pub open spec fn google_response_of(j: JsonView) -> Option<Seq<Seq<Seq<char>>>> {
    match object_member(j, "candidates"@) {
        None => None,
        Some(c) => match array_elems(c) {
            None => None,
            Some(cs) => google_candidates_parts(cs),
        },
    }
}

proof fn lemma_parts_texts_none(parts: Seq<JsonView>, i: int)
    requires
        0 <= i < parts.len(),
        google_part_text(parts[i]) is None,
    ensures
        google_parts_texts(parts) is None,
    decreases parts.len(),
{
    if i < parts.len() - 1 {
        assert(parts.drop_last()[i] == parts[i]);
        lemma_parts_texts_none(parts.drop_last(), i);
    }
}

proof fn lemma_candidates_parts_none(cands: Seq<JsonView>, i: int)
    requires
        0 <= i < cands.len(),
        google_candidate_parts(cands[i]) is None,
    ensures
        google_candidates_parts(cands) is None,
    decreases cands.len(),
{
    if i < cands.len() - 1 {
        assert(cands.drop_last()[i] == cands[i]);
        lemma_candidates_parts_none(cands.drop_last(), i);
    }
}

/// Parse one Gemini response payload into its body shape: succeeds with
/// exactly the texts the candidates/content/parts tree carries, and fails
/// with a JSON error exactly when the payload is not JSON or violates that
/// shape.
pub fn google_parse_response(payload: &str) -> (r: Result<GeminiTextGenResponseBody, AppError>)
    ensures
        match r {
            Ok(body) => json_parse_of(payload@) matches Some(j) && google_response_of(j) == Some(
                body@,
            ),
            Err(e) => {
                &&& e == AppError::Json
                &&& match json_parse_of(payload@) {
                    None => true,
                    Some(j) => google_response_of(j) is None,
                }
            },
        },
{
    let root = match json_parse(payload) {
        Ok(v) => v,
        Err(e) => {
            return Err(e);
        },
    };
    let ghost jroot = json_view_of(root);
    let cands_v = match json_get(&root, "candidates") {
        Some(v) => v,
        None => {
            return Err(AppError::Json);
        },
    };
    let ghost jcands = json_view_of(*cands_v);
    let cands = match json_as_array(cands_v) {
        Some(a) => a,
        None => {
            return Err(AppError::Json);
        },
    };
    let ghost cviews = cands@.map_values(|x: serde_json::Value| json_view_of(x));
    let mut candidates: Vec<GeminiTextGenResponseBodyCandidate> = Vec::new();
    let n = cands.len();
    let mut i: usize = 0;
    proof {
        assert(google_candidates_parts(cviews.take(0)) =~= Some(Seq::<Seq<Seq<char>>>::empty()));
        assert(candidates@.map_values(|c: GeminiTextGenResponseBodyCandidate| c@)
            =~= Seq::<Seq<Seq<char>>>::empty());
    }
    while i < n
        invariant
            0 <= i <= n,
            n == cands.len(),
            cviews == cands@.map_values(|x: serde_json::Value| json_view_of(x)),
            cviews.len() == n,
            json_parse_of(payload@) == Some(jroot),
            object_member(jroot, "candidates"@) == Some(jcands),
            array_elems(jcands) == Some(cviews),
            google_candidates_parts(cviews.take(i as int)) == Some(
                candidates@.map_values(|c: GeminiTextGenResponseBodyCandidate| c@),
            ),
        decreases n - i,
    {
        let ghost cv = cviews[i as int];
        proof {
            assert(json_view_of(cands@[i as int]) == cv);
        }
        let content_v = match json_get(&cands[i], "content") {
            Some(v) => v,
            None => {
                proof {
                    lemma_candidates_parts_none(cviews, i as int);
                }
                return Err(AppError::Json);
            },
        };
        let ghost jcontent = json_view_of(*content_v);
        let parts_v = match json_get(content_v, "parts") {
            Some(v) => v,
            None => {
                proof {
                    lemma_candidates_parts_none(cviews, i as int);
                }
                return Err(AppError::Json);
            },
        };
        let ghost jparts = json_view_of(*parts_v);
        let parts_arr = match json_as_array(parts_v) {
            Some(a) => a,
            None => {
                proof {
                    lemma_candidates_parts_none(cviews, i as int);
                }
                return Err(AppError::Json);
            },
        };
        let ghost pviews = parts_arr@.map_values(|x: serde_json::Value| json_view_of(x));
        let mut parts: Vec<GoogleTextGenResponseBodyCandidateContentPart> = Vec::new();
        let m = parts_arr.len();
        let mut k: usize = 0;
        proof {
            assert(google_parts_texts(pviews.take(0)) =~= Some(Seq::<Seq<char>>::empty()));
            assert(parts@.map_values(|p: GoogleTextGenResponseBodyCandidateContentPart| p.text@)
                =~= Seq::<Seq<char>>::empty());
        }
        while k < m
            invariant
                0 <= k <= m,
                m == parts_arr.len(),
                0 <= i < n,
                n == cands.len(),
                cviews == cands@.map_values(|x: serde_json::Value| json_view_of(x)),
                cviews.len() == n,
                cv == cviews[i as int],
                json_parse_of(payload@) == Some(jroot),
                object_member(jroot, "candidates"@) == Some(jcands),
                array_elems(jcands) == Some(cviews),
                object_member(cv, "content"@) == Some(jcontent),
                object_member(jcontent, "parts"@) == Some(jparts),
                array_elems(jparts) == Some(pviews),
                pviews == parts_arr@.map_values(|x: serde_json::Value| json_view_of(x)),
                pviews.len() == m,
                google_parts_texts(pviews.take(k as int)) == Some(
                    parts@.map_values(|p: GoogleTextGenResponseBodyCandidateContentPart| p.text@),
                ),
            decreases m - k,
        {
            let ghost pv = pviews[k as int];
            proof {
                assert(json_view_of(parts_arr@[k as int]) == pv);
            }
            let text_v = match json_get(&parts_arr[k], "text") {
                Some(v) => v,
                None => {
                    proof {
                        lemma_parts_texts_none(pviews, k as int);
                        lemma_candidates_parts_none(cviews, i as int);
                    }
                    return Err(AppError::Json);
                },
            };
            let text = match json_as_str(text_v) {
                Some(s) => s,
                None => {
                    proof {
                        lemma_parts_texts_none(pviews, k as int);
                        lemma_candidates_parts_none(cviews, i as int);
                    }
                    return Err(AppError::Json);
                },
            };
            let ghost before = parts@;
            parts.push(GoogleTextGenResponseBodyCandidateContentPart { text: text.to_owned() });
            proof {
                let f = |p: GoogleTextGenResponseBodyCandidateContentPart| p.text@;
                assert(before.map_values(f).len() == before.len());
                assert(google_part_text(pv) == Some(text@));
                assert(pviews.take(k + 1).drop_last() =~= pviews.take(k as int));
                assert(pviews.take(k + 1).last() == pv);
                assert forall|j: int| 0 <= j < parts@.len() implies #[trigger] parts@.map_values(
                    f,
                )[j] == before.map_values(f).push(text@)[j] by {
                    assert(parts@.map_values(f)[j] == parts@[j].text@);
                    if j < before.len() {
                        assert(parts@[j] == before[j]);
                        assert(before.map_values(f)[j] == before[j].text@);
                    }
                }
                assert(parts@.map_values(f) =~= before.map_values(f).push(text@));
            }
            k = k + 1;
        }
        proof {
            assert(pviews.take(m as int) =~= pviews);
        }
        let ghost cand_texts = parts@.map_values(
            |p: GoogleTextGenResponseBodyCandidateContentPart| p.text@,
        );
        let ghost before_c = candidates@;
        candidates.push(
            GeminiTextGenResponseBodyCandidate {
                content: GoogleTextGenResponseBodyCandidateContent { parts },
            },
        );
        proof {
            let g = |c: GeminiTextGenResponseBodyCandidate| c@;
            assert(before_c.map_values(g).len() == before_c.len());
            assert(google_candidate_parts(cv) == Some(cand_texts));
            assert(cviews.take(i + 1).drop_last() =~= cviews.take(i as int));
            assert(cviews.take(i + 1).last() == cv);
            assert(candidates@[candidates@.len() - 1]@ == cand_texts);
            assert forall|j: int| 0 <= j < candidates@.len() implies #[trigger] candidates@
                .map_values(g)[j] == before_c.map_values(g).push(cand_texts)[j] by {
                assert(candidates@.map_values(g)[j] == candidates@[j]@);
            }
            assert(candidates@.map_values(g) =~= before_c.map_values(g).push(cand_texts));
        }
        i = i + 1;
    }
    proof {
        assert(cviews.take(n as int) =~= cviews);
    }
    Ok(GeminiTextGenResponseBody { candidates })
}

/// The delta content of one choice: missing or null content is a
/// contentless choice; a non-string content, or a missing or non-object
/// delta, violates the shape.
pub open spec fn groq_choice_content(c: JsonView) -> Option<Option<Seq<char>>> {
    match object_member(c, "delta"@) {
        None => None,
        Some(delta) => if !is_object(delta) {
            None
        } else {
            match object_member(delta, "content"@) {
                None => Some(None),
                Some(v) => if v == JsonView::Null {
                    Some(None)
                } else {
                    match text_value(v) {
                        Some(s) => Some(Some(s)),
                        None => None,
                    }
                },
            }
        },
    }
}

pub open spec fn groq_choices_contents(cs: Seq<JsonView>) -> Option<Seq<Option<Seq<char>>>>
    decreases cs.len(),
{
    if cs.len() == 0 {
        Some(Seq::empty())
    } else {
        match groq_choices_contents(cs.drop_last()) {
            None => None,
            Some(init) => match groq_choice_content(cs.last()) {
                None => None,
                Some(c) => Some(init.push(c)),
            },
        }
    }
}

/// What a Groq response payload's JSON tree deserializes to under the
/// choices/delta/content shape, or nothing when the shape is violated.
pub open spec fn groq_response_of(j: JsonView) -> Option<Seq<Option<Seq<char>>>> {
    match object_member(j, "choices"@) {
        None => None,
        Some(c) => match array_elems(c) {
            None => None,
            Some(cs) => groq_choices_contents(cs),
        },
    }
}

proof fn lemma_choices_contents_none(cs: Seq<JsonView>, i: int)
    requires
        0 <= i < cs.len(),
        groq_choice_content(cs[i]) is None,
    ensures
        groq_choices_contents(cs) is None,
    decreases cs.len(),
{
    if i < cs.len() - 1 {
        assert(cs.drop_last()[i] == cs[i]);
        lemma_choices_contents_none(cs.drop_last(), i);
    }
}

/// Parse one Groq response payload into its body shape: succeeds with
/// exactly the per-choice delta contents, and fails with a JSON error
/// exactly when the payload is not JSON or violates the shape.
pub fn groq_parse_response(payload: &str) -> (r: Result<GroqTextGenResponseBody, AppError>)
    ensures
        match r {
            Ok(body) => json_parse_of(payload@) matches Some(j) && groq_response_of(j) == Some(
                body@,
            ),
            Err(e) => {
                &&& e == AppError::Json
                &&& match json_parse_of(payload@) {
                    None => true,
                    Some(j) => groq_response_of(j) is None,
                }
            },
        },
{
    let root = match json_parse(payload) {
        Ok(v) => v,
        Err(e) => {
            return Err(e);
        },
    };
    let ghost jroot = json_view_of(root);
    let choices_v = match json_get(&root, "choices") {
        Some(v) => v,
        None => {
            return Err(AppError::Json);
        },
    };
    let ghost jchoices = json_view_of(*choices_v);
    let choices_arr = match json_as_array(choices_v) {
        Some(a) => a,
        None => {
            return Err(AppError::Json);
        },
    };
    let ghost cviews = choices_arr@.map_values(|x: serde_json::Value| json_view_of(x));
    let mut choices: Vec<GroqTextGenResponseBodyChoice> = Vec::new();
    let n = choices_arr.len();
    let mut i: usize = 0;
    proof {
        assert(groq_choices_contents(cviews.take(0)) =~= Some(Seq::<Option<Seq<char>>>::empty()));
        assert(choices@.map_values(|c: GroqTextGenResponseBodyChoice| c@)
            =~= Seq::<Option<Seq<char>>>::empty());
    }
    while i < n
        invariant
            0 <= i <= n,
            n == choices_arr.len(),
            cviews == choices_arr@.map_values(|x: serde_json::Value| json_view_of(x)),
            cviews.len() == n,
            json_parse_of(payload@) == Some(jroot),
            object_member(jroot, "choices"@) == Some(jchoices),
            array_elems(jchoices) == Some(cviews),
            groq_choices_contents(cviews.take(i as int)) == Some(
                choices@.map_values(|c: GroqTextGenResponseBodyChoice| c@),
            ),
        decreases n - i,
    {
        let ghost cv = cviews[i as int];
        proof {
            assert(json_view_of(choices_arr@[i as int]) == cv);
        }
        let delta_v = match json_get(&choices_arr[i], "delta") {
            Some(v) => v,
            None => {
                proof {
                    lemma_choices_contents_none(cviews, i as int);
                }
                return Err(AppError::Json);
            },
        };
        if !json_is_object(delta_v) {
            proof {
                lemma_choices_contents_none(cviews, i as int);
            }
            return Err(AppError::Json);
        }
        let content = match json_get(delta_v, "content") {
            None => None,
            Some(v) => {
                if json_is_null(v) {
                    None
                } else {
                    match json_as_str(v) {
                        Some(s) => Some(s.to_owned()),
                        None => {
                            proof {
                                lemma_choices_contents_none(cviews, i as int);
                            }
                            return Err(AppError::Json);
                        },
                    }
                }
            },
        };
        let ghost content_view = groq_choice_content(cv)->Some_0;
        let ghost before = choices@;
        choices.push(
            GroqTextGenResponseBodyChoice { delta: GroqTextGenResponseBodyChoiceDelta { content } },
        );
        proof {
            let g = |c: GroqTextGenResponseBodyChoice| c@;
            assert(before.map_values(g).len() == before.len());
            assert(choices@[choices@.len() - 1]@ == content_view);
            assert(cviews.take(i + 1).drop_last() =~= cviews.take(i as int));
            assert(cviews.take(i + 1).last() == cv);
            assert forall|j: int| 0 <= j < choices@.len() implies #[trigger] choices@.map_values(
                g,
            )[j] == before.map_values(g).push(content_view)[j] by {
                assert(choices@.map_values(g)[j] == choices@[j]@);
            }
            assert(choices@.map_values(g) =~= before.map_values(g).push(content_view));
        }
        i = i + 1;
    }
    proof {
        assert(cviews.take(n as int) =~= cviews);
    }
    Ok(GroqTextGenResponseBody { choices })
}

// ---------------------------------------------------------------------------
// Per-payload and per-chunk decoding, specified end to end.
// ---------------------------------------------------------------------------

pub open spec fn ok_items(texts: Seq<Seq<char>>) -> Seq<Result<Seq<char>, AppError>> {
    texts.map_values(|t: Seq<char>| Ok(t))
}

/// The items one Gemini payload contributes: one fragment per part when it
/// parses with the expected shape, one error item when it does not.
pub open spec fn google_payload_items(p: Seq<u8>) -> Seq<Result<Seq<char>, AppError>> {
    if !vstd::utf8::valid_utf8(p) {
        seq![Err(AppError::FromUtf8)]
    } else {
        match json_parse_of(vstd::utf8::decode_utf8(p)) {
            None => seq![Err(AppError::Json)],
            Some(j) => match google_response_of(j) {
                None => seq![Err(AppError::Json)],
                Some(cands) => ok_items(candidate_texts(cands)),
            },
        }
    }
}

/// The items of a whole chunk: its payloads' items, concatenated, so a
/// payload that fails never suppresses the lines after it.
pub open spec fn google_chunk_items(payloads: Seq<Seq<u8>>) -> Seq<Result<Seq<char>, AppError>>
    decreases payloads.len(),
{
    if payloads.len() == 0 {
        Seq::empty()
    } else {
        google_chunk_items(payloads.drop_last()) + google_payload_items(payloads.last())
    }
}

/// The items one Groq payload contributes: nothing for the `[DONE]`
/// sentinel, one fragment per present delta content when it parses, one
/// error item when it does not.
pub open spec fn groq_payload_items(p: Seq<u8>) -> Seq<Result<Seq<char>, AppError>> {
    if p == done_sentinel() {
        Seq::empty()
    } else if !vstd::utf8::valid_utf8(p) {
        seq![Err(AppError::FromUtf8)]
    } else {
        match json_parse_of(vstd::utf8::decode_utf8(p)) {
            None => seq![Err(AppError::Json)],
            Some(j) => match groq_response_of(j) {
                None => seq![Err(AppError::Json)],
                Some(choices) => ok_items(choice_texts(choices)),
            },
        }
    }
}

/// Turn fragments into stream items.
fn fragments_to_items(frags: Vec<AgentTextGenResult>) -> (r: Vec<
    Result<AgentTextGenResult, AppError>,
>)
    ensures
        items_view(r@) == ok_items(frags@.map_values(|f: AgentTextGenResult| f@)),
{
    let ghost texts = frags@.map_values(|f: AgentTextGenResult| f@);
    let mut r: Vec<Result<AgentTextGenResult, AppError>> = Vec::new();
    let n = frags.len();
    let mut k: usize = 0;
    proof {
        assert(items_view(r@) =~= ok_items(texts.take(0)));
    }
    while k < n
        invariant
            0 <= k <= n,
            n == frags.len(),
            texts == frags@.map_values(|f: AgentTextGenResult| f@),
            items_view(r@) == ok_items(texts.take(k as int)),
        decreases n - k,
    {
        let ghost before = r@;
        r.push(Ok(frags[k].clone_result()));
        proof {
            assert(items_view(before).len() == before.len());
            assert(ok_items(texts.take(k as int)).len() == k);
            assert(texts[k as int] == frags@[k as int]@);
            assert(texts.take(k + 1) =~= texts.take(k as int).push(texts[k as int]));
            assert forall|j: int| 0 <= j < r@.len() implies #[trigger] items_view(r@)[j]
                == ok_items(texts.take(k + 1))[j] by {
                assert(items_view(r@)[j] == (match r@[j] {
                    Ok(f) => Ok::<Seq<char>, AppError>(f@),
                    Err(e) => Err::<Seq<char>, AppError>(e),
                }));
                if j < before.len() {
                    assert(r@[j] == before[j]);
                    assert(items_view(before)[j] == (match before[j] {
                        Ok(f) => Ok::<Seq<char>, AppError>(f@),
                        Err(e) => Err::<Seq<char>, AppError>(e),
                    }));
                }
            }
            assert(items_view(r@) =~= ok_items(texts.take(k + 1)));
        }
        k = k + 1;
    }
    proof {
        assert(texts.take(n as int) =~= texts);
    }
    r
}

/// The items one Gemini payload yields.
fn google_payload_results(payload: Vec<u8>) -> (r: Vec<Result<AgentTextGenResult, AppError>>)
    ensures
        items_view(r@) == google_payload_items(payload@),
{
    match string_from_utf8(payload) {
        Err(e) => {
            let mut r: Vec<Result<AgentTextGenResult, AppError>> = Vec::new();
            r.push(Err(e));
            proof {
                assert(items_view(r@) =~= seq![Err::<Seq<char>, AppError>(AppError::FromUtf8)]);
            }
            r
        },
        Ok(text) => match google_parse_response(text.as_str()) {
            Err(e) => {
                let mut r: Vec<Result<AgentTextGenResult, AppError>> = Vec::new();
                r.push(Err(e));
                proof {
                    assert(items_view(r@) =~= seq![Err::<Seq<char>, AppError>(AppError::Json)]);
                }
                r
            },
            Ok(body) => {
                let frags = google_flatten_response(&body);
                let r = fragments_to_items(frags);
                proof {
                    assert(items_view(r@) =~= google_payload_items(payload@));
                }
                r
            },
        },
    }
}

/// The items one Groq payload yields (the `[DONE]` sentinel is handled by
/// the record decoder).
fn groq_payload_results(payload: Vec<u8>) -> (r: Vec<Result<AgentTextGenResult, AppError>>)
    requires
        payload@ != done_sentinel(),
    ensures
        items_view(r@) == groq_payload_items(payload@),
{
    match string_from_utf8(payload) {
        Err(e) => {
            let mut r: Vec<Result<AgentTextGenResult, AppError>> = Vec::new();
            r.push(Err(e));
            proof {
                assert(items_view(r@) =~= seq![Err::<Seq<char>, AppError>(AppError::FromUtf8)]);
            }
            r
        },
        Ok(text) => match groq_parse_response(text.as_str()) {
            Err(e) => {
                let mut r: Vec<Result<AgentTextGenResult, AppError>> = Vec::new();
                r.push(Err(e));
                proof {
                    assert(items_view(r@) =~= seq![Err::<Seq<char>, AppError>(AppError::Json)]);
                }
                r
            },
            Ok(body) => {
                let frags = groq_flatten_response(&body);
                let r = fragments_to_items(frags);
                proof {
                    assert(items_view(r@) =~= groq_payload_items(payload@));
                }
                r
            },
        },
    }
}

/// Decode one Gemini-style SSE byte chunk into fragments: UTF-8-decode,
/// split into lines, keep the `data:` payloads, parse each as JSON and
/// flatten its parts. A chunk that is not UTF-8 yields one error item; a
/// payload that fails to parse yields one error item for that payload
/// without suppressing later lines.
pub fn decode_google_chunk(chunk: &[u8]) -> (r: Vec<Result<AgentTextGenResult, AppError>>)
    ensures
        !vstd::utf8::valid_utf8(chunk@) ==> r@ == seq![
            Err::<AgentTextGenResult, AppError>(AppError::Utf8),
        ],
        vstd::utf8::valid_utf8(chunk@) ==> items_view(r@) == google_chunk_items(
            google_payloads(split_lines(chunk@)),
        ),
{
    let copy = vstd::slice::slice_to_vec(chunk);
    let mut r: Vec<Result<AgentTextGenResult, AppError>> = Vec::new();
    if string_from_utf8(copy).is_err() {
        r.push(Err(AppError::Utf8));
        proof {
            assert(r@ =~= seq![Err::<AgentTextGenResult, AppError>(AppError::Utf8)]);
        }
        return r;
    }
    let payloads = google_data_payloads(chunk);
    let ghost payloads_v = payloads@.map_values(|p: Vec<u8>| p@);
    let n = payloads.len();
    let mut i: usize = 0;
    proof {
        assert(payloads_v.len() == n);
        assert(items_view(r@) =~= google_chunk_items(payloads_v.take(0)));
    }
    while i < n
        invariant
            0 <= i <= n,
            n == payloads.len(),
            payloads_v == payloads@.map_values(|p: Vec<u8>| p@),
            payloads_v.len() == n,
            payloads_v == google_payloads(split_lines(chunk@)),
            items_view(r@) == google_chunk_items(payloads_v.take(i as int)),
        decreases n - i,
    {
        proof {
            assert(payloads_v[i as int] == payloads@[i as int]@);
        }
        let mut items = google_payload_results(payloads[i].clone());
        let ghost r_before = r@;
        let ghost items_v = items@;
        r.append(&mut items);
        proof {
            lemma_items_view_add(r_before, items_v);
            assert(payloads_v.take(i + 1).drop_last() =~= payloads_v.take(i as int));
            assert(payloads_v.take(i + 1).last() == payloads_v[i as int]);
        }
        i = i + 1;
    }
    proof {
        assert(payloads_v.take(n as int) =~= payloads_v);
    }
    r
}

/// Decode one Groq-style record (as framed by the double-newline splitter)
/// into fragments. A record without the `data: ` prefix carries nothing;
/// the `[DONE]` sentinel ends the content stream and is no error; any other
/// payload is parsed as JSON and its present delta contents become
/// fragments, a payload that fails to parse yielding exactly one error item.
pub fn decode_groq_record(record: &[u8]) -> (r: Vec<Result<AgentTextGenResult, AppError>>)
    ensures
        groq_record_payload(record@) is None ==> r@.len() == 0,
        groq_record_payload(record@) matches Some(p) ==> items_view(r@) == groq_payload_items(p),
{
    let mut r: Vec<Result<AgentTextGenResult, AppError>> = Vec::new();
    if record.len() < 6 {
        return r;
    }
    if !(record[0] == 100 && record[1] == 97 && record[2] == 116 && record[3] == 97 && record[4]
        == 58 && record[5] == 32) {
        proof {
            assert(record@.take(6) != groq_data_prefix()) by {
                if record@.take(6) == groq_data_prefix() {
                    assert(record@.take(6)[0] == 100u8 && record@.take(6)[1] == 97u8
                        && record@.take(6)[2] == 116u8 && record@.take(6)[3] == 97u8
                        && record@.take(6)[4] == 58u8 && record@.take(6)[5] == 32u8);
                }
            }
        }
        return r;
    }
    proof {
        assert(record@.take(6) =~= groq_data_prefix());
    }
    let n = record.len();
    let payload = vstd::slice::slice_to_vec(&record[6..n]);
    proof {
        assert(payload@ =~= record@.skip(6));
    }
    if payload.len() == 6 && payload[0] == 91 && payload[1] == 68 && payload[2] == 79 && payload[3]
        == 78 && payload[4] == 69 && payload[5] == 93 {
        proof {
            assert(payload@ =~= done_sentinel());
        }
        return r;
    }
    proof {
        assert(payload@ != done_sentinel()) by {
            if payload@ == done_sentinel() {
                assert(payload@.len() == 6 && payload@[0] == 91u8 && payload@[1] == 68u8
                    && payload@[2] == 79u8 && payload@[3] == 78u8 && payload@[4] == 69u8
                    && payload@[5] == 93u8);
            }
        }
    }
    groq_payload_results(payload)
}

} // verus!
