//! Whitespace-separated fields of a line of text.

use vstd::prelude::*;
use vstd::string::*;

verus! {

/// The code points with the Unicode property White_Space.
pub open spec fn is_space(c: char) -> bool {
    let n = c as u32;
    ||| 0x09 <= n <= 0x0d
    ||| n == 0x20
    ||| n == 0x85
    ||| n == 0xa0
    ||| n == 0x1680
    ||| 0x2000 <= n <= 0x200a
    ||| n == 0x2028
    ||| n == 0x2029
    ||| n == 0x202f
    ||| n == 0x205f
    ||| n == 0x3000
}

/// Whether `c` is white space.
pub fn is_whitespace(c: char) -> (b: bool)
    ensures
        b == is_space(c),
{
    let n: u32 = c as u32;
    (0x09 <= n && n <= 0x0d) || n == 0x20 || n == 0x85 || n == 0xa0 || n == 0x1680 || (0x2000 <= n
        && n <= 0x200a) || n == 0x2028 || n == 0x2029 || n == 0x202f || n == 0x205f || n == 0x3000
}

/// Whether two strings hold the same characters.
pub fn same_text(a: &str, b: &str) -> (r: bool)
    ensures
        r == (a@ == b@),
{
    let n = a.unicode_len();
    if n != b.unicode_len() {
        return false;
    }
    let mut i: usize = 0;
    while i < n
        invariant
            0 <= i <= n,
            n == a@.len(),
            n == b@.len(),
            forall|j: int| 0 <= j < i ==> a@[j] == b@[j],
        decreases n - i,
    {
        if a.get_char(i) != b.get_char(i) {
            return false;
        }
        i += 1;
    }
    assert(a@ =~= b@);
    true
}

/// A field ends at `end`: the character before it is no space, and the text
/// ends there or goes on with a space.
pub open spec fn ends_field(text: Seq<char>, end: int) -> bool {
    &&& 0 < end <= text.len()
    &&& !is_space(text[end - 1])
    &&& (end == text.len() || is_space(text[end]))
}

/// Where the run of characters other than spaces that reaches up to `end`
/// begins; `end` itself where no such character stands before `end`.
pub open spec fn run_start(text: Seq<char>, end: int) -> int
    decreases end,
{
    if end <= 0 || end > text.len() || is_space(text[end - 1]) {
        end
    } else {
        run_start(text, end - 1)
    }
}

/// The fields that end at or before `upto`, each as the pair of its first
/// index and the index behind its last, in the order of the text.
pub open spec fn fields_upto(text: Seq<char>, upto: int) -> Seq<(int, int)>
    decreases upto,
{
    if upto <= 0 {
        Seq::empty()
    } else if ends_field(text, upto) {
        fields_upto(text, upto - 1).push((run_start(text, upto), upto))
    } else {
        fields_upto(text, upto - 1)
    }
}

/// The fields of `text`: its maximal runs of characters other than spaces.
pub open spec fn fields_of(text: Seq<char>) -> Seq<(int, int)> {
    fields_upto(text, text.len() as int)
}

/// The spans of a vector of index pairs, as mathematical integers.
pub open spec fn spans_view(spans: Seq<(usize, usize)>) -> Seq<(int, int)> {
    Seq::new(spans.len(), |k: int| (spans[k].0 as int, spans[k].1 as int))
}

/// The fields of `text` in order, each as a pair of character indices.
pub fn split_fields(text: &str) -> (spans: Vec<(usize, usize)>)
    ensures
        spans_view(spans@) == fields_of(text@),
{
    let n = text.unicode_len();
    let mut spans: Vec<(usize, usize)> = Vec::new();
    let mut start: usize = 0;
    let mut j: usize = 0;
    while j < n
        invariant
            0 <= j <= n,
            n == text@.len(),
            start as int == run_start(text@, j as int),
            spans_view(spans@) == fields_upto(text@, j as int),
        decreases n - j,
    {
        let c = text.get_char(j);
        j += 1;
        if is_whitespace(c) {
            start = j;
        } else {
            let closes = if j == n {
                true
            } else {
                is_whitespace(text.get_char(j))
            };
            if closes {
                let ghost before = spans@;
                spans.push((start, j));
                assert(spans_view(spans@) =~= spans_view(before).push((start as int, j as int)));
            }
        }
    }
    spans
}

/// The run that reaches up to `end` begins at or before `end`, holds no
/// space, and cannot be extended to the left.
pub proof fn lemma_run_start(text: Seq<char>, end: int)
    requires
        0 <= end <= text.len(),
    ensures
        0 <= run_start(text, end) <= end,
        forall|p: int| run_start(text, end) <= p < end ==> !is_space(#[trigger] text[p]),
        run_start(text, end) == 0 || is_space(text[run_start(text, end) - 1]),
        ends_field(text, end) ==> run_start(text, end) < end,
    decreases end,
{
    if end > 0 && !is_space(text[end - 1]) {
        lemma_run_start(text, end - 1);
    }
}

/// The span is a maximal run of characters other than spaces.
pub open spec fn is_run(text: Seq<char>, span: (int, int)) -> bool {
    &&& 0 <= span.0 < span.1 <= text.len()
    &&& span.0 == run_start(text, span.1)
    &&& ends_field(text, span.1)
}

/// Every field is a maximal run of characters other than spaces that ends at
/// or before `upto`, and the fields stand in the order of the text, each
/// ending before the next begins.
pub proof fn lemma_fields_are_runs(text: Seq<char>, upto: int)
    requires
        0 <= upto <= text.len(),
    ensures
        forall|k: int|
            0 <= k < fields_upto(text, upto).len() ==> is_run(
                text,
                #[trigger] fields_upto(text, upto)[k],
            ) && fields_upto(text, upto)[k].1 <= upto,
        forall|k: int, m: int|
            0 <= k < m < fields_upto(text, upto).len() ==> (#[trigger] fields_upto(text, upto)[k]).1
                < (#[trigger] fields_upto(text, upto)[m]).0,
    decreases upto,
{
    let all = fields_upto(text, upto);
    if upto > 0 {
        lemma_fields_are_runs(text, upto - 1);
        let prev = fields_upto(text, upto - 1);
        if ends_field(text, upto) {
            lemma_run_start(text, upto);
            let a = run_start(text, upto);
            assert(all == prev.push((a, upto)));
            assert forall|k: int| 0 <= k < prev.len() implies (#[trigger] prev[k]).1 < a by {
                let b = prev[k].1;
                assert(is_run(text, prev[k]));
                if b >= a {
                    assert(!is_space(text[b]));
                }
            }
            assert forall|k: int| 0 <= k < all.len() implies is_run(text, #[trigger] all[k])
                && all[k].1 <= upto by {
                if k < prev.len() {
                    assert(all[k] == prev[k]);
                }
            }
            assert forall|k: int, m: int| 0 <= k < m < all.len() implies (#[trigger] all[k]).1 < (
            #[trigger] all[m]).0 by {
                assert(all[k] == prev[k]);
                if m < prev.len() {
                    assert(all[m] == prev[m]);
                }
            }
        } else {
            assert(all == prev);
        }
    }
}

/// Every character other than a space lies in a field.
pub proof fn lemma_fields_cover(text: Seq<char>, upto: int, p: int) -> (k: int)
    requires
        0 <= upto <= text.len(),
        0 <= p < text.len(),
        !is_space(text[p]),
        p < upto,
        upto == text.len() || is_space(text[upto]),
    ensures
        0 <= k < fields_upto(text, upto).len(),
        fields_upto(text, upto)[k].0 <= p < fields_upto(text, upto)[k].1,
    decreases upto,
{
    if ends_field(text, upto) {
        lemma_run_start(text, upto);
        let a = run_start(text, upto);
        if a <= p {
            fields_upto(text, upto - 1).len() as int
        } else {
            assert(a > 0);
            lemma_fields_extend(text, a - 1, upto - 1);
            let k = lemma_fields_cover(text, a - 1, p);
            k
        }
    } else {
        assert(is_space(text[upto - 1]));
        lemma_fields_cover(text, upto - 1, p)
    }
}

/// The fields that end at or before `lo` are the first of those that end at
/// or before `hi`.
pub proof fn lemma_fields_extend(text: Seq<char>, lo: int, hi: int)
    requires
        0 <= lo <= hi,
    ensures
        fields_upto(text, lo).len() <= fields_upto(text, hi).len(),
        forall|k: int|
            0 <= k < fields_upto(text, lo).len() ==> #[trigger] fields_upto(text, hi)[k]
                == fields_upto(text, lo)[k],
    decreases hi - lo,
{
    if lo < hi {
        lemma_fields_extend(text, lo, hi - 1);
    }
}

} // verus!
