use vstd::prelude::*;

use crate::text::{chars_of, string_of};

verus! {

/// Most segments a slug keeps.
pub const MAX_SEGMENTS: usize = 8;

/// The characters a slug keeps: ASCII letters and digits.
pub open spec fn is_word_char(c: char) -> bool {
    ('a' <= c && c <= 'z') || ('A' <= c && c <= 'Z') || ('0' <= c && c <= '9')
}

/// Lower-case ASCII letters, digits and the separator: what lower-casing leaves as it is.
pub open spec fn is_plain_lower(c: char) -> bool {
    ('a' <= c && c <= 'z') || ('0' <= c && c <= '9') || c == '-'
}

/// The maximal runs of word characters of `s`, in order.
pub open spec fn segments(s: Seq<char>) -> Seq<Seq<char>>
    decreases s.len(),
{
    if s.len() == 0 {
        seq![]
    } else {
        let prev = segments(s.drop_last());
        let c = s.last();
        if !is_word_char(c) {
            prev
        } else if s.len() >= 2 && is_word_char(s[s.len() - 2]) {
            prev.update(prev.len() - 1, prev.last().push(c))
        } else {
            prev.push(seq![c])
        }
    }
}

/// The segments joined by single `-` separators.
pub open spec fn join_dash(ss: Seq<Seq<char>>) -> Seq<char>
    decreases ss.len(),
{
    if ss.len() == 0 {
        seq![]
    } else if ss.len() == 1 {
        ss[0]
    } else {
        join_dash(ss.drop_last()) + seq!['-'] + ss.last()
    }
}

/// At most the first `MAX_SEGMENTS` segments.
pub open spec fn first_segments(ss: Seq<Seq<char>>) -> Seq<Seq<char>> {
    if ss.len() <= MAX_SEGMENTS {
        ss
    } else {
        ss.take(MAX_SEGMENTS as int)
    }
}

/// The slug of an already lower-cased text: its first segments of ASCII letters and
/// digits, joined by `-`.
pub open spec fn slug_of(s: Seq<char>) -> Seq<char> {
    join_dash(first_segments(segments(s)))
}

/// A non-empty run of word characters.
pub open spec fn is_word(w: Seq<char>) -> bool {
    w.len() > 0 && forall|i: int| 0 <= i < w.len() ==> is_word_char(#[trigger] w[i])
}

/// A text that is its own slug: at most `MAX_SEGMENTS` words of lower-case letters and
/// digits, joined by `-`.
pub open spec fn is_normal_slug(t: Seq<char>) -> bool {
    (forall|i: int| 0 <= i < t.len() ==> is_plain_lower(#[trigger] t[i])) && exists|
        ss: Seq<Seq<char>>,
    |
        ss.len() <= MAX_SEGMENTS && (forall|k: int| 0 <= k < ss.len() ==> is_word(#[trigger] ss[k]))
            && join_dash(ss) == t
}

/// The result that `str::to_lowercase` gives for a text.
pub uninterp spec fn lower_of(s: Seq<char>) -> Seq<char>;

/// An ASCII capital letter.
pub open spec fn is_ascii_upper(c: char) -> bool {
    'A' <= c && c <= 'Z'
}

/// Relies on `str::to_lowercase`: the result depends on the characters alone;
/// characters that have no lower-case mapping (lower-case ASCII letters, digits, `-`)
/// are kept as they are; and no character lower-cases to an ASCII capital.
#[verifier::external_body]
fn lowercase(s: &str) -> (r: String)
    ensures
        r@ == lower_of(s@),
        (forall|i: int| 0 <= i < s@.len() ==> is_plain_lower(#[trigger] s@[i])) ==> r@ == s@,
        forall|i: int| 0 <= i < r@.len() ==> !is_ascii_upper(#[trigger] r@[i]),
{
    s.to_lowercase()
}

pub fn is_ascii_alphanumeric(c: char) -> (r: bool)
    ensures
        r == is_word_char(c),
{
    ('a' <= c && c <= 'z') || ('A' <= c && c <= 'Z') || ('0' <= c && c <= '9')
}

proof fn lemma_join_extend_last(ss: Seq<Seq<char>>, c: char)
    requires
        ss.len() > 0,
    ensures
        join_dash(ss.update(ss.len() - 1, ss.last().push(c))) == join_dash(ss).push(c),
{
    let ss2 = ss.update(ss.len() - 1, ss.last().push(c));
    if ss.len() > 1 {
        assert(ss2.drop_last() == ss.drop_last());
        assert(join_dash(ss2) == join_dash(ss.drop_last()) + seq!['-'] + ss.last().push(c));
        assert(join_dash(ss2) == join_dash(ss).push(c));
    }
}

proof fn lemma_join_push(ss: Seq<Seq<char>>, w: Seq<char>)
    ensures
        join_dash(ss.push(w)) == if ss.len() == 0 {
            w
        } else {
            join_dash(ss) + seq!['-'] + w
        },
{
    assert(ss.push(w).drop_last() == ss);
}

proof fn lemma_last_word_nonempty(s: Seq<char>)
    requires
        s.len() > 0,
        is_word_char(s.last()),
    ensures
        segments(s).len() > 0,
    decreases s.len(),
{
    if s.len() >= 2 && is_word_char(s[s.len() - 2]) {
        lemma_last_word_nonempty(s.drop_last());
    }
}

/// Every segment is a word.
pub proof fn lemma_segments_are_words(s: Seq<char>)
    ensures
        forall|k: int| 0 <= k < segments(s).len() ==> is_word(#[trigger] segments(s)[k]),
    decreases s.len(),
{
    if s.len() > 0 {
        lemma_segments_are_words(s.drop_last());
        let prev = segments(s.drop_last());
        let c = s.last();
        if is_word_char(c) && s.len() >= 2 && is_word_char(s[s.len() - 2]) {
            lemma_last_word_nonempty(s.drop_last());
            let w = prev.last().push(c);
            assert(is_word(prev[prev.len() - 1]));
            assert forall|i: int| 0 <= i < w.len() implies is_word_char(#[trigger] w[i]) by {
                if i < w.len() - 1 {
                    assert(w[i] == prev.last()[i]);
                }
            }
        } else if is_word_char(c) {
            assert(is_word(seq![c]));
        }
    }
}

proof fn lemma_segments_after_word(a: Seq<char>, w: Seq<char>)
    requires
        a.len() == 0 || !is_word_char(a.last()),
        is_word(w),
    ensures
        segments(a + w) == segments(a).push(w),
    decreases w.len(),
{
    let c = w.last();
    let w1 = w.drop_last();
    assert((a + w).drop_last() == a + w1);
    assert((a + w).last() == c);
    assert(is_word_char(w[w.len() - 1]));
    if w1.len() == 0 {
        assert(a + w1 == a);
        assert(w == seq![c]);
    } else {
        assert forall|i: int| 0 <= i < w1.len() implies is_word_char(#[trigger] w1[i]) by {
            assert(w1[i] == w[i]);
        }
        lemma_segments_after_word(a, w1);
        assert((a + w)[(a + w).len() - 2] == w[w.len() - 2]);
        assert(is_word_char(w[w.len() - 2]));
        let prev = segments(a).push(w1);
        assert(w1.push(c) == w);
        assert(prev.update(prev.len() - 1, prev.last().push(c)) == segments(a).push(w));
    }
}

proof fn lemma_segments_after_dash(a: Seq<char>)
    ensures
        segments(a + seq!['-']) == segments(a),
{
    assert((a + seq!['-']).drop_last() == a);
}

/// Splitting words joined by `-` gives the words back.
pub proof fn lemma_segments_of_join(ss: Seq<Seq<char>>)
    requires
        forall|k: int| 0 <= k < ss.len() ==> is_word(#[trigger] ss[k]),
    ensures
        segments(join_dash(ss)) == ss,
    decreases ss.len(),
{
    if ss.len() == 1 {
        assert(is_word(ss[0]));
        lemma_segments_after_word(seq![], ss[0]);
        assert(seq![] + ss[0] == ss[0]);
        assert(segments(seq![]).push(ss[0]) == ss);
    } else if ss.len() > 1 {
        let init = ss.drop_last();
        assert forall|k: int| 0 <= k < init.len() implies is_word(#[trigger] init[k]) by {
            assert(init[k] == ss[k]);
        }
        lemma_segments_of_join(init);
        let a = join_dash(init) + seq!['-'];
        lemma_segments_after_dash(join_dash(init));
        assert(is_word(ss[ss.len() - 1]));
        lemma_segments_after_word(a, ss.last());
        assert(init.push(ss.last()) == ss);
    }
}

/// A non-empty run of lower-case ASCII letters and digits.
pub open spec fn is_lower_word(w: Seq<char>) -> bool {
    w.len() > 0 && forall|i: int|
        0 <= i < w.len() ==> (('a' <= #[trigger] w[i] && w[i] <= 'z') || ('0' <= w[i] && w[i]
            <= '9'))
}

proof fn lemma_segments_lower(s: Seq<char>)
    requires
        forall|i: int| 0 <= i < s.len() ==> !is_ascii_upper(#[trigger] s[i]),
    ensures
        forall|k: int| 0 <= k < segments(s).len() ==> is_lower_word(#[trigger] segments(s)[k]),
    decreases s.len(),
{
    if s.len() > 0 {
        let init = s.drop_last();
        assert forall|i: int| 0 <= i < init.len() implies !is_ascii_upper(#[trigger] init[i]) by {
            assert(init[i] == s[i]);
        }
        lemma_segments_lower(init);
        let prev = segments(init);
        let c = s.last();
        assert(!is_ascii_upper(s[s.len() - 1]));
        if is_word_char(c) && s.len() >= 2 && is_word_char(s[s.len() - 2]) {
            lemma_last_word_nonempty(init);
            let w = prev.last().push(c);
            assert(is_lower_word(prev[prev.len() - 1]));
            assert forall|i: int| 0 <= i < w.len() implies (('a' <= #[trigger] w[i] && w[i] <= 'z')
                || ('0' <= w[i] && w[i] <= '9')) by {
                if i < w.len() - 1 {
                    assert(w[i] == prev.last()[i]);
                }
            }
        } else if is_word_char(c) {
            let w = seq![c];
            assert(w[0] == c);
            assert(is_lower_word(w));
        }
    }
}

proof fn lemma_join_plain(ss: Seq<Seq<char>>)
    requires
        forall|k: int| 0 <= k < ss.len() ==> is_lower_word(#[trigger] ss[k]),
    ensures
        forall|i: int| 0 <= i < join_dash(ss).len() ==> is_plain_lower(#[trigger] join_dash(ss)[i]),
    decreases ss.len(),
{
    if ss.len() == 1 {
        assert(is_lower_word(ss[0]));
    } else if ss.len() > 1 {
        let init = ss.drop_last();
        assert forall|k: int| 0 <= k < init.len() implies is_lower_word(#[trigger] init[k]) by {
            assert(init[k] == ss[k]);
        }
        lemma_join_plain(init);
        let a = join_dash(init);
        let w = ss.last();
        assert(is_lower_word(ss[ss.len() - 1]));
        let j = a + seq!['-'] + w;
        assert forall|i: int| 0 <= i < j.len() implies is_plain_lower(#[trigger] j[i]) by {
            if i < a.len() {
                assert(j[i] == a[i]);
            } else if i == a.len() {
                assert(j[i] == '-');
            } else {
                assert(j[i] == w[i - a.len() - 1]);
            }
        }
    }
}

/// The slug of a text with no ASCII capitals is a normalised slug: at most
/// `MAX_SEGMENTS` words of lower-case letters and digits, joined by single `-`.
pub proof fn lemma_slug_is_normal(s: Seq<char>)
    requires
        forall|i: int| 0 <= i < s.len() ==> !is_ascii_upper(#[trigger] s[i]),
    ensures
        is_normal_slug(slug_of(s)),
{
    lemma_segments_lower(s);
    let segs = first_segments(segments(s));
    assert forall|k: int| 0 <= k < segs.len() implies is_lower_word(#[trigger] segs[k]) by {
        assert(segs[k] == segments(s)[k]);
    }
    assert forall|k: int| 0 <= k < segs.len() implies is_word(#[trigger] segs[k]) by {
        assert(is_lower_word(segs[k]));
        assert forall|i: int| 0 <= i < segs[k].len() implies is_word_char(#[trigger] segs[k][i]) by {
        }
    }
    lemma_join_plain(segs);
    assert(join_dash(segs) == slug_of(s));
}

/// Slugging an already normalised text gives it back unchanged.
pub proof fn lemma_normal_slug_fixed(t: Seq<char>)
    requires
        is_normal_slug(t),
    ensures
        slug_of(t) == t,
{
    let ss = choose|ss: Seq<Seq<char>>|
        ss.len() <= MAX_SEGMENTS && (forall|k: int| 0 <= k < ss.len() ==> is_word(#[trigger] ss[k]))
            && join_dash(ss) == t;
    lemma_segments_of_join(ss);
}

/// Slugging twice gives what slugging once gives.
pub proof fn lemma_slug_idempotent(s: Seq<char>)
    ensures
        slug_of(slug_of(s)) == slug_of(s),
{
    let segs = first_segments(segments(s));
    lemma_segments_are_words(s);
    assert forall|k: int| 0 <= k < segs.len() implies is_word(#[trigger] segs[k]) by {
        assert(segs[k] == segments(s)[k]);
    }
    lemma_segments_of_join(segs);
}

/// A slug has at most `MAX_SEGMENTS` segments, and every one of them is a non-empty run
/// of ASCII letters and digits: runs of separators are collapsed to one `-`, and no `-`
/// leads or trails.
pub proof fn lemma_slug_shape(s: Seq<char>)
    ensures
        segments(slug_of(s)).len() <= MAX_SEGMENTS,
        slug_of(s) == join_dash(segments(slug_of(s))),
        forall|k: int|
            0 <= k < segments(slug_of(s)).len() ==> is_word(#[trigger] segments(slug_of(s))[k]),
{
    lemma_slug_idempotent(s);
    let segs = first_segments(segments(s));
    lemma_segments_are_words(s);
    assert forall|k: int| 0 <= k < segs.len() implies is_word(#[trigger] segs[k]) by {
        assert(segs[k] == segments(s)[k]);
    }
    lemma_segments_of_join(segs);
}

/// The slug of an already lower-cased text.
pub fn slug_of_lowered(lowered: &str) -> (r: String)
    ensures
        r@ == slug_of(lowered@),
{
    let v = chars_of(lowered);
    let n = v.len();
    let mut out: Vec<char> = Vec::new();
    let mut count: usize = 0;
    let mut in_word = false;
    let mut i: usize = 0;
    while i < n
        invariant
            v@ == lowered@,
            n == v.len(),
            i <= n,
            count == segments(v@.take(i as int)).len(),
            count <= i,
            in_word == (i > 0 && is_word_char(v@[i - 1])),
            out@ == join_dash(first_segments(segments(v@.take(i as int)))),
        decreases n - i,
    {
        let c = v[i];
        let ghost pre = v@.take(i as int);
        let ghost t = v@.take(i + 1);
        let ghost prev = segments(pre);
        assert(t.drop_last() == pre);
        assert(t.last() == c);
        if is_ascii_alphanumeric(c) {
            if in_word {
                assert(t[t.len() - 2] == v@[i - 1]);
                proof {
                    lemma_last_word_nonempty(pre);
                }
                assert(segments(t) == prev.update(prev.len() - 1, prev.last().push(c)));
                if count <= MAX_SEGMENTS {
                    proof {
                        lemma_join_extend_last(prev, c);
                    }
                    out.push(c);
                } else {
                    assert(first_segments(segments(t)) == first_segments(prev));
                }
            } else {
                assert(segments(t) == prev.push(seq![c]));
                if count < MAX_SEGMENTS {
                    proof {
                        lemma_join_push(prev, seq![c]);
                    }
                    if count > 0 {
                        out.push('-');
                    }
                    out.push(c);
                    assert(out@ == join_dash(prev.push(seq![c])));
                } else {
                    assert(first_segments(segments(t)) == first_segments(prev));
                }
                count = count + 1;
            }
            in_word = true;
        } else {
            in_word = false;
        }
        i = i + 1;
    }
    assert(v@.take(n as int) == lowered@);
    string_of(&out)
}

/// A filename-safe identifier for a free-text title: the text lower-cased, every
/// character other than an ASCII letter or digit taken as a separator, and the first
/// `MAX_SEGMENTS` non-empty segments joined by `-`. The result is itself a normalised
/// slug, and a normalised slug is its own result, so slugging twice changes nothing.
pub fn slugify(s: &str) -> (r: String)
    ensures
        r@ == slug_of(lower_of(s@)),
        is_normal_slug(s@) ==> r@ == s@,
        is_normal_slug(r@),
{
    let lowered = lowercase(s);
    proof {
        if is_normal_slug(s@) {
            lemma_normal_slug_fixed(s@);
        }
        lemma_slug_is_normal(lowered@);
    }
    slug_of_lowered(lowered.as_str())
}

} // verus!
