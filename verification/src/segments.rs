use vstd::prelude::*;
use vstd::string::StrSliceExecFns;

verus! {

/// A piece of a text line: plain text, or a LaTeX formula that was written
/// between two `\$` delimiters.
#[derive(Debug)]
pub enum TextSegment<'a> {
    Plain(&'a str),
    LaTeX(&'a str),
}

/// What a segment holds, as characters.
pub enum SegmentModel {
    Plain(Seq<char>),
    Latex(Seq<char>),
}

impl<'a> View for TextSegment<'a> {
    type V = SegmentModel;

    open spec fn view(&self) -> SegmentModel {
        match self {
            TextSegment::Plain(s) => SegmentModel::Plain(s@),
            TextSegment::LaTeX(s) => SegmentModel::Latex(s@),
        }
    }
}

/// The two-character delimiter `\$` that opens and closes a formula.
pub open spec fn delimiter() -> Seq<char> {
    seq!['\\', '$']
}

/// Whether a delimiter starts at index `i` of `s`.
pub open spec fn is_delim_at(s: Seq<char>, i: int) -> bool {
    0 <= i && i + 1 < s.len() && s[i] == '\\' && s[i + 1] == '$'
}

/// The index of the first delimiter in `s`, if there is one.
pub open spec fn first_delim(s: Seq<char>) -> Option<nat>
    decreases s.len(),
{
    if s.len() < 2 {
        None
    } else if s[0] == '\\' && s[1] == '$' {
        Some(0)
    } else {
        match first_delim(s.drop_first()) {
            Some(i) => Some(i + 1),
            None => None,
        }
    }
}

/// `first_delim` finds the leftmost delimiter, or reports that there is none.
pub proof fn lemma_first_delim(s: Seq<char>)
    ensures
        match first_delim(s) {
            Some(i) => is_delim_at(s, i as int) && forall|k: int| 0 <= k < i ==> !is_delim_at(s, k),
            None => forall|k: int| !is_delim_at(s, k),
        },
    decreases s.len(),
{
    if s.len() >= 2 && !(s[0] == '\\' && s[1] == '$') {
        let t = s.drop_first();
        lemma_first_delim(t);
        assert forall|k: int| #[trigger] is_delim_at(s, k) && k > 0 implies is_delim_at(t, k - 1) by {}
        assert forall|k: int| #[trigger] is_delim_at(t, k) implies is_delim_at(s, k + 1) by {}
    }
}

/// How a line splits into segments, reading left to right: text before a
/// delimiter is plain (dropped when empty); the text up to the next
/// delimiter is a formula. An opening delimiter without a closing one is
/// kept as plain text, followed by the rest of the line as plain text.
pub open spec fn segments_of(s: Seq<char>) -> Seq<SegmentModel>
    decreases s.len(),
{
    if s.len() == 0 {
        seq![]
    } else {
        match first_delim(s) {
            None => seq![SegmentModel::Plain(s)],
            Some(i) => {
                proof {
                    lemma_first_delim(s);
                }
                let before = if i > 0 {
                    seq![SegmentModel::Plain(s.take(i as int))]
                } else {
                    seq![]
                };
                let r = s.skip(i + 2int);
                match first_delim(r) {
                    None => before + seq![SegmentModel::Plain(delimiter()), SegmentModel::Plain(r)],
                    Some(j) => {
                        proof {
                            lemma_first_delim(r);
                        }
                        before + seq![SegmentModel::Latex(r.take(j as int))] + segments_of(
                            r.skip(j + 2int),
                        )
                    },
                }
            },
        }
    }
}

/// The text a segment stands for in the line: formulas get their
/// delimiters back.
pub open spec fn segment_source(seg: SegmentModel) -> Seq<char> {
    match seg {
        SegmentModel::Plain(t) => t,
        SegmentModel::Latex(t) => delimiter() + t + delimiter(),
    }
}

/// The text of a list of segments, joined.
pub open spec fn joined_source(segs: Seq<SegmentModel>) -> Seq<char>
    decreases segs.len(),
{
    if segs.len() == 0 {
        seq![]
    } else {
        segment_source(segs[0]) + joined_source(segs.drop_first())
    }
}

proof fn lemma_joined_single(x: SegmentModel)
    ensures
        joined_source(seq![x]) == segment_source(x),
{
    let one = seq![x];
    assert(one.drop_first() =~= Seq::<SegmentModel>::empty());
    assert(joined_source(Seq::<SegmentModel>::empty()) == Seq::<char>::empty());
    assert(one[0] == x);
    assert(joined_source(one) == segment_source(x) + joined_source(one.drop_first()));
    assert(segment_source(x) + Seq::<char>::empty() =~= segment_source(x));
}

proof fn lemma_joined_concat(a: Seq<SegmentModel>, b: Seq<SegmentModel>)
    ensures
        joined_source(a + b) == joined_source(a) + joined_source(b),
    decreases a.len(),
{
    if a.len() == 0 {
        assert(a + b =~= b);
        assert(joined_source(a) + joined_source(b) =~= joined_source(b));
    } else {
        assert((a + b).drop_first() =~= a.drop_first() + b);
        lemma_joined_concat(a.drop_first(), b);
        assert(joined_source(a + b) =~= segment_source(a[0]) + (joined_source(a.drop_first())
            + joined_source(b)));
    }
}

/// Splitting loses nothing: joining the segments, with the formulas' delimiters
/// put back, gives the line again.
pub proof fn lemma_segments_rebuild_line(s: Seq<char>)
    ensures
        joined_source(segments_of(s)) == s,
    decreases s.len(),
{
    if s.len() == 0 {
        return;
    }
    lemma_first_delim(s);
    match first_delim(s) {
        None => {
            lemma_joined_single(SegmentModel::Plain(s));
        },
        Some(i) => {
            let before = if i > 0 {
                seq![SegmentModel::Plain(s.take(i as int))]
            } else {
                seq![]
            };
            assert(joined_source(before) =~= s.take(i as int)) by {
                if i > 0 {
                        lemma_joined_single(SegmentModel::Plain(s.take(i as int)));
                }
            }
            let r = s.skip(i + 2int);
            assert(s.subrange(i as int, i + 2int) =~= delimiter());
            lemma_first_delim(r);
            match first_delim(r) {
                None => {
                    let tail = seq![SegmentModel::Plain(delimiter()), SegmentModel::Plain(r)];
                    lemma_joined_concat(before, tail);
                    lemma_joined_concat(
                        seq![SegmentModel::Plain(delimiter())],
                        seq![SegmentModel::Plain(r)],
                    );
                    assert(tail =~= seq![SegmentModel::Plain(delimiter())] + seq![
                        SegmentModel::Plain(r),
                    ]);
                    lemma_joined_single(SegmentModel::Plain(delimiter()));
                    lemma_joined_single(SegmentModel::Plain(r));
                    assert(s =~= s.take(i as int) + delimiter() + r);
                },
                Some(j) => {
                    let rest = r.skip(j + 2int);
                    lemma_segments_rebuild_line(rest);
                    let mid = seq![SegmentModel::Latex(r.take(j as int))];
                    lemma_joined_concat(before, mid);
                    lemma_joined_concat(before + mid, segments_of(rest));
                    lemma_joined_single(SegmentModel::Latex(r.take(j as int)));
                    assert(r.subrange(j as int, j + 2int) =~= delimiter());
                    assert(r =~= r.take(j as int) + delimiter() + rest);
                    assert(s =~= s.take(i as int) + delimiter() + r);
                    assert(segments_of(s) == before + mid + segments_of(rest));
                },
            }
        },
    }
}

/// No formula contains the delimiter.
pub proof fn lemma_formulas_have_no_delimiter(s: Seq<char>, n: int)
    requires
        0 <= n < segments_of(s).len(),
        segments_of(s)[n] matches SegmentModel::Latex(_),
    ensures
        forall|k: int| !is_delim_at(segments_of(s)[n]->Latex_0, k),
    decreases s.len(),
{
    lemma_first_delim(s);
    if let Some(i) = first_delim(s) {
        let before = if i > 0 {
            seq![SegmentModel::Plain(s.take(i as int))]
        } else {
            seq![]
        };
        let r = s.skip(i + 2int);
        lemma_first_delim(r);
        if let Some(j) = first_delim(r) {
            let f = r.take(j as int);
            let rest = r.skip(j + 2int);
            let head = before + seq![SegmentModel::Latex(f)];
            assert(segments_of(s) == head + segments_of(rest));
            if n < head.len() {
                assert(segments_of(s)[n] == head[n]);
                assert(n == head.len() - 1);
                assert forall|k: int| !is_delim_at(f, k) by {
                    if is_delim_at(f, k) {
                        assert(is_delim_at(r, k));
                    }
                }
            } else {
                assert(segments_of(s)[n] == segments_of(rest)[n - head.len()]);
                lemma_formulas_have_no_delimiter(rest, n - head.len());
            }
        }
    }
}

/// A line splits into no segments exactly when it is empty.
pub proof fn lemma_segments_empty_iff_line_empty(s: Seq<char>)
    ensures
        segments_of(s).len() == 0 <==> s.len() == 0,
{
    if s.len() > 0 {
        lemma_first_delim(s);
        if let Some(i) = first_delim(s) {
            let before = if i > 0 {
                seq![SegmentModel::Plain(s.take(i as int))]
            } else {
                seq![]
            };
            let r = s.skip(i + 2int);
            lemma_first_delim(r);
            if let Some(j) = first_delim(r) {
                let head = before + seq![SegmentModel::Latex(r.take(j as int))];
                assert(segments_of(s) == head + segments_of(r.skip(j + 2int)));
                assert(head.len() >= 1);
            }
        }
    }
}

/// Whether a delimiter occurs anywhere in `t`.
pub open spec fn has_delimiter(t: Seq<char>) -> bool {
    exists|k: int| is_delim_at(t, k)
}

/// An opening delimiter without a closing one shows up as a plain segment
/// holding just the delimiter, followed by exactly one more segment, the
/// last: plain text, free of delimiters. A plain segment holding just the
/// delimiter means nothing else.
pub proof fn lemma_unmatched_delimiter_is_last(s: Seq<char>, n: int)
    requires
        0 <= n < segments_of(s).len(),
        segments_of(s)[n] == SegmentModel::Plain(delimiter()),
    ensures
        n + 2 == segments_of(s).len(),
        segments_of(s)[n + 1] matches SegmentModel::Plain(rest) && !has_delimiter(rest),
    decreases s.len(),
{
    lemma_first_delim(s);
    assert(is_delim_at(delimiter(), 0));
    match first_delim(s) {
        None => {
            assert(segments_of(s) == seq![SegmentModel::Plain(s)]);
            assert(s == delimiter());
            assert(is_delim_at(s, 0));
        },
        Some(i) => {
            let before = if i > 0 {
                seq![SegmentModel::Plain(s.take(i as int))]
            } else {
                seq![]
            };
            if i > 0 && n == 0 {
                assert(segments_of(s)[0] == SegmentModel::Plain(s.take(i as int))) by {
                    let r = s.skip(i + 2int);
                    lemma_first_delim(r);
                    if let Some(j) = first_delim(r) {
                        let head = before + seq![SegmentModel::Latex(r.take(j as int))];
                        assert(segments_of(s) == head + segments_of(r.skip(j + 2int)));
                    }
                }
                assert(s.take(i as int) == delimiter());
                assert(is_delim_at(s, 0));
                assert(false);
            }
            let r = s.skip(i + 2int);
            lemma_first_delim(r);
            match first_delim(r) {
                None => {
                    let tail = seq![SegmentModel::Plain(delimiter()), SegmentModel::Plain(r)];
                    assert(segments_of(s) == before + tail);
                    if n == before.len() + 1 {
                        assert(r == delimiter());
                        assert(is_delim_at(r, 0));
                    }
                    assert(!has_delimiter(r));
                },
                Some(j) => {
                    let rest = r.skip(j + 2int);
                    let head = before + seq![SegmentModel::Latex(r.take(j as int))];
                    assert(segments_of(s) == head + segments_of(rest));
                    assert(n >= head.len());
                    assert(segments_of(s)[n] == segments_of(rest)[n - head.len()]);
                    lemma_unmatched_delimiter_is_last(rest, n - head.len());
                    assert(segments_of(s)[n + 1] == segments_of(rest)[n - head.len() + 1]);
                },
            }
        },
    }
}

fn find_delim(chars: &Vec<char>, from: usize) -> (r: Option<usize>)
    requires
        from <= chars@.len(),
    ensures
        match r {
            Some(k) => from <= k && k + 2 <= chars@.len() && first_delim(chars@.skip(from as int))
                == Some((k - from) as nat),
            None => first_delim(chars@.skip(from as int)) is None,
        },
{
    let ghost s = chars@.skip(from as int);
    proof {
        lemma_first_delim(s);
    }
    let n = chars.len();
    let mut k = from;
    while k < n && n - k > 1
        invariant
            n == chars@.len(),
            from <= k <= n,
            s == chars@.skip(from as int),
            forall|m: int| 0 <= m < k - from ==> !is_delim_at(s, m),
        decreases n - k,
    {
        if chars[k] == '\\' && chars[k + 1] == '$' {
            assert(is_delim_at(s, k - from));
            proof {
                lemma_first_delim(s);
                let i = first_delim(s)->0;
                assert(first_delim(s) is Some);
                assert(!(i < k - from));
                assert(!(i > k - from));
            }
            return Some(k);
        }
        assert(!is_delim_at(s, k - from));
        k = k + 1;
    }
    assert forall|m: int| !is_delim_at(s, m) by {
        if 0 <= m && m >= k - from {
            assert(m + 1 >= s.len());
        }
    }
    None
}

fn chars_of(line: &str) -> (v: Vec<char>)
    ensures
        v@ == line@,
{
    let n = line.unicode_len();
    let mut v: Vec<char> = Vec::new();
    let mut i: usize = 0;
    while i < n
        invariant
            n == line@.len(),
            i <= n,
            v@ == line@.take(i as int),
        decreases n - i,
    {
        v.push(line.get_char(i));
        i = i + 1;
        assert(v@ =~= line@.take(i as int));
    }
    assert(line@.take(n as int) =~= line@);
    v
}

/// The views of a list of segments.
pub open spec fn segment_views<'a>(v: Seq<TextSegment<'a>>) -> Seq<SegmentModel> {
    v.map_values(|seg: TextSegment<'a>| seg@)
}

/// Splits a line of text into plain runs and `\$`-delimited formulas.
pub fn parse_segments<'a>(line: &'a str) -> (segments: Vec<TextSegment<'a>>)
    ensures
        segment_views(segments@) == segments_of(line@),
{
    let chars = chars_of(line);
    let n = chars.len();
    let mut segments: Vec<TextSegment<'a>> = Vec::new();
    let mut pos: usize = 0;
    assert(line@.skip(0) =~= line@);
    loop
        invariant_except_break
            pos <= n,
            segments_of(line@) == segment_views(segments@) + segments_of(line@.skip(pos as int)),
        invariant
            n == line@.len(),
            chars@ == line@,
        ensures
            segment_views(segments@) == segments_of(line@),
        decreases n - pos,
    {
        let ghost s = line@.skip(pos as int);
        let ghost old_views = segment_views(segments@);
        if pos == n {
            assert(s.len() == 0);
            assert(segment_views(segments@) + seq![] =~= segment_views(segments@));
            break;
        }
        proof {
            lemma_first_delim(s);
        }
        match find_delim(&chars, pos) {
            None => {
                segments.push(TextSegment::Plain(line.substring_char(pos, n)));
                assert(line@.subrange(pos as int, n as int) =~= s);
                assert(segment_views(segments@) =~= old_views + seq![SegmentModel::Plain(s)]);
                break;
            },
            Some(start) => {
                let ghost i = (start - pos) as nat;
                let ghost before = if i > 0 {
                    seq![SegmentModel::Plain(s.take(i as int))]
                } else {
                    seq![]
                };
                if start > pos {
                    segments.push(TextSegment::Plain(line.substring_char(pos, start)));
                    assert(line@.subrange(pos as int, start as int) =~= s.take(i as int));
                }
                assert(segment_views(segments@) =~= old_views + before);
                let after = start + 2;
                let ghost r = s.skip(i + 2int);
                assert(r =~= line@.skip(after as int));
                match find_delim(&chars, after) {
                    None => {
                        let ghost mid = segment_views(segments@);
                        segments.push(TextSegment::Plain("\\$"));
                        proof {
                            reveal_strlit("\\$");
                            assert("\\$"@ =~= delimiter());
                        }
                        segments.push(TextSegment::Plain(line.substring_char(after, n)));
                        assert(line@.subrange(after as int, n as int) =~= r);
                        assert(segment_views(segments@) =~= mid + seq![
                            SegmentModel::Plain(delimiter()),
                            SegmentModel::Plain(r),
                        ]);
                        assert(segments_of(s) == before + seq![
                            SegmentModel::Plain(delimiter()),
                            SegmentModel::Plain(r),
                        ]);
                        break;
                    },
                    Some(end) => {
                        let ghost j = (end - after) as nat;
                        let ghost mid = segment_views(segments@);
                        segments.push(TextSegment::LaTeX(line.substring_char(after, end)));
                        assert(line@.subrange(after as int, end as int) =~= r.take(j as int));
                        assert(segment_views(segments@) =~= mid + seq![
                            SegmentModel::Latex(r.take(j as int)),
                        ]);
                        assert(r.skip(j + 2int) =~= line@.skip(end + 2));
                        assert(segments_of(s) == before + seq![
                            SegmentModel::Latex(r.take(j as int)),
                        ] + segments_of(r.skip(j + 2int)));
                        pos = end + 2;
                        assert(segments_of(line@) =~= segment_views(segments@) + segments_of(
                            line@.skip(pos as int),
                        ));
                    },
                }
            },
        }
    }
    segments
}

} // verus!
