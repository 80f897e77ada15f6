use vstd::prelude::*;

use crate::codec::{ETX, LETTER_D, LETTER_F, LETTER_Q, LETTER_R, LETTER_T, LETTER_Y, SP, STX};
use crate::errors::ParseError;
use crate::hex::{hex_value, is_hex_u32, parse_hex_u32, strip_plus};

verus! {

/// Is `b` one of the two frame delimiter bytes?
pub open spec fn is_delim(b: u8) -> bool {
    b == STX || b == ETX
}

/// How many bytes of `s` precede the first one that satisfies `stop`;
/// `s.len()` when none does.
pub open spec fn prefix_len_until(s: Seq<u8>, stop: spec_fn(u8) -> bool) -> int
    decreases s.len(),
{
    if s.len() == 0 {
        0
    } else if stop(s[0]) {
        0
    } else {
        1 + prefix_len_until(s.drop_first(), stop)
    }
}

/// What `prefix_len_until` returns: an in-range index, nothing stopping
/// before it, and a stopping byte at it unless it is the length.
pub proof fn lemma_prefix_len_until(s: Seq<u8>, stop: spec_fn(u8) -> bool)
    ensures
        0 <= prefix_len_until(s, stop) <= s.len(),
        forall|j: int| 0 <= j < prefix_len_until(s, stop) ==> !stop(#[trigger] s[j]),
        prefix_len_until(s, stop) < s.len() ==> stop(s[prefix_len_until(s, stop)]),
    decreases s.len(),
{
    if s.len() > 0 && !stop(s[0]) {
        lemma_prefix_len_until(s.drop_first(), stop);
        assert forall|j: int| 0 <= j < prefix_len_until(s, stop) implies !stop(#[trigger] s[j]) by {
            if j > 0 {
                assert(s[j] == s.drop_first()[j - 1]);
            }
        }
    }
}

/// Conversely, an index with nothing stopping before it and a stopping
/// byte at it (or the length) is what `prefix_len_until` returns.
pub proof fn lemma_prefix_len_until_is(s: Seq<u8>, stop: spec_fn(u8) -> bool, i: int)
    requires
        0 <= i <= s.len(),
        forall|j: int| 0 <= j < i ==> !stop(#[trigger] s[j]),
        i < s.len() ==> stop(s[i]),
    ensures
        prefix_len_until(s, stop) == i,
    decreases s.len(),
{
    if s.len() > 0 && !stop(s[0]) {
        assert forall|j: int| 0 <= j < i - 1 implies !stop(#[trigger] s.drop_first()[j]) by {
            assert(s.drop_first()[j] == s[j + 1]);
        }
        if i < s.len() {
            assert(s.drop_first()[i - 1] == s[i]);
        }
        lemma_prefix_len_until_is(s.drop_first(), stop, i - 1);
    }
}

/// The predicate that stops a scan at a frame delimiter.
pub open spec fn delim_pred() -> spec_fn(u8) -> bool {
    |b: u8| is_delim(b)
}

/// The predicate that stops a scan at a space.
pub open spec fn space_pred() -> spec_fn(u8) -> bool {
    |b: u8| b == SP
}

/// The index of the first delimiter byte in `s`, or its length.
pub open spec fn first_delim(s: Seq<u8>) -> int {
    prefix_len_until(s, delim_pred())
}

/// The index of the first space in `s`, or its length.
pub open spec fn first_space(s: Seq<u8>) -> int {
    prefix_len_until(s, space_pred())
}

/// The pieces of `s` between delimiter bytes, in order: what splitting on
/// STX and ETX yields, empty pieces included.
pub open spec fn split_frames(s: Seq<u8>) -> Seq<Seq<u8>>
    decreases s.len(),
{
    let i = first_delim(s);
    if 0 <= i && i < s.len() {
        seq![s.take(i)] + split_frames(s.skip(i + 1))
    } else {
        seq![s]
    }
}

/// The frames with the empty pieces dropped, order kept.
pub open spec fn nonempty_frames(frames: Seq<Seq<u8>>) -> Seq<Seq<u8>>
    decreases frames.len(),
{
    if frames.len() == 0 {
        Seq::empty()
    } else if frames[0].len() > 0 {
        seq![frames[0]] + nonempty_frames(frames.drop_first())
    } else {
        nonempty_frames(frames.drop_first())
    }
}

/// The sub-messages embedded in a handshake response: the non-empty pieces
/// between delimiters, after the leading acknowledgment piece is skipped.
pub open spec fn response_segments(s: Seq<u8>) -> Seq<Seq<u8>> {
    nonempty_frames(split_frames(s).drop_first())
}

/// The tag of a segment: everything before its first space.
pub open spec fn seg_tag(seg: Seq<u8>) -> Seq<u8> {
    seg.take(first_space(seg))
}

/// The first field of a segment: the bytes between its first space and the
/// next space or its end; nothing when it has no space at all.
pub open spec fn seg_field(seg: Seq<u8>) -> Option<Seq<u8>> {
    if first_space(seg) == seg.len() {
        None
    } else {
        let rest = seg.skip(first_space(seg) + 1);
        Some(rest.take(first_space(rest)))
    }
}

/// The `FRQ` tag bytes.
pub open spec fn frq_tag() -> Seq<u8> {
    seq![LETTER_F, LETTER_R, LETTER_Q]
}

/// The `DTY` tag bytes.
pub open spec fn dty_tag() -> Seq<u8> {
    seq![LETTER_D, LETTER_T, LETTER_Y]
}

/// Does the segment's tag start with `FRQ`, the device's frequency report?
pub open spec fn is_frq_segment(seg: Seq<u8>) -> bool {
    seg_tag(seg).len() >= 3 && seg_tag(seg).take(3) == frq_tag()
}

/// Does the segment's tag start with `DTY`, the device's duty report?
pub open spec fn is_dty_segment(seg: Seq<u8>) -> bool {
    seg_tag(seg).len() >= 3 && seg_tag(seg).take(3) == dty_tag()
}

/// The wire value a segment carries: its first field read as hexadecimal,
/// nothing when the field is absent or malformed.
pub open spec fn seg_value(seg: Seq<u8>) -> Option<u32> {
    match seg_field(seg) {
        Option::None => Option::None,
        Option::Some(f) => if is_hex_u32(f) {
            Option::Some(hex_value(strip_plus(f)) as u32)
        } else {
            Option::None
        },
    }
}

/// Every recognized segment carries a parseable field; an unrecognized tag
/// may carry anything.
pub open spec fn segments_well_formed(segs: Seq<Seq<u8>>) -> bool {
    forall|i: int|
        0 <= i < segs.len() && (is_frq_segment(#[trigger] segs[i]) || is_dty_segment(segs[i]))
            ==> seg_value(segs[i]) is Some
}

/// The frequency a segment list reports: the value of its last `FRQ`
/// segment, and 0 when none is present.
pub open spec fn freq_of(segs: Seq<Seq<u8>>) -> u32
    decreases segs.len(),
{
    if segs.len() == 0 {
        0
    } else if is_frq_segment(segs.last()) {
        match seg_value(segs.last()) {
            Option::Some(v) => v,
            Option::None => 0,
        }
    } else {
        freq_of(segs.drop_last())
    }
}

/// The raw duty a segment list reports: the value of its last `DTY`
/// segment, and 0 when none is present.
pub open spec fn duty_raw_of(segs: Seq<Seq<u8>>) -> u32
    decreases segs.len(),
{
    if segs.len() == 0 {
        0
    } else if is_dty_segment(segs.last()) {
        match seg_value(segs.last()) {
            Option::Some(v) => v,
            Option::None => 0,
        }
    } else {
        duty_raw_of(segs.drop_last())
    }
}

/// What a whole handshake response decodes to: the reported frequency in
/// Hertz and the raw duty wire value, or nothing when some recognized tag
/// carries a malformed field.
pub open spec fn handshake_values(response: Seq<u8>) -> Option<(u32, u32)> {
    let segs = response_segments(response);
    if segments_well_formed(segs) {
        Option::Some((freq_of(segs), duty_raw_of(segs)))
    } else {
        Option::None
    }
}

/// Forward compatibility: a segment whose tag is neither `FRQ` nor `DTY`
/// changes nothing, wherever it stands in the list. A response that mixes
/// unknown tags with valid reports still decodes to the same values.
pub proof fn lemma_unknown_tag_ignored(segs: Seq<Seq<u8>>, k: int, seg: Seq<u8>)
    requires
        0 <= k <= segs.len(),
        !is_frq_segment(seg),
        !is_dty_segment(seg),
    ensures
        freq_of(segs.insert(k, seg)) == freq_of(segs),
        duty_raw_of(segs.insert(k, seg)) == duty_raw_of(segs),
        segments_well_formed(segs.insert(k, seg)) == segments_well_formed(segs),
    decreases segs.len(),
{
    let grown = segs.insert(k, seg);
    assert(grown.len() == segs.len() + 1);
    if k == segs.len() {
        assert(grown.last() == seg);
        assert(grown.drop_last() =~= segs);
    } else {
        assert(grown.last() == segs.last());
        assert(grown.drop_last() =~= segs.drop_last().insert(k, seg));
        lemma_unknown_tag_ignored(segs.drop_last(), k, seg);
        if segs.len() > 0 && !is_frq_segment(segs.last()) {
            assert(freq_of(grown) == freq_of(segs.drop_last().insert(k, seg)));
        }
    }
    assert(segments_well_formed(grown) == segments_well_formed(segs)) by {
        if segments_well_formed(segs) {
            assert forall|i: int|
                0 <= i < grown.len() && (is_frq_segment(#[trigger] grown[i]) || is_dty_segment(
                    grown[i],
                )) implies seg_value(grown[i]) is Some by {
                if i < k {
                    assert(grown[i] == segs[i]);
                } else if i == k {
                    assert(grown[i] == seg);
                } else {
                    assert(grown[i] == segs[i - 1]);
                }
            }
        } else {
            let bad = choose|i: int|
                0 <= i < segs.len() && (is_frq_segment(#[trigger] segs[i]) || is_dty_segment(
                    segs[i],
                )) && !(seg_value(segs[i]) is Some);
            if bad < k {
                assert(grown[bad] == segs[bad]);
            } else {
                assert(grown[bad + 1] == segs[bad]);
            }
        }
    }
}

/// Scan for the next delimiter byte at or after `from`.
fn find_delim_from(s: &[u8], from: usize) -> (j: usize)
    requires
        from <= s@.len(),
    ensures
        from <= j <= s@.len(),
        forall|k: int| from <= k < j ==> !is_delim(#[trigger] s@[k]),
        j < s@.len() ==> is_delim(s@[j as int]),
{
    let n = s.len();
    let mut j = from;
    while j < n
        invariant
            from <= j <= n == s@.len(),
            forall|k: int| from <= k < j ==> !is_delim(#[trigger] s@[k]),
        decreases n - j,
    {
        let b = *vstd::slice::slice_index_get(s, j);
        if b == STX || b == ETX {
            return j;
        }
        j = j + 1;
    }
    j
}

/// Scan for the next space at or after `from`, stopping at `to`.
fn find_space_from(s: &[u8], from: usize, to: usize) -> (j: usize)
    requires
        from <= to <= s@.len(),
    ensures
        from <= j <= to,
        forall|k: int| from <= k < j ==> #[trigger] s@[k] != SP,
        j < to ==> s@[j as int] == SP,
{
    let mut j = from;
    while j < to
        invariant
            from <= j <= to <= s@.len(),
            forall|k: int| from <= k < j ==> #[trigger] s@[k] != SP,
        decreases to - j,
    {
        let b = *vstd::slice::slice_index_get(s, j);
        if b == SP {
            return j;
        }
        j = j + 1;
    }
    j
}

/// Splitting off the leading acknowledgment piece: past its first
/// delimiter, a response is nothing but its segments.
proof fn lemma_response_segments_decomp(s: Seq<u8>, j: int)
    requires
        0 <= j <= s.len(),
        forall|k: int| 0 <= k < j ==> !is_delim(#[trigger] s[k]),
        j < s.len() ==> is_delim(s[j]),
    ensures
        j == s.len() ==> response_segments(s) == Seq::<Seq<u8>>::empty(),
        j < s.len() ==> response_segments(s) == nonempty_frames(split_frames(s.skip(j + 1))),
{
    assert forall|k: int| 0 <= k < j implies !(delim_pred()(s[k])) by {
        assert(!is_delim(s[k]));
    }
    lemma_prefix_len_until_is(s, delim_pred(), j);
    assert(first_delim(s) == j);
    if j == s.len() {
        assert(split_frames(s) == seq![s]);
        assert(split_frames(s).drop_first() =~= Seq::<Seq<u8>>::empty());
    } else {
        assert(split_frames(s) == seq![s.take(j)] + split_frames(s.skip(j + 1)));
        assert(split_frames(s).drop_first() =~= split_frames(s.skip(j + 1)));
    }
}

/// One scan step: with everything in `[a, j)` delimiter-free and `j` at a
/// delimiter or the end, the segments of `s.skip(a)` are the piece
/// `s.subrange(a, j)` (when non-empty) followed by the segments past `j`.
proof fn lemma_frames_step(s: Seq<u8>, a: int, j: int)
    requires
        0 <= a <= j <= s.len(),
        forall|k: int| a <= k < j ==> !is_delim(#[trigger] s[k]),
        j < s.len() ==> is_delim(s[j]),
    ensures
        j == s.len() ==> nonempty_frames(split_frames(s.skip(a))) == (if j > a {
            seq![s.subrange(a, j)]
        } else {
            Seq::<Seq<u8>>::empty()
        }),
        j < s.len() ==> nonempty_frames(split_frames(s.skip(a))) == (if j > a {
            seq![s.subrange(a, j)]
        } else {
            Seq::<Seq<u8>>::empty()
        }) + nonempty_frames(split_frames(s.skip(j + 1))),
{
    let t = s.skip(a);
    assert forall|k: int| 0 <= k < j - a implies !(delim_pred()(t[k])) by {
        assert(t[k] == s[a + k]);
    }
    if j < s.len() {
        assert(t[j - a] == s[j]);
    }
    lemma_prefix_len_until_is(t, delim_pred(), j - a);
    assert(first_delim(t) == j - a);
    if j == s.len() {
        assert(split_frames(t) == seq![t]);
        assert(t == s.subrange(a, j));
        let frames = seq![t];
        assert(frames[0] == t);
        assert(frames.drop_first() =~= Seq::<Seq<u8>>::empty());
        assert(nonempty_frames(Seq::<Seq<u8>>::empty()) == Seq::<Seq<u8>>::empty());
        if t.len() > 0 {
            assert(nonempty_frames(frames) == seq![t] + nonempty_frames(frames.drop_first()));
            assert(nonempty_frames(split_frames(t)) =~= seq![s.subrange(a, j)]);
        } else {
            assert(nonempty_frames(frames) == nonempty_frames(frames.drop_first()));
            assert(nonempty_frames(split_frames(t)) =~= Seq::<Seq<u8>>::empty());
        }
    } else {
        let piece = t.take(j - a);
        let rest = split_frames(t.skip(j - a + 1));
        assert(split_frames(t) == seq![piece] + rest);
        assert(piece == s.subrange(a, j));
        assert(t.skip(j - a + 1) =~= s.skip(j + 1));
        let frames = seq![piece] + rest;
        assert(frames[0] == piece);
        assert(frames.drop_first() =~= rest);
        if piece.len() > 0 {
            assert(nonempty_frames(frames) == seq![piece] + nonempty_frames(rest));
        } else {
            assert(nonempty_frames(frames) == nonempty_frames(rest));
            assert(nonempty_frames(frames) =~= Seq::<Seq<u8>>::empty() + nonempty_frames(rest));
        }
    }
}

/// The executable three-byte prefix tests match the tag predicates.
proof fn lemma_tag_test(seg: Seq<u8>)
    ensures
        is_frq_segment(seg) <==> (seg.len() >= 3 && seg[0] == LETTER_F && seg[1] == LETTER_R
            && seg[2] == LETTER_Q),
        is_dty_segment(seg) <==> (seg.len() >= 3 && seg[0] == LETTER_D && seg[1] == LETTER_T
            && seg[2] == LETTER_Y),
{
    lemma_prefix_len_until(seg, space_pred());
    let fs = first_space(seg);
    assert(seg_tag(seg).len() == fs);
    if seg.len() >= 3 && ((seg[0] == LETTER_F && seg[1] == LETTER_R && seg[2] == LETTER_Q) || (
    seg[0] == LETTER_D && seg[1] == LETTER_T && seg[2] == LETTER_Y)) {
        assert(fs >= 3) by {
            if fs < 3 {
                assert(space_pred()(seg[fs]));
            }
        }
        assert(seg_tag(seg).take(3) =~= seg.take(3));
        if seg[0] == LETTER_F {
            assert(seg.take(3) =~= frq_tag());
        } else {
            assert(seg.take(3) =~= dty_tag());
        }
    }
    if is_frq_segment(seg) {
        assert(fs >= 3 && fs <= seg.len());
        assert(seg_tag(seg).take(3) =~= seg.take(3));
        assert(seg[0] == frq_tag()[0] && seg[1] == frq_tag()[1] && seg[2] == frq_tag()[2]);
    }
    if is_dty_segment(seg) {
        assert(fs >= 3 && fs <= seg.len());
        assert(seg_tag(seg).take(3) =~= seg.take(3));
        assert(seg[0] == dty_tag()[0] && seg[1] == dty_tag()[1] && seg[2] == dty_tag()[2]);
    }
}

/// What the field scan found is the segment's field.
proof fn lemma_field_extract(s: Seq<u8>, a: int, fsp: int, fe: int, j: int)
    requires
        0 <= a <= fsp < j <= s.len(),
        forall|k: int| a <= k < fsp ==> #[trigger] s[k] != SP,
        s[fsp] == SP,
        fsp < fe <= j,
        forall|k: int| fsp + 1 <= k < fe ==> #[trigger] s[k] != SP,
        fe < j ==> s[fe] == SP,
    ensures
        seg_field(s.subrange(a, j)) == Option::Some(s.subrange(fsp + 1, fe)),
{
    let seg = s.subrange(a, j);
    assert forall|k: int| 0 <= k < fsp - a implies !(space_pred()(seg[k])) by {
        assert(seg[k] == s[a + k]);
    }
    assert(seg[fsp - a] == s[fsp]);
    assert(space_pred()(seg[fsp - a]));
    lemma_prefix_len_until_is(seg, space_pred(), fsp - a);
    assert(first_space(seg) == fsp - a);
    let rest = seg.skip(fsp - a + 1);
    assert(rest =~= s.subrange(fsp + 1, j));
    assert forall|k: int| 0 <= k < fe - fsp - 1 implies !(space_pred()(rest[k])) by {
        assert(rest[k] == s[fsp + 1 + k]);
    }
    if fe < j {
        assert(rest[fe - fsp - 1] == s[fe]);
        assert(space_pred()(rest[fe - fsp - 1]));
    }
    lemma_prefix_len_until_is(rest, space_pred(), fe - fsp - 1);
    assert(rest.take(fe - fsp - 1) =~= s.subrange(fsp + 1, fe));
}

/// A segment with no space at all has no field and so no value.
proof fn lemma_no_field(s: Seq<u8>, a: int, j: int)
    requires
        0 <= a <= j <= s.len(),
        forall|k: int| a <= k < j ==> #[trigger] s[k] != SP,
    ensures
        seg_field(s.subrange(a, j)) is None,
        seg_value(s.subrange(a, j)) is None,
{
    let seg = s.subrange(a, j);
    assert forall|k: int| 0 <= k < j - a implies !(space_pred()(seg[k])) by {
        assert(seg[k] == s[a + k]);
    }
    lemma_prefix_len_until_is(seg, space_pred(), j - a);
    assert(first_space(seg) == seg.len());
}

/// Decode the buffer a successful enquiry returned: everything past the
/// acknowledgment byte is scanned for `FRQ` and `DTY` sub-messages, each
/// wrapped in its own STX/ETX pair. Unknown tags are ignored; a later
/// report overrides an earlier one; a recognized tag with a missing or
/// malformed hexadecimal field fails the whole parse. With no recognized
/// tag at all the result is the `(0, 0)` sentinel, meaning "unknown".
pub fn parse_handshake(response: &[u8]) -> (r: Result<(u32, u32), ParseError>)
    ensures
        handshake_values(response@) matches Some(v) ==> r == Ok::<(u32, u32), ParseError>(v),
        handshake_values(response@) is None ==> r == Err::<(u32, u32), ParseError>(
            ParseError::InvalidHex,
        ),
{
    let n = response.len();
    let j0 = find_delim_from(response, 0);
    proof {
        lemma_response_segments_decomp(response@, j0 as int);
    }
    if j0 == n {
        proof {
            assert(response_segments(response@) =~= Seq::<Seq<u8>>::empty());
        }
        return Ok((0, 0));
    }
    let mut freq: u32 = 0;
    let mut duty: u32 = 0;
    let mut a: usize = j0 + 1;
    let ghost mut segs: Seq<Seq<u8>> = Seq::empty();
    loop
        invariant_except_break
            a <= n,
            n == response@.len(),
            response_segments(response@) == segs + nonempty_frames(
                split_frames(response@.skip(a as int)),
            ),
            segments_well_formed(segs),
            freq == freq_of(segs),
            duty == duty_raw_of(segs),
        ensures
            segments_well_formed(response_segments(response@)),
            freq == freq_of(response_segments(response@)),
            duty == duty_raw_of(response_segments(response@)),
        decreases n - a,
    {
        let j = find_delim_from(response, a);
        proof {
            lemma_frames_step(response@, a as int, j as int);
        }
        let ghost seg = response@.subrange(a as int, j as int);
        if j > a {
            let b0 = *vstd::slice::slice_index_get(response, a);
            let b1 = if j - a >= 3 {
                *vstd::slice::slice_index_get(response, a + 1)
            } else {
                0
            };
            let b2 = if j - a >= 3 {
                *vstd::slice::slice_index_get(response, a + 2)
            } else {
                0
            };
            let frq_here = j - a >= 3 && b0 == LETTER_F && b1 == LETTER_R && b2 == LETTER_Q;
            let dty_here = j - a >= 3 && b0 == LETTER_D && b1 == LETTER_T && b2 == LETTER_Y;
            proof {
                lemma_tag_test(seg);
                assert(seg.len() == j - a);
                assert(frq_here == is_frq_segment(seg));
                assert(dty_here == is_dty_segment(seg));
            }
            if frq_here || dty_here {
                let fsp = find_space_from(response, a, j);
                if fsp == j {
                    proof {
                        lemma_no_field(response@, a as int, j as int);
                        let all = response_segments(response@);
                        assert(all[segs.len() as int] == seg);
                        assert(!segments_well_formed(all));
                    }
                    return Err(ParseError::InvalidHex);
                }
                let fe = find_space_from(response, fsp + 1, j);
                let field = vstd::slice::slice_subrange(response, fsp + 1, fe);
                proof {
                    lemma_field_extract(response@, a as int, fsp as int, fe as int, j as int);
                    assert(seg_field(seg) == Option::Some(field@));
                }
                match parse_hex_u32(field) {
                    Option::Some(v) => {
                        proof {
                            assert(seg_value(seg) == Option::Some(v));
                            let grown = segs.push(seg);
                            assert(grown.drop_last() =~= segs);
                            assert(grown.last() == seg);
                            assert forall|i: int|
                                0 <= i < grown.len() && (is_frq_segment(#[trigger] grown[i])
                                    || is_dty_segment(grown[i])) implies seg_value(
                                grown[i],
                            ) is Some by {
                                if i < segs.len() {
                                    assert(grown[i] == segs[i]);
                                }
                            }
                            assert(segments_well_formed(grown));
                            segs = grown;
                        }
                        if frq_here {
                            freq = v;
                        } else {
                            duty = v;
                        }
                    },
                    Option::None => {
                        proof {
                            assert(seg_value(seg) is None);
                            let all = response_segments(response@);
                            assert(all[segs.len() as int] == seg);
                            assert(!segments_well_formed(all));
                        }
                        return Err(ParseError::InvalidHex);
                    },
                }
            } else {
                proof {
                    let grown = segs.push(seg);
                    assert(grown.drop_last() =~= segs);
                    assert(grown.last() == seg);
                    assert forall|i: int|
                        0 <= i < grown.len() && (is_frq_segment(#[trigger] grown[i])
                            || is_dty_segment(grown[i])) implies seg_value(grown[i]) is Some by {
                        if i < segs.len() {
                            assert(grown[i] == segs[i]);
                        }
                    }
                    assert(segments_well_formed(grown));
                    segs = grown;
                }
            }
            proof {
                if j < n {
                    assert(segs + nonempty_frames(split_frames(response@.skip(j + 1)))
                        =~= response_segments(response@));
                } else {
                    assert(segs =~= response_segments(response@));
                }
            }
        } else {
            proof {
                if j < n {
                    assert(Seq::<Seq<u8>>::empty() + nonempty_frames(
                        split_frames(response@.skip(j + 1)),
                    ) =~= nonempty_frames(split_frames(response@.skip(a as int))));
                } else {
                    assert(segs + Seq::<Seq<u8>>::empty() =~= segs);
                }
            }
        }
        if j == n {
            break;
        }
        a = j + 1;
    }
    proof {
        assert(handshake_values(response@) == Option::Some((freq, duty)));
    }
    Ok((freq, duty))
}

/// The documented sentinel: a response with no recognized tag decodes to
/// `(0, 0)`, which callers must read as "state unknown", not as a genuine
/// zero report.
pub proof fn lemma_no_tags_yield_zero(segs: Seq<Seq<u8>>)
    requires
        forall|i: int|
            0 <= i < segs.len() ==> !is_frq_segment(#[trigger] segs[i]) && !is_dty_segment(
                segs[i],
            ),
    ensures
        freq_of(segs) == 0,
        duty_raw_of(segs) == 0,
        segments_well_formed(segs),
    decreases segs.len(),
{
    if segs.len() > 0 {
        assert(segs.last() == segs[segs.len() - 1]);
        assert forall|i: int| 0 <= i < segs.drop_last().len() implies !is_frq_segment(
            #[trigger] segs.drop_last()[i],
        ) && !is_dty_segment(segs.drop_last()[i]) by {
            assert(segs.drop_last()[i] == segs[i]);
        }
        lemma_no_tags_yield_zero(segs.drop_last());
    }
}

/// The same sentinel, stated of the whole response: when no segment is a
/// recognized report, the handshake decodes to `(0, 0)`.
pub proof fn lemma_unknown_response_sentinel(response: Seq<u8>)
    requires
        forall|i: int|
            0 <= i < response_segments(response).len() ==> !is_frq_segment(
                #[trigger] response_segments(response)[i],
            ) && !is_dty_segment(response_segments(response)[i]),
    ensures
        handshake_values(response) == Option::Some((0u32, 0u32)),
{
    lemma_no_tags_yield_zero(response_segments(response));
}

} // verus!
