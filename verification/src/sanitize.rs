//! Preparing a message for the log: known phrases are rewritten, mail addresses masked.
use crate::mask::{self, mask_email};
use crate::text;
use crate::translate::{self, translate_log_message};
use crate::translate_laws;
use regex::Regex;
use vstd::prelude::*;
use vstd::seq_lib::lemma_flatten_concat;
use vstd::string::*;
use vstd::utf8::*;

verus! {

/// The regular expression of a mail address.
pub const EMAIL_PATTERN: &'static str = "(?i)\\b[a-z0-9._%+\\-]+@[a-z0-9.\\-]+\\.[a-z]{2,}\\b";

/// What `Regex::find_iter` finds of the regular expression `pattern` in `text`: of each match the
/// byte offsets of its start and of its end.
pub uninterp spec fn match_spans(pattern: Seq<char>, text: Seq<char>) -> Seq<(usize, usize)>;

/// The part of `text` between two byte offsets.
pub open spec fn slice(text: Seq<char>, from: int, to: int) -> Seq<char> {
    decode_utf8(encode_utf8(text).subrange(from, to))
}

/// Whether `span` bounds a part of `text`.
pub open spec fn fits(text: Seq<char>, span: (usize, usize)) -> bool {
    &&& span.0 <= span.1 <= encode_utf8(text).len()
    &&& is_char_boundary(encode_utf8(text), span.0 as int)
    &&& is_char_boundary(encode_utf8(text), span.1 as int)
}

/// Whether `spans` bound parts of `text` that follow one another and do not overlap.
pub open spec fn disjoint_spans(text: Seq<char>, spans: Seq<(usize, usize)>) -> bool {
    &&& forall|i: int| 0 <= i < spans.len() ==> #[trigger] fits(text, spans[i])
    &&& forall|i: int, j: int|
        0 <= i < j < spans.len() ==> (#[trigger] spans[i]).1 <= (#[trigger] spans[j]).0
}

/// Whether `part` holds the sign `@` once, behind it a dot, and no star.
pub open spec fn address_shape(part: Seq<char>) -> bool {
    let at = text::first_position(part, '@');
    &&& at < part.len()
    &&& !part.skip(at + 1).contains('@')
    &&& part.skip(at + 1).contains('.')
    &&& !part.contains('*')
}

/// Whether each of the parts that `spans` bound has the shape of an address.
pub open spec fn address_spans(text: Seq<char>, spans: Seq<(usize, usize)>) -> bool {
    forall|i: int|
        #![trigger spans[i]]
        0 <= i < spans.len() ==> address_shape(
            slice(text, spans[i].0 as int, spans[i].1 as int),
        )
}

/// Whether `s` holds nothing but lower case letters of ASCII, and at least `least` of them.
pub open spec fn letters(s: Seq<char>, least: nat) -> bool {
    s.len() >= least && forall|i: int| 0 <= i < s.len() ==> 'a' <= #[trigger] s[i] <= 'z'
}

/// The address with this local part, first label of the domain and last label of the domain.
pub open spec fn address(local: Seq<char>, head: Seq<char>, top: Seq<char>) -> Seq<char> {
    local + seq!['@'] + (head + seq!['.'] + top)
}

/// What shows of such an address: the first two characters and the last of its local part, the
/// first and the last of its first label, and its last label.
pub open spec fn shown_address(local: Seq<char>, head: Seq<char>, top: Seq<char>) -> Seq<char> {
    seq![local[0], local[1]] + mask::stars() + seq![local.last(), '@', head[0]] + mask::stars()
        + seq![head.last(), '.'] + top
}

/// Whether `text` is an address made of lower case letters, and nothing else.
pub open spec fn plain_address(text: Seq<char>) -> bool {
    exists|local: Seq<char>, head: Seq<char>, top: Seq<char>|
        letters(local, 1) && letters(head, 1) && letters(top, 2) && text == #[trigger] address(
            local,
            head,
            top,
        )
}

/// Whether there is one span, and it bounds the whole of `text`.
pub open spec fn whole_span(text: Seq<char>, spans: Seq<(usize, usize)>) -> bool {
    spans.len() == 1 && spans[0].0 == 0 && spans[0].1 == encode_utf8(text).len()
}

/// What is known of the addresses that are found in `text`: they do not overlap, each has the shape
/// of an address, and a plain address is found as a whole.
pub open spec fn finds_addresses(text: Seq<char>) -> bool {
    let spans = match_spans(EMAIL_PATTERN@, text);
    &&& disjoint_spans(text, spans)
    &&& address_spans(text, spans)
    &&& plain_address(text) ==> whole_span(text, spans)
}

/// `text` from the byte offset `from` on, with the parts that the spans from `k` on bound masked.
pub open spec fn redacted_from(
    text: Seq<char>,
    spans: Seq<(usize, usize)>,
    k: int,
    from: int,
) -> Seq<char>
    decreases spans.len() - k,
{
    if k < 0 || k >= spans.len() {
        slice(text, from, encode_utf8(text).len() as int)
    } else {
        slice(text, from, spans[k].0 as int) + mask::masked_email(
            slice(text, spans[k].0 as int, spans[k].1 as int),
        ) + redacted_from(text, spans, k + 1, spans[k].1 as int)
    }
}

/// `text` with the parts that `spans` bound masked, and the rest as it was.
pub open spec fn redacted(text: Seq<char>, spans: Seq<(usize, usize)>) -> Seq<char> {
    redacted_from(text, spans, 0, 0)
}

/// What becomes of a message before it is logged.
pub open spec fn sanitized(message: Seq<char>) -> Seq<char> {
    redacted(
        translate::translated(message),
        match_spans(EMAIL_PATTERN@, translate::translated(message)),
    )
}

/// Calls `Regex::new` on `pattern`, which is known to be well formed, and `Regex::find_iter` on
/// `text`. The result depends on the two alone. As documented, the matches come from left to
/// right, do not overlap, and their offsets fall on character boundaries. Every match of the
/// pattern holds its two literals, `@` and behind it a dot; it holds no second `@` and no star, as
/// none of the classes admits them. A text of lower case letters, `@`, lower case letters, a dot and two or more lower case letters is one
/// match: its repetitions are greedy, and word boundaries stand at its two ends. Which parts of
/// other texts match is left unsaid.
#[verifier::external_body]
fn find_spans(pattern: &str, text: &str) -> (spans: Vec<(usize, usize)>)
    requires
        pattern@ == EMAIL_PATTERN@,
    ensures
        spans@ == match_spans(pattern@, text@),
        disjoint_spans(text@, spans@),
        address_spans(text@, spans@),
        plain_address(text@) ==> whole_span(text@, spans@),
{
    let regex = Regex::new(pattern).expect("email regex should be valid");
    regex.find_iter(text).map(|found| (found.start(), found.end())).collect()
}

proof fn lemma_boundary_in_prefix(bytes: Seq<u8>, from: int, to: int)
    requires
        valid_utf8(bytes),
        0 <= from <= to <= bytes.len(),
        is_char_boundary(bytes, from),
        is_char_boundary(bytes, to),
    ensures
        valid_utf8(bytes.subrange(0, to)),
        is_char_boundary(bytes.subrange(0, to), from),
{
    let head = bytes.subrange(0, to);
    valid_utf8_split(bytes, to);
    is_char_boundary_start_end_of_seq(head);
    if from < to {
        is_char_boundary_iff_not_is_continuation_byte(bytes, from);
        is_char_boundary_iff_not_is_continuation_byte(head, from);
        assert(head[from] == bytes[from]);
    }
}

/// The part of `text` between two byte offsets.
fn slice_of(text: &str, from: usize, to: usize) -> (res: &str)
    requires
        fits(text@, (from, to)),
    ensures
        res@ == slice(text@, from as int, to as int),
{
    let ghost bytes = encode_utf8(text@);
    proof {
        encode_utf8_valid_utf8(text@);
        lemma_boundary_in_prefix(bytes, from as int, to as int);
    }
    let (head, _) = text.split_at(to);
    let (_, part) = head.split_at(from);
    proof {
        assert(encode_utf8(part@) == bytes.subrange(from as int, to as int));
        encode_utf8_decode_utf8(part@);
    }
    part
}

/// Masks the parts of `text` that `spans` bound, given by their byte offsets.
pub fn redact_emails(text: &str, spans: &Vec<(usize, usize)>) -> (res: String)
    requires
        disjoint_spans(text@, spans@),
    ensures
        res@ == redacted(text@, spans@),
{
    let ghost bytes = encode_utf8(text@);
    proof {
        encode_utf8_valid_utf8(text@);
        is_char_boundary_start_end_of_seq(bytes);
    }
    let mut res = String::new();
    let mut from: usize = 0;
    let mut k: usize = 0;
    while k < spans.len()
        invariant
            k <= spans@.len(),
            bytes == encode_utf8(text@),
            disjoint_spans(text@, spans@),
            is_char_boundary(bytes, from as int),
            k == 0 ==> from == 0,
            k > 0 ==> from == spans@[k - 1].1,
            redacted(text@, spans@) == res@ + redacted_from(text@, spans@, k as int, from as int),
        decreases spans@.len() - k,
    {
        assert(fits(text@, spans@[k as int]));
        let (start, end) = spans[k];
        res.append(slice_of(text, from, start));
        let masked = mask_email(slice_of(text, start, end));
        res.append(masked.as_str());
        from = end;
        k += 1;
    }
    res.append(slice_of(text, from, text.as_bytes().len()));
    res
}

/// Prepares a message for the log.
pub fn sanitize_message(message: &str) -> (res: String)
    ensures
        res@ == sanitized(message@),
        finds_addresses(translate::translated(message@)),
        plain_address(message@) ==> res@ == mask::masked_email(message@),
        !message@.contains('@') ==> res@ == translate::translated(message@),
        !message@.contains('@') && translate::no_phrase_occurs(message@) ==> res@ == message@,
        forall|local: Seq<char>, head: Seq<char>, top: Seq<char>|
            letters(local, 4) && letters(head, 3) && letters(top, 2) && message@
                == #[trigger] address(local, head, top) ==> res@ == shown_address(
                local,
                head,
                top,
            ),
{
    let text = translate_log_message(message);
    let spans = find_spans(EMAIL_PATTERN, text.as_str());
    proof {
        if plain_address(message@) {
            law_plain_address_is_masked(message@);
        }
        if !message@.contains('@') {
            law_message_without_sign_is_translated(message@);
            if translate::no_phrase_occurs(message@) {
                translate::law_unknown_text_is_kept(message@);
            }
        }
        assert forall|local: Seq<char>, head: Seq<char>, top: Seq<char>|
            letters(local, 4) && letters(head, 3) && letters(top, 2) && message@
                == #[trigger] address(local, head, top) implies sanitized(message@)
            == shown_address(local, head, top) by {
            law_plain_address_hides_letters(local, head, top);
        }
    }
    redact_emails(text.as_str(), &spans)
}

proof fn lemma_encode_concat(a: Seq<char>, b: Seq<char>)
    ensures
        encode_utf8(a + b) == encode_utf8(a) + encode_utf8(b),
    decreases a.len(),
{
    if a.len() == 0 {
    } else {
        lemma_encode_concat(a.drop_first(), b);
        assert((a + b).drop_first() == a.drop_first() + b);
    }
}

/// Where nothing is to be masked, a text stays as it is.
pub proof fn law_nothing_found_is_kept(text: Seq<char>)
    ensures
        redacted(text, seq![]) == text,
{
    let bytes = encode_utf8(text);
    assert(bytes.subrange(0, bytes.len() as int) == bytes);
    encode_utf8_decode_utf8(text);
}

proof fn lemma_slice_is_a_part(text: Seq<char>, span: (usize, usize))
    requires
        fits(text, span),
    ensures
        slice(text, 0, span.0 as int).len() <= slice(text, 0, span.1 as int).len() <= text.len(),
        slice(text, span.0 as int, span.1 as int) == text.subrange(
            slice(text, 0, span.0 as int).len() as int,
            slice(text, 0, span.1 as int).len() as int,
        ),
{
    let bytes = encode_utf8(text);
    let from = span.0 as int;
    let to = span.1 as int;
    encode_utf8_valid_utf8(text);
    encode_utf8_decode_utf8(text);
    lemma_boundary_in_prefix(bytes, from, to);
    decode_utf8_split(bytes, to);
    let head = bytes.subrange(0, to);
    decode_utf8_split(head, from);
    assert(head.subrange(0, from) == bytes.subrange(0, from));
    assert(head.subrange(from, to) == bytes.subrange(from, to));
}

/// Where there is no sign `@`, no address is found, and a text stays as it is.
pub proof fn law_text_without_sign_is_kept(text: Seq<char>, spans: Seq<(usize, usize)>)
    requires
        disjoint_spans(text, spans),
        address_spans(text, spans),
        !text.contains('@'),
    ensures
        spans.len() == 0,
        redacted(text, spans) == text,
{
    if spans.len() > 0 {
        let span = spans[0];
        assert(fits(text, span));
        lemma_slice_is_a_part(text, span);
        let part = slice(text, span.0 as int, span.1 as int);
        text::law_first_position(part, '@');
        let at = text::first_position(part, '@');
        assert(text.contains(part[at]));
    }
    assert(spans == Seq::<(usize, usize)>::empty());
    law_nothing_found_is_kept(text);
}

/// A message without known phrases in which no address is found is logged as it is. None is found
/// in a message without the sign `@`.
pub proof fn law_plain_message_is_kept(message: Seq<char>)
    requires
        translate::no_phrase_occurs(message),
        match_spans(EMAIL_PATTERN@, message).len() == 0 || finds_addresses(message)
            && !message.contains('@'),
    ensures
        sanitized(message) == message,
{
    translate::law_unknown_text_is_kept(message);
    if match_spans(EMAIL_PATTERN@, message).len() == 0 {
        law_nothing_found_is_kept(message);
    } else {
        law_text_without_sign_is_kept(message, match_spans(EMAIL_PATTERN@, message));
    }
}

/// A message without the sign `@` is translated and nothing else.
pub proof fn law_message_without_sign_is_translated(message: Seq<char>)
    requires
        !message.contains('@'),
        finds_addresses(translate::translated(message)),
    ensures
        sanitized(message) == translate::translated(message),
{
    let text = translate::translated(message);
    translate_laws::law_no_sign_is_added(message);
    law_text_without_sign_is_kept(text, match_spans(EMAIL_PATTERN@, text));
}

/// An address that stands between two texts is masked, and the two texts stay as they are.
pub proof fn law_found_address_is_masked(
    before: Seq<char>,
    address: Seq<char>,
    after: Seq<char>,
    span: (usize, usize),
)
    requires
        span.0 == encode_utf8(before).len(),
        span.1 == encode_utf8(before + address).len(),
    ensures
        redacted(before + address + after, seq![span]) == before + mask::masked_email(address)
            + after,
{
    let text = before + address + after;
    let spans = seq![span];
    let bytes = encode_utf8(text);
    lemma_encode_concat(before, address);
    lemma_encode_concat(before + address, after);
    assert(bytes.subrange(0, span.0 as int) == encode_utf8(before));
    assert(bytes.subrange(span.0 as int, span.1 as int) == encode_utf8(address));
    assert(bytes.subrange(span.1 as int, bytes.len() as int) == encode_utf8(after));
    encode_utf8_decode_utf8(before);
    encode_utf8_decode_utf8(address);
    encode_utf8_decode_utf8(after);
    reveal_with_fuel(redacted_from, 2);
}

proof fn lemma_slice_of_middle(a: Seq<char>, b: Seq<char>, c: Seq<char>)
    ensures
        slice(a + b + c, encode_utf8(a).len() as int, encode_utf8(a + b).len() as int) == b,
        encode_utf8(a).len() <= encode_utf8(a + b).len() <= encode_utf8(a + b + c).len(),
{
    lemma_encode_concat(a, b);
    lemma_encode_concat(a + b, c);
    assert(encode_utf8(a + b + c).subrange(
        encode_utf8(a).len() as int,
        encode_utf8(a + b).len() as int,
    ) == encode_utf8(b));
    encode_utf8_decode_utf8(b);
}

proof fn lemma_boundary_between(a: Seq<char>, b: Seq<char>)
    ensures
        is_char_boundary(encode_utf8(a + b), encode_utf8(a).len() as int),
{
    let bytes = encode_utf8(a + b);
    let at = encode_utf8(a).len() as int;
    lemma_encode_concat(a, b);
    encode_utf8_valid_utf8(a + b);
    encode_utf8_valid_utf8(b);
    is_char_boundary_start_end_of_seq(bytes);
    is_char_boundary_start_end_of_seq(encode_utf8(b));
    if at < bytes.len() {
        assert(bytes[at] == encode_utf8(b)[0]);
        is_char_boundary_iff_not_is_continuation_byte(encode_utf8(b), 0);
        is_char_boundary_iff_not_is_continuation_byte(bytes, at);
    }
}

proof fn lemma_pieces_split(pieces: Seq<Seq<char>>, i: int, j: int)
    requires
        0 <= i <= j <= pieces.len(),
    ensures
        pieces.take(j).flatten() == pieces.take(i).flatten() + pieces.subrange(i, j).flatten(),
        pieces.flatten() == pieces.take(j).flatten() + pieces.skip(j).flatten(),
{
    assert(pieces.take(j) == pieces.take(i) + pieces.subrange(i, j));
    lemma_flatten_concat(pieces.take(i), pieces.subrange(i, j));
    assert(pieces == pieces.take(j) + pieces.skip(j));
    lemma_flatten_concat(pieces.take(j), pieces.skip(j));
}

proof fn lemma_piece_is_sliced(pieces: Seq<Seq<char>>, i: int)
    requires
        0 <= i < pieces.len(),
    ensures
        slice(
            pieces.flatten(),
            encode_utf8(pieces.take(i).flatten()).len() as int,
            encode_utf8(pieces.take(i + 1).flatten()).len() as int,
        ) == pieces[i],
        encode_utf8(pieces.take(i).flatten()).len() <= encode_utf8(
            pieces.take(i + 1).flatten(),
        ).len() <= encode_utf8(pieces.flatten()).len(),
        is_char_boundary(
            encode_utf8(pieces.flatten()),
            encode_utf8(pieces.take(i).flatten()).len() as int,
        ),
{
    lemma_pieces_split(pieces, i, i + 1);
    lemma_pieces_split(pieces, i, i);
    assert(pieces.subrange(i, i + 1) == seq![pieces[i]]);
    pieces.subrange(i, i + 1).lemma_flatten_one_element();
    lemma_slice_of_middle(
        pieces.take(i).flatten(),
        pieces[i],
        pieces.skip(i + 1).flatten(),
    );
    lemma_boundary_between(pieces.take(i).flatten(), pieces.skip(i).flatten());
}

proof fn lemma_redacted_pieces(
    pieces: Seq<Seq<char>>,
    masked: Seq<Seq<char>>,
    spans: Seq<(usize, usize)>,
    k: int,
)
    requires
        pieces.len() == 2 * spans.len() + 1,
        masked.len() == pieces.len(),
        forall|i: int|
            0 <= i < pieces.len() ==> #[trigger] masked[i] == if i % 2 == 1 {
                mask::masked_email(pieces[i])
            } else {
                pieces[i]
            },
        forall|i: int|
            #![trigger spans[i]]
            0 <= i < spans.len() ==> {
                &&& spans[i].0 == encode_utf8(pieces.take(2 * i + 1).flatten()).len()
                &&& spans[i].1 == encode_utf8(pieces.take(2 * i + 2).flatten()).len()
            },
        0 <= k <= spans.len(),
    ensures
        redacted_from(
            pieces.flatten(),
            spans,
            k,
            encode_utf8(pieces.take(2 * k).flatten()).len() as int,
        ) == masked.skip(2 * k).flatten(),
    decreases spans.len() - k,
{
    let text = pieces.flatten();
    lemma_piece_is_sliced(pieces, 2 * k);
    let rest = masked.skip(2 * k);
    assert(rest.first() == pieces[2 * k]);
    if k == spans.len() {
        assert(pieces.take(2 * k + 1) == pieces);
        rest.lemma_flatten_one_element();
    } else {
        lemma_piece_is_sliced(pieces, 2 * k + 1);
        lemma_redacted_pieces(pieces, masked, spans, k + 1);
        assert(rest.drop_first().first() == mask::masked_email(pieces[2 * k + 1]));
        assert(rest.drop_first().drop_first() == masked.skip(2 * (k + 1)));
        reveal_with_fuel(Seq::flatten, 3);
        assert(rest.flatten() == pieces[2 * k] + (mask::masked_email(pieces[2 * k + 1])
            + masked.skip(2 * (k + 1)).flatten()));
    }
}

/// A text of pieces, every second of which is found, comes out with each of those pieces masked and
/// all others as they were, however many there are and whatever stands between them. The spans are
/// the places of the pieces.
pub proof fn law_every_found_piece_is_masked(
    pieces: Seq<Seq<char>>,
    spans: Seq<(usize, usize)>,
)
    requires
        pieces.len() == 2 * spans.len() + 1,
        forall|i: int|
            #![trigger spans[i]]
            0 <= i < spans.len() ==> {
                &&& spans[i].0 == encode_utf8(pieces.take(2 * i + 1).flatten()).len()
                &&& spans[i].1 == encode_utf8(pieces.take(2 * i + 2).flatten()).len()
            },
    ensures
        disjoint_spans(pieces.flatten(), spans),
        redacted(pieces.flatten(), spans) == pieces.map(
            |i: int, piece: Seq<char>|
                if i % 2 == 1 {
                    mask::masked_email(piece)
                } else {
                    piece
                },
        ).flatten(),
{
    let masked = pieces.map(
        |i: int, piece: Seq<char>|
            if i % 2 == 1 {
                mask::masked_email(piece)
            } else {
                piece
            },
    );
    lemma_redacted_pieces(pieces, masked, spans, 0);
    assert(masked.skip(0) == masked);
    assert(pieces.take(0).flatten() == Seq::<char>::empty());
    let text = pieces.flatten();
    assert forall|i: int| 0 <= i < spans.len() implies #[trigger] fits(text, spans[i]) by {
        lemma_piece_is_sliced(pieces, 2 * i + 1);
        lemma_piece_is_sliced(pieces, 2 * i + 2);
    }
    assert forall|i: int, j: int| 0 <= i < j < spans.len() implies (#[trigger] spans[i]).1 <= (
    #[trigger] spans[j]).0 by {
        lemma_pieces_split(pieces, 2 * i + 2, 2 * j + 1);
        lemma_encode_concat(
            pieces.take(2 * i + 2).flatten(),
            pieces.subrange(2 * i + 2, 2 * j + 1).flatten(),
        );
    }
}

proof fn lemma_five_pieces(
    a: Seq<char>,
    b: Seq<char>,
    c: Seq<char>,
    d: Seq<char>,
    e: Seq<char>,
)
    ensures
        seq![a, b, c, d, e].take(1).flatten() == a,
        seq![a, b, c, d, e].take(2).flatten() == a + b,
        seq![a, b, c, d, e].take(3).flatten() == a + b + c,
        seq![a, b, c, d, e].take(4).flatten() == a + b + c + d,
        seq![a, b, c, d, e].flatten() == a + b + c + d + e,
{
    let all = seq![a, b, c, d, e];
    assert(all.take(1) == seq![a]);
    all.take(1).lemma_flatten_one_element();
    assert(all.take(2) == all.take(1).push(b));
    all.take(1).lemma_flatten_push(b);
    assert(all.take(3) == all.take(2).push(c));
    all.take(2).lemma_flatten_push(c);
    assert(all.take(4) == all.take(3).push(d));
    all.take(3).lemma_flatten_push(d);
    assert(all == all.take(4).push(e));
    all.take(4).lemma_flatten_push(e);
}

/// Two addresses are both masked, and the three texts around them stay as they are.
pub proof fn law_two_found_addresses_are_masked(
    a: Seq<char>,
    x: Seq<char>,
    b: Seq<char>,
    y: Seq<char>,
    c: Seq<char>,
    first: (usize, usize),
    second: (usize, usize),
)
    requires
        first.0 == encode_utf8(a).len(),
        first.1 == encode_utf8(a + x).len(),
        second.0 == encode_utf8(a + x + b).len(),
        second.1 == encode_utf8(a + x + b + y).len(),
    ensures
        disjoint_spans(a + x + b + y + c, seq![first, second]),
        redacted(a + x + b + y + c, seq![first, second]) == a + mask::masked_email(x) + b
            + mask::masked_email(y) + c,
{
    let pieces = seq![a, x, b, y, c];
    let spans = seq![first, second];
    lemma_five_pieces(a, x, b, y, c);
    law_every_found_piece_is_masked(pieces, spans);
    let masked = pieces.map(
        |i: int, piece: Seq<char>|
            if i % 2 == 1 {
                mask::masked_email(piece)
            } else {
                piece
            },
    );
    assert(masked == seq![a, mask::masked_email(x), b, mask::masked_email(y), c]);
    lemma_five_pieces(a, mask::masked_email(x), b, mask::masked_email(y), c);
}

spec fn piece_start(text: Seq<char>, spans: Seq<(usize, usize)>, i: int) -> int {
    if i <= 0 {
        0
    } else if i > 2 * spans.len() {
        encode_utf8(text).len() as int
    } else if i % 2 == 1 {
        spans[i / 2].0 as int
    } else {
        spans[i / 2 - 1].1 as int
    }
}

proof fn lemma_piece_start(text: Seq<char>, spans: Seq<(usize, usize)>, i: int)
    requires
        disjoint_spans(text, spans),
        0 <= i <= 2 * spans.len(),
    ensures
        0 <= piece_start(text, spans, i) <= piece_start(text, spans, i + 1) <= encode_utf8(
            text,
        ).len(),
        is_char_boundary(encode_utf8(text), piece_start(text, spans, i)),
        is_char_boundary(encode_utf8(text), piece_start(text, spans, i + 1)),
{
    encode_utf8_valid_utf8(text);
    is_char_boundary_start_end_of_seq(encode_utf8(text));
    if spans.len() > 0 {
        let k = i / 2;
        if k < spans.len() {
            assert(fits(text, spans[k]));
        }
        if k > 0 {
            assert(fits(text, spans[k - 1]));
        }
        if 0 < k < spans.len() {
            assert(spans[k - 1].1 <= spans[k].0);
        }
    }
}

proof fn lemma_encode_slice(text: Seq<char>, from: int, to: int)
    requires
        0 <= from <= to <= encode_utf8(text).len(),
        is_char_boundary(encode_utf8(text), from),
        is_char_boundary(encode_utf8(text), to),
    ensures
        encode_utf8(slice(text, from, to)) == encode_utf8(text).subrange(from, to),
{
    let bytes = encode_utf8(text);
    encode_utf8_valid_utf8(text);
    lemma_boundary_in_prefix(bytes, from, to);
    let head = bytes.subrange(0, to);
    valid_utf8_split(head, from);
    assert(head.subrange(from, to) == bytes.subrange(from, to));
    decode_utf8_encode_utf8(bytes.subrange(from, to));
}

proof fn lemma_pieces_of_text(
    text: Seq<char>,
    spans: Seq<(usize, usize)>,
    pieces: Seq<Seq<char>>,
    count: int,
)
    requires
        disjoint_spans(text, spans),
        pieces.len() == 2 * spans.len() + 1,
        forall|i: int|
            0 <= i < pieces.len() ==> #[trigger] pieces[i] == slice(
                text,
                piece_start(text, spans, i),
                piece_start(text, spans, i + 1),
            ),
        0 <= count <= pieces.len(),
    ensures
        encode_utf8(pieces.take(count).flatten()) == encode_utf8(text).take(
            piece_start(text, spans, count),
        ),
        0 <= piece_start(text, spans, count) <= encode_utf8(text).len(),
    decreases count,
{
    if count == 0 {
        assert(pieces.take(0).flatten() == Seq::<char>::empty());
    } else {
        let i = count - 1;
        lemma_pieces_of_text(text, spans, pieces, i);
        lemma_piece_start(text, spans, i);
        let from = piece_start(text, spans, i);
        let to = piece_start(text, spans, count);
        lemma_encode_slice(text, from, to);
        assert(pieces.take(count) == pieces.take(i).push(pieces[i]));
        pieces.take(i).lemma_flatten_push(pieces[i]);
        lemma_encode_concat(pieces.take(i).flatten(), pieces[i]);
    }
}

/// Spans that do not overlap part a text into pieces, every second of which is bounded by a span.
/// Masking replaces each of those by its masked form and leaves the others as they are.
pub proof fn law_found_parts_are_masked(text: Seq<char>, spans: Seq<(usize, usize)>) -> (pieces:
    Seq<Seq<char>>)
    requires
        disjoint_spans(text, spans),
    ensures
        pieces.flatten() == text,
        pieces.len() == 2 * spans.len() + 1,
        forall|i: int|
            #![trigger spans[i]]
            0 <= i < spans.len() ==> {
                &&& spans[i].0 == encode_utf8(pieces.take(2 * i + 1).flatten()).len()
                &&& spans[i].1 == encode_utf8(pieces.take(2 * i + 2).flatten()).len()
            },
        redacted(text, spans) == pieces.map(
            |i: int, piece: Seq<char>|
                if i % 2 == 1 {
                    mask::masked_email(piece)
                } else {
                    piece
                },
        ).flatten(),
{
    let pieces = Seq::new(
        2 * spans.len() + 1,
        |i: int| slice(text, piece_start(text, spans, i), piece_start(text, spans, i + 1)),
    );
    lemma_pieces_of_text(text, spans, pieces, pieces.len() as int);
    assert(pieces.take(pieces.len() as int) == pieces);
    assert(encode_utf8(text).take(encode_utf8(text).len() as int) == encode_utf8(text));
    encode_utf8_decode_utf8(text);
    encode_utf8_decode_utf8(pieces.flatten());
    assert forall|i: int|
        #![trigger spans[i]]
        0 <= i < spans.len() implies {
        &&& spans[i].0 == encode_utf8(pieces.take(2 * i + 1).flatten()).len()
        &&& spans[i].1 == encode_utf8(pieces.take(2 * i + 2).flatten()).len()
    } by {
        lemma_pieces_of_text(text, spans, pieces, 2 * i + 1);
        lemma_pieces_of_text(text, spans, pieces, 2 * i + 2);
    }
    law_every_found_piece_is_masked(pieces, spans);
    pieces
}

/// A message is translated, and then every part in which the pattern finds an address is masked;
/// what stands between those parts stays as it is.
pub proof fn law_message_is_masked_where_found(message: Seq<char>) -> (pieces: Seq<Seq<char>>)
    requires
        disjoint_spans(
            translate::translated(message),
            match_spans(EMAIL_PATTERN@, translate::translated(message)),
        ),
    ensures
        pieces.flatten() == translate::translated(message),
        ({
            let spans = match_spans(EMAIL_PATTERN@, translate::translated(message));
            &&& pieces.len() == 2 * spans.len() + 1
            &&& forall|i: int|
                #![trigger spans[i]]
                0 <= i < spans.len() ==> {
                    &&& spans[i].0 == encode_utf8(pieces.take(2 * i + 1).flatten()).len()
                    &&& spans[i].1 == encode_utf8(pieces.take(2 * i + 2).flatten()).len()
                }
        }),
        sanitized(message) == pieces.map(
            |i: int, piece: Seq<char>|
                if i % 2 == 1 {
                    mask::masked_email(piece)
                } else {
                    piece
                },
        ).flatten(),
{
    law_found_parts_are_masked(
        translate::translated(message),
        match_spans(EMAIL_PATTERN@, translate::translated(message)),
    )
}

proof fn lemma_plain_address_characters(text: Seq<char>)
    requires
        plain_address(text),
    ensures
        forall|i: int| 0 <= i < text.len() ==> translate_laws::address_char(#[trigger] text[i]),
{
    let (local, head, top) = choose|local: Seq<char>, head: Seq<char>, top: Seq<char>|
        letters(local, 1) && letters(head, 1) && letters(top, 2) && text == #[trigger] address(
            local,
            head,
            top,
        );
    assert forall|i: int| 0 <= i < text.len() implies translate_laws::address_char(
        #[trigger] text[i],
    ) by {
        let domain = head + seq!['.'] + top;
        if i < local.len() {
            assert(text[i] == local[i]);
        } else if i > local.len() {
            let k = i - local.len() - 1;
            assert(text[i] == domain[k]);
            if k < head.len() {
                assert(domain[k] == head[k]);
            } else if k > head.len() {
                assert(domain[k] == top[k - head.len() - 1]);
            }
        }
    }
}

/// A message that is a plain address is translated to itself and then masked as a whole.
pub proof fn law_plain_address_is_masked(message: Seq<char>)
    requires
        plain_address(message),
        finds_addresses(translate::translated(message)),
    ensures
        sanitized(message) == mask::masked_email(message),
{
    lemma_plain_address_characters(message);
    translate_laws::law_address_characters_are_kept(message);
    let spans = match_spans(EMAIL_PATTERN@, message);
    let nothing = Seq::<char>::empty();
    assert(spans == seq![spans[0]]);
    assert(nothing + message == message);
    assert(nothing + message + nothing == message);
    law_found_address_is_masked(nothing, message, nothing, spans[0]);
    assert(nothing + mask::masked_email(message) + nothing == mask::masked_email(message));
}

/// Of a plain address with more than three letters before the sign `@` and more than two in the
/// first label behind it, no more than [`shown_address`] shows once it is masked. Neither the
/// other letters nor their number can be told from it.
pub proof fn law_plain_address_hides_letters(local: Seq<char>, head: Seq<char>, top: Seq<char>)
    requires
        letters(local, 4),
        letters(head, 3),
        letters(top, 2),
    ensures
        plain_address(address(local, head, top)),
        mask::masked_email(address(local, head, top)) == shown_address(local, head, top),
{
    mask::law_masked_email_parts(local, head + seq!['.'] + top);
    mask::law_masked_domain_keeps_suffix(head, top);
}

/// No address that is found is logged as it was: what stands for it holds a star.
pub proof fn law_found_address_is_hidden(text: Seq<char>, spans: Seq<(usize, usize)>, i: int)
    requires
        address_spans(text, spans),
        0 <= i < spans.len(),
    ensures
        mask::masked_email(slice(text, spans[i].0 as int, spans[i].1 as int)).contains('*'),
        mask::masked_email(slice(text, spans[i].0 as int, spans[i].1 as int)) != slice(
            text,
            spans[i].0 as int,
            spans[i].1 as int,
        ),
{
    text::law_first_position(slice(text, spans[i].0 as int, spans[i].1 as int), '@');
    mask::law_masked_email_is_masked(slice(text, spans[i].0 as int, spans[i].1 as int));
}

/// Nothing that is found in a text reaches over the sign `@` of a masked address in it.
pub proof fn law_masked_sign_is_not_found(
    before: Seq<char>,
    local: Seq<char>,
    domain: Seq<char>,
    after: Seq<char>,
    span: (usize, usize),
)
    requires
        !local.contains('@'),
        ({
            let text = before + mask::masked_email(local + seq!['@'] + domain) + after;
            &&& fits(text, span)
            &&& address_shape(slice(text, span.0 as int, span.1 as int))
        }),
    ensures
        ({
            let text = before + mask::masked_email(local + seq!['@'] + domain) + after;
            let sign = before.len() + mask::masked_local(local).len();
            &&& text[sign as int] == '@'
            &&& sign < slice(text, 0, span.0 as int).len() || slice(text, 0, span.1 as int).len()
                <= sign
        }),
{
    let masked = mask::masked_email(local + seq!['@'] + domain);
    let text = before + masked + after;
    let at = mask::masked_local(local).len() as int;
    let behind = masked.skip(at + 1);
    let star = text::first_position(behind, '*');
    mask::law_masked_email_parts(local, domain);
    mask::law_star_stands_before_dot(local, domain);
    text::law_first_position(masked, '@');
    text::law_first_position(behind, '*');
    text::law_first_position(behind, '.');
    let sign = before.len() + at;
    assert(text[sign] == masked[at]);
    lemma_slice_is_a_part(text, span);
    let from = slice(text, 0, span.0 as int).len() as int;
    let to = slice(text, 0, span.1 as int).len() as int;
    let part = slice(text, span.0 as int, span.1 as int);
    if from <= sign < to {
        text::law_first_position(part, '@');
        let first = text::first_position(part, '@');
        assert(part[sign - from] == '@');
        if first < sign - from {
            assert(part.skip(first + 1)[sign - from - first - 1] == '@');
        }
        let rest = part.skip(first + 1);
        let dot = choose|k: int| 0 <= k < rest.len() && rest[k] == '.';
        assert(rest[dot] == text[sign + 1 + dot]);
        assert(text[sign + 1 + star] == behind[star]);
        if dot < star {
            assert(text[sign + 1 + dot] == behind[dot]);
        }
        assert(part[sign + 1 + star - from] == '*');
    }
}

/// A masked address is not found again, and so stays as it is.
pub proof fn law_masked_address_is_kept(
    local: Seq<char>,
    domain: Seq<char>,
    spans: Seq<(usize, usize)>,
)
    requires
        !local.contains('@'),
        !domain.contains('@'),
        disjoint_spans(mask::masked_email(local + seq!['@'] + domain), spans),
        address_spans(mask::masked_email(local + seq!['@'] + domain), spans),
    ensures
        spans.len() == 0,
        redacted(mask::masked_email(local + seq!['@'] + domain), spans) == mask::masked_email(
            local + seq!['@'] + domain,
        ),
{
    let masked = mask::masked_email(local + seq!['@'] + domain);
    if spans.len() > 0 {
        let span = spans[0];
        assert(fits(masked, span));
        lemma_slice_is_a_part(masked, span);
        let part = slice(masked, span.0 as int, span.1 as int);
        text::law_first_position(part, '@');
        let at = text::first_position(part, '@');
        let from = slice(masked, 0, span.0 as int).len() as int;
        assert(masked[from + at] == '@');
        mask::law_one_sign_is_left(local, domain);
        let nothing = Seq::<char>::empty();
        assert(nothing + masked + nothing == masked);
        law_masked_sign_is_not_found(nothing, local, domain, nothing, span);
    }
    assert(spans == Seq::<(usize, usize)>::empty());
    law_nothing_found_is_kept(masked);
}

} // verus!
