//! Masking of mail addresses.
use crate::text::{self, chars_of, find_char, text_of};
use vstd::prelude::*;
use vstd::string::*;

verus! {

/// The text of three stars.
pub open spec fn stars() -> Seq<char> {
    seq!['*', '*', '*']
}

/// A local part with all but a few of its characters replaced: the first two and the last are
/// kept where there are more than three, the first and the last where there are three, the first
/// where there are two, none where there are fewer.
pub open spec fn masked_local(local: Seq<char>) -> Seq<char> {
    if local.len() == 0 {
        stars()
    } else if local.len() == 1 {
        seq!['*']
    } else if local.len() == 2 {
        seq![local[0], '*']
    } else if local.len() == 3 {
        seq![local[0], '*', local[2]]
    } else {
        seq![local[0], local[1]] + stars() + seq![local.last()]
    }
}

/// The first label of a domain with all but a few of its characters replaced: the first and the
/// last are kept where there are more than two, the first where there are two, none where there
/// are fewer.
pub open spec fn masked_head(head: Seq<char>) -> Seq<char> {
    if head.len() == 0 {
        stars()
    } else if head.len() == 1 {
        seq!['*']
    } else if head.len() == 2 {
        seq![head[0], '*']
    } else {
        seq![head[0]] + stars() + seq![head.last()]
    }
}

/// A domain with its first label masked. What follows, from the first dot on, is kept.
pub open spec fn masked_domain(domain: Seq<char>) -> Seq<char> {
    let dot = text::first_position(domain, '.');
    masked_head(domain.take(dot)) + domain.skip(dot)
}

/// An address with its local part and its domain masked. A text without the sign `@` is kept.
pub open spec fn masked_email(email: Seq<char>) -> Seq<char> {
    let at = text::first_position(email, '@');
    if at == email.len() {
        email
    } else {
        masked_local(email.take(at)) + seq!['@'] + masked_domain(email.skip(at + 1))
    }
}

/// Whether two texts show the same once masked as local parts.
pub open spec fn same_visible_local(a: Seq<char>, b: Seq<char>) -> bool {
    if a.len() <= 3 || b.len() <= 3 {
        &&& a.len() == b.len()
        &&& a.len() >= 2 ==> a[0] == b[0]
        &&& a.len() == 3 ==> a[2] == b[2]
    } else {
        a[0] == b[0] && a[1] == b[1] && a.last() == b.last()
    }
}

/// Of a local part of more than three characters nothing but the first two and the last shows,
/// not even its length; of a shorter one its length and the characters kept.
pub proof fn law_masked_local_hides(a: Seq<char>, b: Seq<char>)
    requires
        same_visible_local(a, b),
    ensures
        masked_local(a) == masked_local(b),
{
}

/// Of a first label of more than two characters nothing but the first and the last shows, not
/// even its length.
pub proof fn law_masked_head_hides(a: Seq<char>, b: Seq<char>)
    requires
        a.len() > 2,
        b.len() > 2,
        a[0] == b[0],
        a.last() == b.last(),
    ensures
        masked_head(a) == masked_head(b),
{
}

/// A masked local part is no longer than six characters, a masked first label no longer than
/// five, and both hold a star.
pub proof fn law_masks_are_short(part: Seq<char>)
    ensures
        1 <= masked_local(part).len() <= 6,
        1 <= masked_head(part).len() <= 5,
        masked_local(part).contains('*'),
        masked_head(part).contains('*'),
{
    let local = masked_local(part);
    assert(local[0] == '*' || local[1] == '*' || local[2] == '*');
    let head = masked_head(part);
    assert(head[0] == '*' || head[1] == '*');
}

/// A masked address holds the sign `@` and a star. So an address without a star is never shown
/// as it was.
pub proof fn law_masked_email_is_masked(email: Seq<char>)
    requires
        email.contains('@'),
    ensures
        masked_email(email).contains('@'),
        masked_email(email).contains('*'),
        !email.contains('*') ==> masked_email(email) != email,
{
    text::law_first_position(email, '@');
    let at = text::first_position(email, '@');
    let local = masked_local(email.take(at));
    law_masks_are_short(email.take(at));
    assert(masked_email(email)[local.len() as int] == '@');
    let k = choose|k: int| 0 <= k < local.len() && local[k] == '*';
    assert(masked_email(email)[k] == '*');
}

/// A text without the sign `@` is not changed.
pub proof fn law_no_address_is_kept(text: Seq<char>)
    requires
        !text.contains('@'),
    ensures
        masked_email(text) == text,
{
    text::law_first_position(text, '@');
}

/// What follows the first dot of a domain stays readable.
pub proof fn law_masked_domain_keeps_suffix(head: Seq<char>, suffix: Seq<char>)
    requires
        !head.contains('.'),
    ensures
        masked_domain(head + seq!['.'] + suffix) == masked_head(head) + seq!['.'] + suffix,
        masked_domain(head) == masked_head(head),
{
    let domain = head + seq!['.'] + suffix;
    text::law_first_position(domain, '.');
    text::law_first_position(head, '.');
    let dot = text::first_position(domain, '.');
    assert(domain[head.len() as int] == '.');
    if dot < head.len() {
        assert(domain[dot] == head[dot]);
    }
    assert(domain.take(dot) == head);
    assert(domain.skip(dot) == seq!['.'] + suffix);
}

/// An address is masked part by part.
pub proof fn law_masked_email_parts(local: Seq<char>, domain: Seq<char>)
    requires
        !local.contains('@'),
    ensures
        masked_email(local + seq!['@'] + domain) == masked_local(local) + seq!['@']
            + masked_domain(domain),
{
    let email = local + seq!['@'] + domain;
    text::law_first_position(email, '@');
    let at = text::first_position(email, '@');
    assert(email[local.len() as int] == '@');
    if at < local.len() {
        assert(email[at] == local[at]);
    }
    assert(email.take(at) == local);
    assert(email.skip(at + 1) == domain);
}

/// Two addresses that agree in the characters kept, and in what follows the first dot of the
/// domain, cannot be told apart once masked.
pub proof fn law_masked_email_hides(
    local_a: Seq<char>,
    local_b: Seq<char>,
    head_a: Seq<char>,
    head_b: Seq<char>,
    suffix: Seq<char>,
)
    requires
        !local_a.contains('@'),
        !local_b.contains('@'),
        same_visible_local(local_a, local_b),
        !head_a.contains('.'),
        !head_b.contains('.'),
        head_a.len() > 2,
        head_b.len() > 2,
        head_a[0] == head_b[0],
        head_a.last() == head_b.last(),
    ensures
        masked_email(local_a + seq!['@'] + (head_a + seq!['.'] + suffix)) == masked_email(
            local_b + seq!['@'] + (head_b + seq!['.'] + suffix),
        ),
{
    law_masked_email_parts(local_a, head_a + seq!['.'] + suffix);
    law_masked_email_parts(local_b, head_b + seq!['.'] + suffix);
    law_masked_domain_keeps_suffix(head_a, suffix);
    law_masked_domain_keeps_suffix(head_b, suffix);
    law_masked_local_hides(local_a, local_b);
    law_masked_head_hides(head_a, head_b);
}

/// What becomes of a local part, by its characters.
pub proof fn law_masked_local_shows(a: char, b: char, c: char, middle: Seq<char>)
    requires
        middle.len() > 0,
    ensures
        masked_local(seq![]) == seq!['*', '*', '*'],
        masked_local(seq![a]) == seq!['*'],
        masked_local(seq![a, b]) == seq![a, '*'],
        masked_local(seq![a, b, c]) == seq![a, '*', c],
        masked_local(seq![a, b] + middle + seq![c]) == seq![a, b, '*', '*', '*', c],
{
}

/// What becomes of the first label of a domain, by its characters.
pub proof fn law_masked_head_shows(a: char, b: char, middle: Seq<char>)
    requires
        middle.len() > 0,
    ensures
        masked_head(seq![]) == seq!['*', '*', '*'],
        masked_head(seq![a]) == seq!['*'],
        masked_head(seq![a, b]) == seq![a, '*'],
        masked_head(seq![a] + middle + seq![b]) == seq![a, '*', '*', '*', b],
{
}

/// Of an address with more than three characters before the sign `@` and more than two between it
/// and the next dot, this is left, character by character.
pub proof fn law_masked_email_shows(
    a: char,
    b: char,
    hidden: Seq<char>,
    c: char,
    d: char,
    label: Seq<char>,
    e: char,
    suffix: Seq<char>,
)
    requires
        hidden.len() > 0,
        label.len() > 0,
        !(seq![a, b] + hidden + seq![c]).contains('@'),
        !(seq![d] + label + seq![e]).contains('.'),
    ensures
        masked_email(
            seq![a, b] + hidden + seq![c] + seq!['@'] + (seq![d] + label + seq![e] + seq!['.']
                + suffix),
        ) == seq![a, b, '*', '*', '*', c, '@', d, '*', '*', '*', e, '.'] + suffix,
{
    let local = seq![a, b] + hidden + seq![c];
    let head = seq![d] + label + seq![e];
    law_masked_email_parts(local, head + seq!['.'] + suffix);
    law_masked_domain_keeps_suffix(head, suffix);
    law_masked_local_shows(a, b, c, hidden);
    law_masked_head_shows(d, e, label);
}

proof fn lemma_masked_local_characters(local: Seq<char>)
    requires
        !local.contains('@'),
    ensures
        !masked_local(local).contains('@'),
{
    if local.len() > 0 {
        assert(local.contains(local[0]));
        assert(local.contains(local.last()));
        if local.len() > 1 {
            assert(local.contains(local[1]));
        }
    }
}

/// To mask a masked local part changes nothing.
pub proof fn law_masked_local_is_kept(local: Seq<char>)
    ensures
        masked_local(masked_local(local)) == masked_local(local),
{
}

/// To mask a masked domain changes nothing, where there is a character before its first dot.
pub proof fn law_masked_domain_is_kept(domain: Seq<char>)
    requires
        domain.len() > 0,
        domain[0] != '.',
    ensures
        masked_domain(masked_domain(domain)) == masked_domain(domain),
        masked_domain(domain).len() > 0,
        masked_domain(domain)[0] != '.',
{
    text::law_first_position(domain, '.');
    let dot = text::first_position(domain, '.');
    let head = masked_head(domain.take(dot));
    let rest = domain.skip(dot);
    assert(!head.contains('.'));
    if dot < domain.len() {
        assert(domain == domain.take(dot) + seq!['.'] + rest.skip(1));
        law_masked_domain_keeps_suffix(head, rest.skip(1));
        assert(masked_domain(domain) == head + seq!['.'] + rest.skip(1));
    } else {
        assert(masked_domain(domain) == head);
        law_masked_domain_keeps_suffix(head, rest);
    }
    assert(masked_head(head) == head);
}

/// To mask a masked address changes nothing, where there is a character between the sign `@` and
/// the first dot behind it.
pub proof fn law_masked_email_is_kept(local: Seq<char>, domain: Seq<char>)
    requires
        !local.contains('@'),
        domain.len() > 0,
        domain[0] != '.',
    ensures
        masked_email(masked_email(local + seq!['@'] + domain)) == masked_email(
            local + seq!['@'] + domain,
        ),
{
    law_masked_email_parts(local, domain);
    lemma_masked_local_characters(local);
    law_masked_email_parts(masked_local(local), masked_domain(domain));
    law_masked_local_is_kept(local);
    law_masked_domain_is_kept(domain);
}

/// Where an address holds the sign `@` once, the masked address does too, right behind the masked
/// local part.
pub proof fn law_one_sign_is_left(local: Seq<char>, domain: Seq<char>)
    requires
        !local.contains('@'),
        !domain.contains('@'),
    ensures
        forall|i: int|
            0 <= i < masked_email(local + seq!['@'] + domain).len() ==> ((#[trigger] masked_email(
                local + seq!['@'] + domain,
            )[i]) == '@' <==> i == masked_local(local).len()),
{
    law_masked_email_parts(local, domain);
    lemma_masked_local_characters(local);
    text::law_first_position(domain, '.');
    let masked = masked_email(local + seq!['@'] + domain);
    let at = masked_local(local).len() as int;
    let behind = masked_domain(domain);
    assert(forall|i: int|
        0 <= i < behind.len() ==> #[trigger] behind[i] == '*' || domain.contains(behind[i]));
    assert forall|i: int| 0 <= i < masked.len() implies ((#[trigger] masked[i]) == '@' <==> i
        == at) by {
        if i < at {
            assert(masked[i] == masked_local(local)[i]);
        } else if i > at {
            assert(masked[i] == behind[i - at - 1]);
        }
    }
}

/// Behind the sign `@` of a masked address a star stands before any dot.
pub proof fn law_star_stands_before_dot(local: Seq<char>, domain: Seq<char>)
    requires
        !local.contains('@'),
    ensures
        ({
            let masked = masked_email(local + seq!['@'] + domain);
            let at = text::first_position(masked, '@');
            let behind = masked.skip(at + 1);
            &&& at == masked_local(local).len()
            &&& text::first_position(behind, '*') < text::first_position(behind, '.')
        }),
{
    law_masked_email_parts(local, domain);
    lemma_masked_local_characters(local);
    let masked = masked_email(local + seq!['@'] + domain);
    let at = masked_local(local).len() as int;
    let behind = masked_domain(domain);
    assert(masked[at] == '@');
    text::law_first_position(masked, '@');
    let found = text::first_position(masked, '@');
    if found < at {
        assert(masked[found] == masked_local(local)[found]);
    }
    assert(masked.skip(at + 1) == behind);
    text::law_first_position(domain, '.');
    text::law_first_position(behind, '*');
    text::law_first_position(behind, '.');
    assert(behind[0] == '*' || behind[0] == domain[0] && behind[1] == '*');
}

/// Appends three stars.
fn push_stars(res: &mut Vec<char>)
    ensures
        final(res)@ == old(res)@ + stars(),
{
    res.push('*');
    res.push('*');
    res.push('*');
}

/// Masks the local part of an address.
pub fn mask_local_part(local: &str) -> (res: String)
    ensures
        res@ == masked_local(local@),
{
    let chars = chars_of(local);
    let len = chars.len();
    let mut res: Vec<char> = Vec::new();
    if len == 0 {
        push_stars(&mut res);
    } else if len == 1 {
        res.push('*');
    } else if len == 2 {
        res.push(chars[0]);
        res.push('*');
    } else if len == 3 {
        res.push(chars[0]);
        res.push('*');
        res.push(chars[2]);
    } else {
        res.push(chars[0]);
        res.push(chars[1]);
        push_stars(&mut res);
        res.push(chars[len - 1]);
    }
    text_of(&res)
}

/// Masks the first label of a domain.
pub fn mask_domain_head(head: &str) -> (res: String)
    ensures
        res@ == masked_head(head@),
{
    let chars = chars_of(head);
    let len = chars.len();
    let mut res: Vec<char> = Vec::new();
    if len == 0 {
        push_stars(&mut res);
    } else if len == 1 {
        res.push('*');
    } else if len == 2 {
        res.push(chars[0]);
        res.push('*');
    } else {
        res.push(chars[0]);
        push_stars(&mut res);
        res.push(chars[len - 1]);
    }
    text_of(&res)
}

/// Masks the domain of an address.
pub fn mask_domain_part(domain: &str) -> (res: String)
    ensures
        res@ == masked_domain(domain@),
{
    let chars = chars_of(domain);
    let dot = find_char(&chars, '.');
    let mut res = mask_domain_head(domain.substring_char(0, dot));
    res.append(domain.substring_char(dot, chars.len()));
    res
}

/// Masks an address.
pub fn mask_email(email: &str) -> (res: String)
    ensures
        res@ == masked_email(email@),
{
    let chars = chars_of(email);
    let at = find_char(&chars, '@');
    if at == chars.len() {
        return email.to_owned();
    }
    let mut res = mask_local_part(email.substring_char(0, at));
    res.push('@');
    let domain = mask_domain_part(email.substring_char(at + 1, chars.len()));
    res.append(domain.as_str());
    res
}

} // verus!
