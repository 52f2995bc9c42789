//! What the sidecar line format guarantees: a line reads back as exactly the entry it was
//! written from, and a line whose integrity tag was damaged is never read as an entry.

use vstd::prelude::*;
use vstd::utf8::encode_utf8;
use crate::digest::{
    all_dec_digits, digest_text, digits_value, fields_of, hex_digit, hex_of, hex_pairs,
    hex_value, is_dec_digit, is_hex_digit, lemma_hex_of_len, lemma_hex_of_push, line_text,
    pair_value, parse_i64_text, parse_line, parse_payload, parse_u64_text, payload_text,
    sha256_digest, tag_text, FileKey,
};
use crate::text::{
    decimal, digit_char, end_solid, is_white, last_index_of, lemma_first_index_after,
    lemma_first_index_of, lemma_last_index_before, lemma_last_index_of, signed_decimal, trim_end,
};

verus! {

proof fn lemma_digit_char(d: int)
    requires
        0 <= d < 10,
    ensures
        is_dec_digit(digit_char(d)),
        digit_char(d) as int - '0' as int == d,
{
    let s = seq!['0', '1', '2', '3', '4', '5', '6', '7', '8', '9'];
    assert(s[0] == '0' && s[1] == '1' && s[2] == '2' && s[3] == '3' && s[4] == '4');
    assert(s[5] == '5' && s[6] == '6' && s[7] == '7' && s[8] == '8' && s[9] == '9');
}

/// The decimal rendering of `n` is all digits and denotes `n`.
pub proof fn lemma_decimal(n: nat)
    ensures
        all_dec_digits(decimal(n)),
        digits_value(decimal(n)) == n,
    decreases n,
{
    lemma_digit_char((n % 10) as int);
    let s = decimal(n);
    if n >= 10 {
        lemma_decimal(n / 10);
        let pre = decimal(n / 10);
        assert(s.drop_last() =~= pre);
        assert(s.last() == digit_char((n % 10) as int));
        assert(digits_value(s) == digits_value(pre) * 10 + (n % 10));
        assert forall|i: int| 0 <= i < s.len() implies is_dec_digit(#[trigger] s[i]) by {
            if i < s.len() - 1 {
                assert(s[i] == pre[i]);
            }
        }
    } else {
        assert(s.drop_last() =~= Seq::<char>::empty());
        assert(s.last() == digit_char(n as int));
        assert(digits_value(s) == digits_value(s.drop_last()) * 10 + (s.last() as int - '0' as int));
    }
}

/// `u64::from_str` reads back the decimal rendering of `n`.
pub proof fn lemma_parse_decimal(n: u64)
    ensures
        parse_u64_text(decimal(n as nat)) == Some(n),
{
    lemma_decimal(n as nat);
    assert(is_dec_digit(decimal(n as nat)[0]));
}

/// `i64::from_str` reads back the signed decimal rendering of `x`.
pub proof fn lemma_parse_signed_decimal(x: i64)
    ensures
        parse_i64_text(signed_decimal(x as int)) == Some(x),
{
    let s = signed_decimal(x as int);
    if x < 0 {
        lemma_decimal((-x) as nat);
        assert(s.drop_first() =~= decimal((-x) as nat));
        assert(s[0] == '-');
    } else {
        lemma_decimal(x as nat);
        assert(is_dec_digit(s[0]));
    }
}

proof fn lemma_hex_digit(n: int)
    requires
        0 <= n < 16,
    ensures
        is_hex_digit(hex_digit(n)),
        hex_value(hex_digit(n)) == n,
        !is_white(hex_digit(n)),
        hex_digit(n) != '+',
{
    let s = seq!['0', '1', '2', '3', '4', '5', '6', '7', '8', '9', 'a', 'b', 'c', 'd', 'e', 'f'];
    assert(s[0] == '0' && s[1] == '1' && s[2] == '2' && s[3] == '3' && s[4] == '4');
    assert(s[5] == '5' && s[6] == '6' && s[7] == '7' && s[8] == '8' && s[9] == '9');
    assert(s[10] == 'a' && s[11] == 'b' && s[12] == 'c' && s[13] == 'd' && s[14] == 'e');
    assert(s[15] == 'f');
}

/// Every character of a hex rendering is a hex digit, never whitespace.
pub proof fn lemma_hex_of_chars(d: Seq<u8>)
    ensures
        forall|i: int| 0 <= i < hex_of(d).len() ==> is_hex_digit(#[trigger] hex_of(d)[i]) && !is_white(hex_of(d)[i]),
    decreases d.len(),
{
    if d.len() > 0 {
        lemma_hex_of_chars(d.drop_first());
        lemma_hex_digit((d[0] / 16) as int);
        lemma_hex_digit((d[0] % 16) as int);
        let h = hex_of(d);
        let rest = hex_of(d.drop_first());
        assert forall|i: int| 0 <= i < h.len() implies is_hex_digit(#[trigger] h[i]) && !is_white(h[i]) by {
            if i >= 2 {
                assert(h[i] == rest[i - 2]);
            }
        }
    }
}

/// Reading a hex rendering back in pairs gives the bytes it was rendered from.
pub proof fn lemma_hex_pairs_of(d: Seq<u8>)
    ensures
        hex_pairs(hex_of(d)) == Some(d),
    decreases d.len(),
{
    if d.len() == 0 {
        assert(hex_of(d) =~= Seq::<char>::empty());
    } else {
        let pre = d.drop_last();
        let b = d.last();
        assert(pre.push(b) =~= d);
        lemma_hex_of_push(pre, b);
        lemma_hex_pairs_of(pre);
        lemma_hex_of_len(pre);
        lemma_hex_digit((b / 16) as int);
        lemma_hex_digit((b % 16) as int);
        let h = hex_of(d);
        assert(h.take(h.len() - 2) =~= hex_of(pre));
        assert(h[h.len() - 2] == hex_digit((b / 16) as int));
        assert(h[h.len() - 1] == hex_digit((b % 16) as int));
        assert((b / 16) * 16 + b % 16 == b);
        assert(pair_value(h[h.len() - 2], h[h.len() - 1]) == Some(b));
    }
}

/// A field with no space in it.
spec fn spaceless(s: Seq<char>) -> bool {
    forall|i: int| 0 <= i < s.len() ==> #[trigger] s[i] != ' '
}

/// Splitting `f0 f1 ... fn` at its spaces gives back the fields, when none holds a space.
proof fn lemma_fields_of_join(head: Seq<char>, rest: Seq<Seq<char>>, n: nat)
    requires
        spaceless(head),
        rest.len() + 1 == n,
        n >= 1,
        forall|k: int| 0 <= k < rest.len() ==> spaceless(#[trigger] rest[k]),
    ensures
        fields_of(joined_fields(head, rest), n) == Some(seq![head] + rest),
    decreases n,
{
    if n == 1 {
        assert(joined_fields(head, rest) == head);
        lemma_first_index_of(head, ' ');
        assert(rest =~= Seq::<Seq<char>>::empty());
        assert(seq![head] + rest =~= seq![head]);
    } else {
        let tail = joined_fields(rest[0], rest.drop_first());
        assert forall|k: int| 0 <= k < rest.drop_first().len() implies spaceless(#[trigger] rest.drop_first()[k]) by {
            assert(rest.drop_first()[k] == rest[k + 1]);
        }
        assert(spaceless(rest[0]));
        lemma_fields_of_join(rest[0], rest.drop_first(), (n - 1) as nat);
        let s = joined_fields(head, rest);
        assert(s == head + seq![' '] + tail);
        lemma_first_index_after(head, tail, ' ');
        assert(s.take(head.len() as int) =~= head);
        assert(s.skip(head.len() as int + 1) =~= tail);
        assert(seq![head] + (seq![rest[0]] + rest.drop_first()) =~= seq![head] + rest);
    }
}

/// `head` followed by each field of `rest`, one space before each.
spec fn joined_fields(head: Seq<char>, rest: Seq<Seq<char>>) -> Seq<char>
    decreases rest.len(),
{
    if rest.len() == 0 {
        head
    } else {
        head + seq![' '] + joined_fields(rest[0], rest.drop_first())
    }
}

proof fn lemma_spaceless_decimal(n: nat)
    ensures
        spaceless(decimal(n)),
{
    lemma_decimal(n);
    assert forall|i: int| 0 <= i < decimal(n).len() implies #[trigger] decimal(n)[i] != ' ' by {
        assert(is_dec_digit(decimal(n)[i]));
    }
}

proof fn lemma_spaceless_signed(x: int)
    ensures
        spaceless(signed_decimal(x)),
{
    if x < 0 {
        lemma_spaceless_decimal((-x) as nat);
        let s = signed_decimal(x);
        assert forall|i: int| 0 <= i < s.len() implies #[trigger] s[i] != ' ' by {
            if i > 0 {
                assert(s[i] == decimal((-x) as nat)[i - 1]);
            }
        }
    } else {
        lemma_spaceless_decimal(x as nat);
    }
}

/// The seven fields of a payload.
spec fn payload_fields(k: FileKey, d: Seq<u8>) -> Seq<Seq<char>> {
    seq![seq!['v', '1'], decimal(k.dev as nat), decimal(k.ino as nat),
        signed_decimal(k.mtime_s as int), signed_decimal(k.mtime_ns as int),
        decimal(k.size as nat), hex_of(d)]
}

#[verifier::spinoff_prover]
#[verifier::rlimit(40)]
proof fn lemma_payload_is_joined(k: FileKey, d: Seq<u8>)
    ensures
        joined_fields(seq!['v', '1'], payload_fields(k, d).drop_first()) == payload_text(k, d),
{
    let fs = payload_fields(k, d);
    let rest = fs.drop_first();
    let r1 = rest.drop_first();
    let r2 = r1.drop_first();
    let r3 = r2.drop_first();
    let r4 = r3.drop_first();
    let r5 = r4.drop_first();
    assert(r5 =~= seq![hex_of(d)]);
    assert(r5.drop_first() =~= Seq::<Seq<char>>::empty());
    let j6 = joined_fields(r5[0], r5.drop_first());
    assert(j6 == hex_of(d));
    let j5 = joined_fields(r4[0], r5);
    assert(j5 == decimal(k.size as nat) + seq![' '] + j6);
    let j4 = joined_fields(r3[0], r4);
    assert(j4 == signed_decimal(k.mtime_ns as int) + seq![' '] + j5);
    let j3 = joined_fields(r2[0], r3);
    assert(j3 == signed_decimal(k.mtime_s as int) + seq![' '] + j4);
    let j2 = joined_fields(r1[0], r2);
    assert(j2 == decimal(k.ino as nat) + seq![' '] + j3);
    let j1 = joined_fields(rest[0], r1);
    assert(j1 == decimal(k.dev as nat) + seq![' '] + j2);
    assert(joined_fields(seq!['v', '1'], rest) == seq!['v', '1'] + seq![' '] + j1);
    assert(joined_fields(seq!['v', '1'], rest) =~= payload_text(k, d));
}

proof fn lemma_payload_split(k: FileKey, d: Seq<u8>)
    ensures
        fields_of(payload_text(k, d), 7) == Some(payload_fields(k, d)),
{
    let fs = payload_fields(k, d);
    let head = fs[0];
    let rest = fs.drop_first();
    lemma_spaceless_decimal(k.dev as nat);
    lemma_spaceless_decimal(k.ino as nat);
    lemma_spaceless_signed(k.mtime_s as int);
    lemma_spaceless_signed(k.mtime_ns as int);
    lemma_spaceless_decimal(k.size as nat);
    lemma_hex_of_chars(d);
    let f6 = hex_of(d);
    assert(spaceless(f6)) by {
        assert forall|i: int| 0 <= i < f6.len() implies #[trigger] f6[i] != ' ' by {
            assert(!is_white(f6[i]));
        }
    }
    assert(spaceless(head));
    assert forall|m: int| 0 <= m < rest.len() implies spaceless(#[trigger] rest[m]) by {
        assert(rest[m] == fs[m + 1]);
    }
    lemma_fields_of_join(head, rest, 7);
    lemma_payload_is_joined(k, d);
    assert(seq![head] + rest =~= fs);
}

/// The payload of `k` -> `d` reads back as `k` -> `d`.
pub proof fn lemma_payload_round_trip(k: FileKey, d: Seq<u8>)
    requires
        d.len() == 32,
    ensures
        parse_payload(payload_text(k, d)) == Some((k, d)),
{
    lemma_payload_split(k, d);
    let fs = payload_fields(k, d);
    lemma_parse_decimal(k.dev);
    lemma_parse_decimal(k.ino);
    lemma_parse_signed_decimal(k.mtime_s);
    lemma_parse_signed_decimal(k.mtime_ns);
    lemma_parse_decimal(k.size);
    lemma_hex_pairs_of(d);
    lemma_hex_of_len(d);
    assert(digest_text(fs[6]) == Some(d));
    assert(parse_u64_text(fs[1]) == Some(k.dev));
    assert(parse_u64_text(fs[2]) == Some(k.ino));
    assert(parse_i64_text(fs[3]) == Some(k.mtime_s));
    assert(parse_i64_text(fs[4]) == Some(k.mtime_ns));
    assert(parse_u64_text(fs[5]) == Some(k.size));
    assert(fs[0] == seq!['v', '1']);
}

/// A tag is sixteen hex digits, never whitespace and never a space.
proof fn lemma_tag_chars(digest: [u8; 32])
    ensures
        tag_text(digest@).len() == 16,
        forall|i: int| 0 <= i < 16 ==> !is_white(#[trigger] tag_text(digest@)[i]),
{
    lemma_hex_of_len(digest@);
    lemma_hex_of_chars(digest@);
    let t = tag_text(digest@);
    assert forall|i: int| 0 <= i < 16 implies !is_white(#[trigger] t[i]) by {
        assert(t[i] == hex_of(digest@)[i]);
    }
}

/// The intact line without its newline: payload, a space, and the payload's tag.
pub open spec fn line_body(k: FileKey, d: [u8; 32]) -> Seq<char> {
    let p = payload_text(k, d@);
    p + seq![' '] + tag_text(sha256_digest(encode_utf8(p))@)
}

/// A text whose last character is not whitespace is its own `trim_end`.
proof fn lemma_trim_end_solid(s: Seq<char>)
    requires
        s.len() > 0,
        !is_white(s.last()),
    ensures
        end_solid(s) == s.len(),
        trim_end(s) == s,
{
    assert(s.subrange(0, s.len() as int) =~= s);
}

proof fn lemma_trimmed_line(k: FileKey, d: [u8; 32])
    ensures
        trim_end(line_text(k, d@)) == line_body(k, d),
        line_body(k, d).len() == payload_text(k, d@).len() + 17,
        forall|i: int| payload_text(k, d@).len() < i < line_body(k, d).len()
            ==> !is_white(#[trigger] line_body(k, d)[i]),
{
    let p = payload_text(k, d@);
    let tag = tag_text(sha256_digest(encode_utf8(p))@);
    lemma_tag_chars(sha256_digest(encode_utf8(p)));
    let line = line_text(k, d@);
    let body = line_body(k, d);
    assert(line =~= body.push('\n'));
    assert(is_white('\n'));
    assert(line.drop_last() =~= body);
    assert(body.last() == tag[15]);
    lemma_trim_end_solid(body);
    assert(line.last() == '\n');
    assert(end_solid(line) == end_solid(line.drop_last()));
    assert(trim_end(line) =~= body);
    assert forall|i: int| p.len() < i < body.len() implies !is_white(#[trigger] body[i]) by {
        assert(body[i] == tag[i - p.len() - 1]);
    }
}

/// THE SIDECAR ROUND TRIP: the line written for a key and a digest reads back as exactly that
/// key and that digest.
pub proof fn cache_line_round_trips(k: FileKey, d: [u8; 32])
    ensures
        parse_line(line_text(k, d@)) == Some((k, d@)),
{
    let p = payload_text(k, d@);
    let tag = tag_text(sha256_digest(encode_utf8(p))@);
    lemma_trimmed_line(k, d);
    let body = line_body(k, d);
    assert forall|i: int| 0 <= i < tag.len() implies #[trigger] tag[i] != ' ' by {
        assert(body[p.len() + 1 + i] == tag[i]);
        assert(is_white(' '));
    }
    lemma_last_index_before(p, tag, ' ');
    assert(body.take(p.len() as int) =~= p);
    assert(body.skip(p.len() as int + 1) =~= tag);
    lemma_payload_round_trip(k, d@);
}

/// The tag's last character turned into whitespace: trimming drops it, and what follows the
/// separator is one character short of a tag.
proof fn lemma_damage_trimmed(k: FileKey, d: [u8; 32], c: char)
    requires
        is_white(c),
    ensures
        parse_line(line_body(k, d).update(line_body(k, d).len() - 1, c)) is None,
{
    let p = payload_text(k, d@);
    let n = p.len() as int;
    let tag = tag_text(sha256_digest(encode_utf8(p))@);
    lemma_trimmed_line(k, d);
    lemma_tag_chars(sha256_digest(encode_utf8(p)));
    let body = line_body(k, d);
    let len = body.len() as int;
    let damaged = body.update(len - 1, c);
    assert(damaged.drop_last() =~= body.take(len - 1));
    assert(body[len - 2] == tag[14]);
    assert(!is_white(damaged.drop_last().last()));
    lemma_trim_end_solid(damaged.drop_last());
    assert(damaged.last() == c);
    assert(end_solid(damaged) == end_solid(damaged.drop_last()));
    let l = trim_end(damaged);
    assert(l =~= body.take(len - 1));
    let short = tag.take(15);
    assert(l =~= p + seq![' '] + short);
    assert forall|m: int| 0 <= m < short.len() implies #[trigger] short[m] != ' ' by {
        assert(!is_white(tag[m]));
        assert(is_white(' '));
    }
    lemma_last_index_before(p, short, ' ');
    assert(l.take(n) =~= p);
    assert(l.skip(n + 1).len() == 15);
    assert(tag.len() == 16);
}

/// The damaged line keeps a solid last character, so trimming leaves it whole.
proof fn lemma_damage_untrimmed(k: FileKey, d: [u8; 32], i: int, c: char)
    requires
        payload_text(k, d@).len() <= i < payload_text(k, d@).len() + 17,
        !(i == payload_text(k, d@).len() + 16 && is_white(c)),
    ensures
        trim_end(line_body(k, d).update(i, c)) == line_body(k, d).update(i, c),
{
    lemma_trimmed_line(k, d);
    let body = line_body(k, d);
    let damaged = body.update(i, c);
    let len = body.len() as int;
    assert(!is_white(body[len - 1]));
    assert(damaged.last() == if i == len - 1 { c } else { body[len - 1] });
    lemma_trim_end_solid(damaged);
}

/// The separator replaced: the last space, if any, lies inside the payload, so what follows it
/// is longer than a tag.
proof fn lemma_damage_separator(k: FileKey, d: [u8; 32], c: char)
    requires
        c != ' ',
    ensures
        parse_line(line_body(k, d).update(payload_text(k, d@).len() as int, c)) is None,
{
    let n = payload_text(k, d@).len() as int;
    lemma_trimmed_line(k, d);
    lemma_damage_untrimmed(k, d, n, c);
    let l = line_body(k, d).update(n, c);
    assert(is_white(' '));
    lemma_last_index_of(l, ' ');
    let j = last_index_of(l, ' ');
    if j >= n {
        assert(l[j] == ' ');
        if j > n {
            assert(l[j] == line_body(k, d)[j]);
        }
    }
    assert(j < n);
    if j >= 0 {
        lemma_tag_chars(sha256_digest(encode_utf8(l.take(j))));
        assert(l.skip(j + 1).len() > 16);
    }
}

/// A space written into the tag: what follows the last space is shorter than a tag.
proof fn lemma_damage_space_in_tag(k: FileKey, d: [u8; 32], i: int)
    requires
        payload_text(k, d@).len() < i < payload_text(k, d@).len() + 16,
    ensures
        parse_line(line_body(k, d).update(i, ' ')) is None,
{
    lemma_trimmed_line(k, d);
    lemma_damage_untrimmed(k, d, i, ' ');
    let l = line_body(k, d).update(i, ' ');
    lemma_last_index_of(l, ' ');
    let j = last_index_of(l, ' ');
    assert(l[i] == ' ');
    assert(j >= i);
    lemma_tag_chars(sha256_digest(encode_utf8(l.take(j))));
    assert(l.skip(j + 1).len() < 16);
}

/// Any other character written into the tag: the separator stands, and the tag no longer
/// matches the payload's own.
proof fn lemma_damage_in_tag(k: FileKey, d: [u8; 32], i: int, c: char)
    requires
        payload_text(k, d@).len() < i < payload_text(k, d@).len() + 17,
        c != ' ',
        !(i == payload_text(k, d@).len() + 16 && is_white(c)),
        c != line_body(k, d)[i],
    ensures
        parse_line(line_body(k, d).update(i, c)) is None,
{
    let p = payload_text(k, d@);
    let n = p.len() as int;
    let tag = tag_text(sha256_digest(encode_utf8(p))@);
    lemma_trimmed_line(k, d);
    lemma_damage_untrimmed(k, d, i, c);
    let body = line_body(k, d);
    let l = body.update(i, c);
    assert(is_white(' '));
    lemma_last_index_of(l, ' ');
    let j = last_index_of(l, ' ');
    assert(l[n] == ' ');
    assert(j >= n);
    if j > n {
        assert(l[j] == ' ');
        assert(j != i);
        assert(l[j] == body[j]);
    }
    assert(j == n);
    assert(l.take(n) =~= p);
    assert(l.skip(n + 1)[i - n - 1] == c);
    assert(body[i] == tag[i - n - 1]);
    assert(l.skip(n + 1) != tag);
}

/// A DAMAGED TAG IS NEVER READ: changing any one character of an intact line's integrity tag,
/// or of the space before it, to a different character makes the line read as no entry.
pub proof fn a_damaged_tag_drops_the_line(k: FileKey, d: [u8; 32], i: int, c: char)
    requires
        payload_text(k, d@).len() <= i < payload_text(k, d@).len() + 17,
        c != trim_end(line_text(k, d@))[i],
    ensures
        parse_line(trim_end(line_text(k, d@)).update(i, c)) is None,
{
    let n = payload_text(k, d@).len() as int;
    lemma_trimmed_line(k, d);
    if i == n + 16 && is_white(c) {
        lemma_damage_trimmed(k, d, c);
    } else if i == n {
        lemma_damage_separator(k, d, c);
    } else if c == ' ' {
        lemma_damage_space_in_tag(k, d, i);
    } else {
        lemma_damage_in_tag(k, d, i, c);
    }
}

} // verus!
